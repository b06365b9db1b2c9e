//! The distinct chain name set: the sorted, de-duplicated list of all chain
//! names observed across the portfolio. It is derived from the model and
//! serves as the root enumeration of the chain-rooted projection.

use vstd::prelude::*;
use crate::model::{Signer, model_has_chain_name, account_has_chain, signer_has_chain};
use crate::order::{lex_lt, lemma_lex_total, lemma_lex_trans, lemma_lex_irrefl, str_lex_lt};

verus! {

/// Some entry of the list is the name `cn`.
pub open spec fn has_name(s: Seq<String>, cn: Seq<char>) -> bool {
    exists|i: int| 0 <= i < s.len() && (#[trigger] s[i])@ == cn
}

/// Every chain name occurring anywhere in the portfolio has an entry in
/// the name list: the pairing that the derived chain name set guarantees,
/// and that the chain-rooted projection's builder relies on to place every
/// occurrence under a root.
pub open spec fn chain_names_cover(m: Seq<Signer>, names: Seq<String>) -> bool {
    forall|cn: Seq<char>| #[trigger] model_has_chain_name(m, cn) ==> has_name(names, cn)
}

/// Adjacent entries are strictly increasing in lexicographic order; this
/// also rules out duplicates.
pub open spec fn strictly_sorted_names(s: Seq<String>) -> bool {
    forall|i: int| 0 <= i && i + 1 < s.len() ==> lex_lt(#[trigger] s[i]@, s[i + 1]@)
}

/// In a strictly sorted list, every earlier entry is strictly below every
/// later one.
pub proof fn lemma_sorted_across(s: Seq<String>, i: int, j: int)
    requires
        strictly_sorted_names(s),
        0 <= i < j < s.len(),
    ensures
        lex_lt(s[i]@, s[j]@),
    decreases j - i,
{
    if j > i + 1 {
        lemma_sorted_across(s, i, j - 1);
        lemma_lex_trans(s[i]@, s[j - 1]@, s[j]@);
    }
}

/// A strictly sorted name list is uniquely determined by its membership:
/// the derived chain name set depends on the model alone.
pub proof fn lemma_sorted_names_unique(a: Seq<String>, b: Seq<String>)
    requires
        strictly_sorted_names(a),
        strictly_sorted_names(b),
        forall|cn: Seq<char>| has_name(a, cn) <==> has_name(b, cn),
    ensures
        a.len() == b.len(),
        forall|i: int| 0 <= i < a.len() ==> (#[trigger] a[i])@ == b[i]@,
    decreases a.len(),
{
    if a.len() == 0 {
        if b.len() > 0 {
            assert(has_name(b, b[0]@));
            assert(false);
        }
    } else {
        assert(has_name(a, a[0]@));
        let bi = choose|i: int| 0 <= i < b.len() && (#[trigger] b[i])@ == a[0]@;
        if bi > 0 {
            lemma_sorted_across(b, 0, bi);
            assert(lex_lt(b[0]@, a[0]@));
            assert(has_name(b, b[0]@));
            let aj = choose|j: int| 0 <= j < a.len() && (#[trigger] a[j])@ == b[0]@;
            if aj == 0 {
                lemma_lex_irrefl(a[0]@);
            } else {
                lemma_sorted_across(a, 0, aj);
                lemma_lex_trans(a[0]@, a[aj]@, a[0]@);
                lemma_lex_irrefl(a[0]@);
            }
            assert(false);
        }
        assert(b.len() > 0 && b[0]@ == a[0]@);
        let a1 = a.drop_first();
        let b1 = b.drop_first();
        assert forall|i: int| 0 <= i && i + 1 < a1.len() implies lex_lt(
            #[trigger] a1[i]@,
            a1[i + 1]@,
        ) by {
            assert(a1[i] == a[i + 1] && a1[i + 1] == a[i + 2]);
        }
        assert forall|i: int| 0 <= i && i + 1 < b1.len() implies lex_lt(
            #[trigger] b1[i]@,
            b1[i + 1]@,
        ) by {
            assert(b1[i] == b[i + 1] && b1[i + 1] == b[i + 2]);
        }
        assert forall|cn: Seq<char>| has_name(a1, cn) <==> has_name(b1, cn) by {
            if has_name(a1, cn) {
                let i = choose|i: int| 0 <= i < a1.len() && (#[trigger] a1[i])@ == cn;
                assert(a1[i] == a[i + 1]);
                assert(has_name(a, cn));
                if cn == a[0]@ {
                    lemma_sorted_across(a, 0, i + 1);
                    lemma_lex_irrefl(a[0]@);
                }
                let j = choose|j: int| 0 <= j < b.len() && (#[trigger] b[j])@ == cn;
                assert(j > 0);
                assert(b1[j - 1] == b[j]);
                assert(has_name(b1, cn));
            }
            if has_name(b1, cn) {
                let i = choose|i: int| 0 <= i < b1.len() && (#[trigger] b1[i])@ == cn;
                assert(b1[i] == b[i + 1]);
                assert(has_name(b, cn));
                if cn == b[0]@ {
                    lemma_sorted_across(b, 0, i + 1);
                    lemma_lex_irrefl(b[0]@);
                }
                let j = choose|j: int| 0 <= j < a.len() && (#[trigger] a[j])@ == cn;
                assert(j > 0);
                assert(a1[j - 1] == a[j]);
                assert(has_name(a1, cn));
            }
        }
        lemma_sorted_names_unique(a1, b1);
        assert forall|i: int| 0 <= i < a.len() implies (#[trigger] a[i])@ == b[i]@ by {
            if i > 0 {
                assert(a1[i - 1]@ == b1[i - 1]@);
                assert(a1[i - 1] == a[i] && b1[i - 1] == b[i]);
            }
        }
    }
}

/// Finds the position at which `x` sorts into the strictly sorted list `v`:
/// every entry before it is strictly below `x`, and the entry at it (if any)
/// is not.
fn find_insert_pos(v: &Vec<String>, x: &String) -> (p: usize)
    requires
        strictly_sorted_names(v@),
    ensures
        p <= v@.len(),
        forall|j: int| 0 <= j < p ==> lex_lt(#[trigger] v@[j]@, x@),
        p < v@.len() ==> !lex_lt(v@[p as int]@, x@),
{
    let mut p: usize = 0;
    while p < v.len()
        invariant
            p <= v@.len(),
            forall|j: int| 0 <= j < p ==> lex_lt(#[trigger] v@[j]@, x@),
        decreases v@.len() - p,
    {
        if !str_lex_lt(&v[p], x) {
            return p;
        }
        p += 1;
    }
    p
}

/// Inserts the name `x` into the strictly sorted list `v` unless it is
/// already present, keeping the list strictly sorted.
pub fn insert_name(v: &mut Vec<String>, x: &String)
    requires
        strictly_sorted_names(old(v)@),
    ensures
        strictly_sorted_names(final(v)@),
        forall|cn: Seq<char>| has_name(final(v)@, cn) <==> (has_name(old(v)@, cn) || cn == x@),
{
    let p: usize = find_insert_pos(v, x);
    if p < v.len() && v[p] == *x {
        proof {
            assert(v@[p as int]@ == x@);
            assert forall|cn: Seq<char>|
                has_name(v@, cn) <==> (has_name(old(v)@, cn) || cn == x@) by {
                if cn == x@ {
                    assert(0 <= p < v@.len() && v@[p as int]@ == cn);
                }
            }
        }
        return;
    }
    proof {
        if p < v@.len() {
            lemma_lex_total(v@[p as int]@, x@);
            assert(lex_lt(x@, v@[p as int]@));
        }
        old(v)@.insert_ensures(p as int, *x);
    }
    let ghost prior: Seq<String> = v@;
    v.insert(p, x.clone());
    proof {
        assert(v@ == prior.insert(p as int, *x));
        assert(v@.len() == prior.len() + 1);
        assert(forall|i: int| 0 <= i < p ==> #[trigger] v@[i] == prior[i]);
        assert(forall|i: int| p <= i < prior.len() ==> #[trigger] v@[i + 1] == prior[i]);
        assert(v@[p as int] == *x);
        assert forall|i: int| 0 <= i && i + 1 < v@.len() implies lex_lt(
            #[trigger] v@[i]@,
            v@[i + 1]@,
        ) by {
            if i + 1 < p {
                assert(v@[i] == prior[i] && v@[i + 1] == prior[i + 1]);
            } else if i + 1 == p {
                assert(v@[i] == prior[i]);
            } else if i == p {
                assert(v@[i + 1] == prior[i]);
                assert(lex_lt(x@, prior[i]@));
            } else {
                assert(v@[i] == prior[i - 1] && v@[i + 1] == prior[i]);
            }
        }
        assert forall|cn: Seq<char>|
            has_name(v@, cn) <==> (has_name(prior, cn) || cn == x@) by {
            if has_name(v@, cn) {
                let i = choose|i: int| 0 <= i < v@.len() && (#[trigger] v@[i])@ == cn;
                if i < p {
                    assert(prior[i]@ == cn);
                } else if i == p {
                    assert(cn == x@);
                } else {
                    assert(v@[(i - 1) + 1] == prior[i - 1]);
                    assert(prior[i - 1]@ == cn);
                }
            }
            if has_name(prior, cn) {
                let i = choose|i: int| 0 <= i < prior.len() && (#[trigger] prior[i])@ == cn;
                if i < p {
                    assert(v@[i]@ == cn);
                } else {
                    assert(v@[i + 1]@ == cn);
                }
            }
            if cn == x@ {
                assert(v@[p as int]@ == cn);
            }
        }
    }
}

/// Collects the sorted, de-duplicated set of all chain names appearing
/// anywhere in the portfolio.
pub fn distinct_chain_names(signers: &Vec<Signer>) -> (r: Vec<String>)
    ensures
        strictly_sorted_names(r@),
        forall|cn: Seq<char>| has_name(r@, cn) <==> model_has_chain_name(signers@, cn),
{
    let mut r: Vec<String> = Vec::new();
    let mut i: usize = 0;
    while i < signers.len()
        invariant
            i <= signers@.len(),
            strictly_sorted_names(r@),
            forall|cn: Seq<char>|
                has_name(r@, cn) <==> exists|x: int|
                    0 <= x < i && signer_has_chain(#[trigger] signers@[x], cn),
        decreases signers@.len() - i,
    {
        let signer = &signers[i];
        let mut j: usize = 0;
        while j < signer.accounts.len()
            invariant
                i < signers@.len(),
                signer == &signers@[i as int],
                j <= signer.accounts@.len(),
                strictly_sorted_names(r@),
                forall|cn: Seq<char>|
                    has_name(r@, cn) <==> ((exists|x: int|
                        0 <= x < i && signer_has_chain(#[trigger] signers@[x], cn)) || (exists|y: int|
                        0 <= y < j && account_has_chain(#[trigger] signer.accounts@[y], cn))),
            decreases signer.accounts@.len() - j,
        {
            let account = &signer.accounts[j];
            let mut k: usize = 0;
            while k < account.chains.len()
                invariant
                    i < signers@.len(),
                    signer == &signers@[i as int],
                    j < signer.accounts@.len(),
                    account == &signer.accounts@[j as int],
                    k <= account.chains@.len(),
                    strictly_sorted_names(r@),
                    forall|cn: Seq<char>|
                        has_name(r@, cn) <==> ((exists|x: int|
                            0 <= x < i && signer_has_chain(#[trigger] signers@[x], cn)) || (
                        exists|y: int|
                            0 <= y < j && account_has_chain(
                                #[trigger] signer.accounts@[y],
                                cn,
                            )) || (exists|z: int|
                            0 <= z < k && (#[trigger] account.chains@[z]).name@ == cn)),
                decreases account.chains@.len() - k,
            {
                insert_name(&mut r, &account.chains[k].name);
                k += 1;
            }
            proof {
                assert forall|cn: Seq<char>|
                    (exists|z: int|
                        0 <= z < account.chains@.len() && (#[trigger] account.chains@[z]).name@
                            == cn) implies account_has_chain(signer.accounts@[j as int], cn) by {}
            }
            j += 1;
        }
        proof {
            assert forall|cn: Seq<char>|
                (exists|y: int|
                    0 <= y < signer.accounts@.len() && account_has_chain(
                        #[trigger] signer.accounts@[y],
                        cn,
                    )) implies signer_has_chain(signers@[i as int], cn) by {}
        }
        i += 1;
    }
    r
}

} // verus!
