//! The chain-rooted projection: a forest rooted at the distinct chain
//! names, in sorted order. Each root merges every occurrence of that chain
//! name across the portfolio: beneath it, one node per distinct signer name
//! owning the chain (in first-seen walk order), beneath that one node per
//! distinct account name (in first-seen walk order), and beneath that one
//! leaf per asset of every matching chain entry.
//!
//! Signer and account nodes keep the original array indices in their paths,
//! so the detail resolver can find the true records again; a leaf path
//! additionally carries the chain entry's own array index, because one
//! account may hold several entries with the same chain name.

use vstd::prelude::*;
use crate::model::{Chain, Account, Signer, account_has_chain, signer_has_chain};
use crate::model::{account_holds_chain, signer_holds_chain};
use crate::tree::{TreeItem, ItemV, Branch3, Branch2, Branch1, Tree, Branch3V, Branch2V, Branch1V,
    TreeV, item_views, branch3_views, branch2_views};
use crate::signer_tree::{asset_label, path1, path2, path3, path5, make_asset_label};

verus! {

/// The leaf for asset `li` of chain entry `k3` of account `a3` of signer
/// `s3`, under chain root `ci`.
pub open spec fn chain_leaf_v(a: crate::model::Asset, ci: int, s3: int, a3: int, k3: int, li: int)
    -> ItemV {
    ItemV {
        label: asset_label(a),
        path: seq![ci as usize, s3 as usize, a3 as usize, k3 as usize, li as usize],
    }
}

/// The leaves contributed by one chain entry.
pub open spec fn entry_leaves_v(c: Chain, ci: int, s3: int, a3: int, k3: int) -> Seq<ItemV> {
    Seq::new(c.assets@.len(), |li: int| chain_leaf_v(c.assets@[li], ci, s3, a3, k3, li))
}

/// The leaves contributed by the first `n` chain entries of one account
/// that are named `cn`.
pub open spec fn account_entry_leaves_prefix(
    acct: Account,
    cn: Seq<char>,
    ci: int,
    s3: int,
    a3: int,
    n: int,
) -> Seq<ItemV>
    decreases n,
{
    if n <= 0 {
        Seq::empty()
    } else {
        account_entry_leaves_prefix(acct, cn, ci, s3, a3, n - 1) + if acct.chains@[n - 1].name@
            == cn {
            entry_leaves_v(acct.chains@[n - 1], ci, s3, a3, n - 1)
        } else {
            Seq::empty()
        }
    }
}

/// The leaves contributed by the first `n` accounts of one signer that are
/// named `an`, through their chain entries named `cn`.
pub open spec fn signer_leaves_prefix(
    s: Signer,
    cn: Seq<char>,
    an: Seq<char>,
    ci: int,
    s3: int,
    n: int,
) -> Seq<ItemV>
    decreases n,
{
    if n <= 0 {
        Seq::empty()
    } else {
        signer_leaves_prefix(s, cn, an, ci, s3, n - 1) + if s.accounts@[n - 1].name@ == an {
            account_entry_leaves_prefix(
                s.accounts@[n - 1],
                cn,
                ci,
                s3,
                n - 1,
                s.accounts@[n - 1].chains@.len() as int,
            )
        } else {
            Seq::empty()
        }
    }
}

/// The leaves gathered under the account node for `(cn, nm, an)` from the
/// first `n` signers: every asset of every chain entry named `cn` inside an
/// account named `an` of a signer named `nm`, in walk order.
pub open spec fn merged_leaves_prefix(
    m: Seq<Signer>,
    cn: Seq<char>,
    nm: Seq<char>,
    an: Seq<char>,
    ci: int,
    n: int,
) -> Seq<ItemV>
    decreases n,
{
    if n <= 0 {
        Seq::empty()
    } else {
        merged_leaves_prefix(m, cn, nm, an, ci, n - 1) + if m[n - 1].name@ == nm {
            signer_leaves_prefix(m[n - 1], cn, an, ci, n - 1, m[n - 1].accounts@.len() as int)
        } else {
            Seq::empty()
        }
    }
}

/// All leaves gathered under the account node for `(cn, nm, an)`.
pub open spec fn merged_leaves(
    m: Seq<Signer>,
    cn: Seq<char>,
    nm: Seq<char>,
    an: Seq<char>,
    ci: int,
) -> Seq<ItemV> {
    merged_leaves_prefix(m, cn, nm, an, ci, m.len() as int)
}

/// Account `(si, ai)` is the first account in walk order named as it is,
/// under a signer named as signer `si` is, holding a chain entry named
/// `cn`: the walk creates the account node at this occurrence.
pub open spec fn is_first_account(m: Seq<Signer>, cn: Seq<char>, si: int, ai: int) -> bool {
    &&& 0 <= si < m.len()
    &&& 0 <= ai < m[si].accounts@.len()
    &&& account_has_chain(m[si].accounts@[ai], cn)
    &&& forall|x: int, a: int|
        0 <= x < m.len() && 0 <= a < m[x].accounts@.len() && (x < si || (x == si && a < ai))
            && m[x].name@ == m[si].name@ && (#[trigger] m[x].accounts@[a]).name@
            == m[si].accounts@[ai].name@ ==> !account_has_chain(m[x].accounts@[a], cn)
}

/// The account node created at occurrence `(si, ai)` under chain root `ci`.
pub open spec fn account_node_v(m: Seq<Signer>, cn: Seq<char>, ci: int, si: int, ai: int)
    -> Branch3V {
    Branch3V {
        item: ItemV {
            label: m[si].accounts@[ai].name@,
            path: seq![ci as usize, si as usize, ai as usize],
        },
        leaves: merged_leaves(m, cn, m[si].name@, m[si].accounts@[ai].name@, ci),
    }
}

/// The account nodes created while walking the first `n` accounts of
/// signer `si`.
pub open spec fn accounts_within_signer_prefix(
    m: Seq<Signer>,
    cn: Seq<char>,
    ci: int,
    si: int,
    n: int,
) -> Seq<Branch3V>
    decreases n,
{
    if n <= 0 {
        Seq::empty()
    } else {
        accounts_within_signer_prefix(m, cn, ci, si, n - 1) + if is_first_account(
            m,
            cn,
            si,
            n - 1,
        ) {
            seq![account_node_v(m, cn, ci, si, n - 1)]
        } else {
            Seq::empty()
        }
    }
}

/// The account nodes under the signer node for `(cn, nm)`, gathered from
/// the first `n` signers in walk order.
pub open spec fn account_nodes_prefix(
    m: Seq<Signer>,
    cn: Seq<char>,
    nm: Seq<char>,
    ci: int,
    n: int,
) -> Seq<Branch3V>
    decreases n,
{
    if n <= 0 {
        Seq::empty()
    } else {
        account_nodes_prefix(m, cn, nm, ci, n - 1) + if m[n - 1].name@ == nm {
            accounts_within_signer_prefix(m, cn, ci, n - 1, m[n - 1].accounts@.len() as int)
        } else {
            Seq::empty()
        }
    }
}

/// Signer `si` is the first signer in walk order with its name holding a
/// chain entry named `cn`: the walk creates the signer node here.
pub open spec fn is_first_owner(m: Seq<Signer>, cn: Seq<char>, si: int) -> bool {
    &&& 0 <= si < m.len()
    &&& signer_has_chain(m[si], cn)
    &&& forall|x: int|
        0 <= x < si && (#[trigger] m[x]).name@ == m[si].name@ ==> !signer_has_chain(m[x], cn)
}

/// The signer node created at occurrence `si` under chain root `ci`.
pub open spec fn signer_node_v(m: Seq<Signer>, cn: Seq<char>, ci: int, si: int) -> Branch2V {
    Branch2V {
        item: ItemV { label: m[si].name@, path: seq![ci as usize, si as usize] },
        children: account_nodes_prefix(m, cn, m[si].name@, ci, m.len() as int),
    }
}

/// The signer nodes under chain root `ci`, one per distinct signer name
/// owning the chain, in first-seen walk order.
pub open spec fn owners_prefix(m: Seq<Signer>, cn: Seq<char>, ci: int, n: int) -> Seq<Branch2V>
    decreases n,
{
    if n <= 0 {
        Seq::empty()
    } else {
        owners_prefix(m, cn, ci, n - 1) + if is_first_owner(m, cn, n - 1) {
            seq![signer_node_v(m, cn, ci, n - 1)]
        } else {
            Seq::empty()
        }
    }
}

/// The subtree rooted at distinct chain name `ci`.
pub open spec fn chain_root_v(m: Seq<Signer>, names: Seq<String>, ci: int) -> Branch1V {
    Branch1V {
        item: ItemV { label: names[ci]@, path: seq![ci as usize] },
        children: owners_prefix(m, names[ci]@, ci, m.len() as int),
    }
}

/// The whole chain-rooted projection: one root per distinct chain name, in
/// the (sorted) order of `names`.
pub open spec fn chain_tree_v(m: Seq<Signer>, names: Seq<String>) -> TreeV {
    TreeV { roots: Seq::new(names.len(), |ci: int| chain_root_v(m, names, ci)) }
}

/// Decides whether signer `si` is the first in walk order with its name to
/// hold a chain entry named `cn`.
fn is_first_owner_exec(signers: &Vec<Signer>, cn: &String, si: usize) -> (r: bool)
    requires
        si < signers@.len(),
    ensures
        r == is_first_owner(signers@, cn@, si as int),
{
    if !signer_holds_chain(&signers[si], cn) {
        return false;
    }
    let mut x: usize = 0;
    while x < si
        invariant
            x <= si,
            si < signers@.len(),
            signer_has_chain(signers@[si as int], cn@),
            forall|y: int|
                0 <= y < x && (#[trigger] signers@[y]).name@ == signers@[si as int].name@
                    ==> !signer_has_chain(signers@[y], cn@),
        decreases si - x,
    {
        if signers[x].name == signers[si].name && signer_holds_chain(&signers[x], cn) {
            return false;
        }
        x += 1;
    }
    true
}

/// Decides whether account `(si, ai)` is the first in walk order with its
/// account name, under its signer name, to hold a chain entry named `cn`.
fn is_first_account_exec(signers: &Vec<Signer>, cn: &String, si: usize, ai: usize) -> (r: bool)
    requires
        si < signers@.len(),
        ai < signers@[si as int].accounts@.len(),
    ensures
        r == is_first_account(signers@, cn@, si as int, ai as int),
{
    if !account_holds_chain(&signers[si].accounts[ai], cn) {
        return false;
    }
    let n: usize = signers.len();
    let mut x: usize = 0;
    while x <= si
        invariant
            x <= si + 1,
            n == signers@.len(),
            si < n,
            si < signers@.len(),
            ai < signers@[si as int].accounts@.len(),
            account_has_chain(signers@[si as int].accounts@[ai as int], cn@),
            forall|y: int, a: int|
                0 <= y < x && 0 <= a < signers@[y].accounts@.len() && (y < si || (y == si && a
                    < ai)) && signers@[y].name@ == signers@[si as int].name@ && (
                #[trigger] signers@[y].accounts@[a]).name@
                    == signers@[si as int].accounts@[ai as int].name@
                    ==> !account_has_chain(signers@[y].accounts@[a], cn@),
        decreases si + 1 - x,
    {
        if signers[x].name == signers[si].name {
            let bound: usize = if x < si {
                signers[x].accounts.len()
            } else {
                ai
            };
            let mut a: usize = 0;
            while a < bound
                invariant
                    x <= si,
                    si < signers@.len(),
                    ai < signers@[si as int].accounts@.len(),
                    account_has_chain(signers@[si as int].accounts@[ai as int], cn@),
                    signers@[x as int].name@ == signers@[si as int].name@,
                    bound <= signers@[x as int].accounts@.len(),
                    x < si ==> bound == signers@[x as int].accounts@.len(),
                    x == si ==> bound == ai,
                    a <= bound,
                    forall|y: int, b: int|
                        0 <= y < x && 0 <= b < signers@[y].accounts@.len() && (y < si || (y == si
                            && b < ai)) && signers@[y].name@ == signers@[si as int].name@ && (
                        #[trigger] signers@[y].accounts@[b]).name@
                            == signers@[si as int].accounts@[ai as int].name@
                            ==> !account_has_chain(signers@[y].accounts@[b], cn@),
                    forall|b: int|
                        0 <= b < a && (#[trigger] signers@[x as int].accounts@[b]).name@
                            == signers@[si as int].accounts@[ai as int].name@
                            ==> !account_has_chain(signers@[x as int].accounts@[b], cn@),
                decreases bound - a,
            {
                if signers[x].accounts[a].name == signers[si].accounts[ai].name
                    && account_holds_chain(&signers[x].accounts[a], cn) {
                    return false;
                }
                a += 1;
            }
        }
        x += 1;
    }
    true
}

/// Gathers the leaves contributed by the chain entries named `cn` of one
/// account, in array order.
fn build_entry_leaves(acct: &Account, cn: &String, ci: usize, s3: usize, a3: usize) -> (out: Vec<
    TreeItem,
>)
    ensures
        item_views(out@) == account_entry_leaves_prefix(
            *acct,
            cn@,
            ci as int,
            s3 as int,
            a3 as int,
            acct.chains@.len() as int,
        ),
{
    let mut out: Vec<TreeItem> = Vec::new();
    let mut k: usize = 0;
    while k < acct.chains.len()
        invariant
            k <= acct.chains@.len(),
            item_views(out@) == account_entry_leaves_prefix(
                *acct,
                cn@,
                ci as int,
                s3 as int,
                a3 as int,
                k as int,
            ),
        decreases acct.chains@.len() - k,
    {
        if acct.chains[k].name == *cn {
            let c = &acct.chains[k];
            let mut li: usize = 0;
            while li < c.assets.len()
                invariant
                    k < acct.chains@.len(),
                    c == &acct.chains@[k as int],
                    c.name@ == cn@,
                    li <= c.assets@.len(),
                    item_views(out@) == account_entry_leaves_prefix(
                        *acct,
                        cn@,
                        ci as int,
                        s3 as int,
                        a3 as int,
                        k as int,
                    ) + entry_leaves_v(
                        acct.chains@[k as int],
                        ci as int,
                        s3 as int,
                        a3 as int,
                        k as int,
                    ).subrange(0, li as int),
                decreases c.assets@.len() - li,
            {
                let ghost before: Seq<TreeItem> = out@;
                out.push(
                    TreeItem { label: make_asset_label(&c.assets[li]), path: path5(ci, s3, a3, k, li) },
                );
                proof {
                    let ev = entry_leaves_v(
                        acct.chains@[k as int],
                        ci as int,
                        s3 as int,
                        a3 as int,
                        k as int,
                    );
                    assert(item_views(out@) =~= item_views(before).push(ev[li as int]));
                    assert(ev.subrange(0, li as int).push(ev[li as int]) =~= ev.subrange(
                        0,
                        li + 1 as int,
                    ));
                    assert(item_views(out@) =~= account_entry_leaves_prefix(
                        *acct,
                        cn@,
                        ci as int,
                        s3 as int,
                        a3 as int,
                        k as int,
                    ) + ev.subrange(0, li + 1 as int));
                }
                li += 1;
            }
            proof {
                let ev = entry_leaves_v(
                    acct.chains@[k as int],
                    ci as int,
                    s3 as int,
                    a3 as int,
                    k as int,
                );
                assert(ev.subrange(0, ev.len() as int) =~= ev);
                assert(item_views(out@) =~= account_entry_leaves_prefix(
                    *acct,
                    cn@,
                    ci as int,
                    s3 as int,
                    a3 as int,
                    k + 1 as int,
                ));
            }
        } else {
            proof {
                assert(item_views(out@) =~= account_entry_leaves_prefix(
                    *acct,
                    cn@,
                    ci as int,
                    s3 as int,
                    a3 as int,
                    k + 1 as int,
                ));
            }
        }
        k += 1;
    }
    out
}

/// Gathers every leaf that belongs under the account node for signer name
/// `nm` and account name `an` beneath chain root `ci`.
fn build_merged_leaves(signers: &Vec<Signer>, cn: &String, nm: &String, an: &String, ci: usize)
    -> (out: Vec<TreeItem>)
    ensures
        item_views(out@) == merged_leaves(signers@, cn@, nm@, an@, ci as int),
{
    let mut out: Vec<TreeItem> = Vec::new();
    let mut s3: usize = 0;
    while s3 < signers.len()
        invariant
            s3 <= signers@.len(),
            item_views(out@) == merged_leaves_prefix(signers@, cn@, nm@, an@, ci as int, s3 as int),
        decreases signers@.len() - s3,
    {
        if signers[s3].name == *nm {
            let s = &signers[s3];
            let mut a3: usize = 0;
            while a3 < s.accounts.len()
                invariant
                    s3 < signers@.len(),
                    s == &signers@[s3 as int],
                    s.name@ == nm@,
                    a3 <= s.accounts@.len(),
                    item_views(out@) == merged_leaves_prefix(
                        signers@,
                        cn@,
                        nm@,
                        an@,
                        ci as int,
                        s3 as int,
                    ) + signer_leaves_prefix(
                        signers@[s3 as int],
                        cn@,
                        an@,
                        ci as int,
                        s3 as int,
                        a3 as int,
                    ),
                decreases s.accounts@.len() - a3,
            {
                if s.accounts[a3].name == *an {
                    let ghost before: Seq<TreeItem> = out@;
                    let mut chunk = build_entry_leaves(&s.accounts[a3], cn, ci, s3, a3);
                    let ghost chunkv: Seq<TreeItem> = chunk@;
                    out.append(&mut chunk);
                    proof {
                        assert(item_views(out@) =~= item_views(before) + item_views(chunkv));
                        assert(item_views(out@) =~= merged_leaves_prefix(
                            signers@,
                            cn@,
                            nm@,
                            an@,
                            ci as int,
                            s3 as int,
                        ) + signer_leaves_prefix(
                            signers@[s3 as int],
                            cn@,
                            an@,
                            ci as int,
                            s3 as int,
                            a3 + 1 as int,
                        ));
                    }
                } else {
                    proof {
                        assert(item_views(out@) =~= merged_leaves_prefix(
                            signers@,
                            cn@,
                            nm@,
                            an@,
                            ci as int,
                            s3 as int,
                        ) + signer_leaves_prefix(
                            signers@[s3 as int],
                            cn@,
                            an@,
                            ci as int,
                            s3 as int,
                            a3 + 1 as int,
                        ));
                    }
                }
                a3 += 1;
            }
            proof {
                assert(item_views(out@) =~= merged_leaves_prefix(
                    signers@,
                    cn@,
                    nm@,
                    an@,
                    ci as int,
                    s3 + 1 as int,
                ));
            }
        } else {
            proof {
                assert(item_views(out@) =~= merged_leaves_prefix(
                    signers@,
                    cn@,
                    nm@,
                    an@,
                    ci as int,
                    s3 + 1 as int,
                ));
            }
        }
        s3 += 1;
    }
    out
}

/// Builds the account node created at walk occurrence `(si, ai)` under
/// chain root `ci`.
fn build_account_node(signers: &Vec<Signer>, cn: &String, ci: usize, si: usize, ai: usize) -> (b:
    Branch3)
    requires
        si < signers@.len(),
        ai < signers@[si as int].accounts@.len(),
    ensures
        b@ == account_node_v(signers@, cn@, ci as int, si as int, ai as int),
{
    let leaves = build_merged_leaves(
        signers,
        cn,
        &signers[si].name,
        &signers[si].accounts[ai].name,
        ci,
    );
    let b = Branch3 {
        item: TreeItem { label: signers[si].accounts[ai].name.clone(), path: path3(ci, si, ai) },
        leaves,
    };
    proof {
        assert(b@ =~= account_node_v(signers@, cn@, ci as int, si as int, ai as int));
    }
    b
}

/// Builds the signer node for the name of signer `si` under chain root
/// `ci`, with one account node per distinct account name in first-seen
/// walk order.
fn build_signer_node(signers: &Vec<Signer>, cn: &String, ci: usize, si: usize) -> (b: Branch2)
    requires
        si < signers@.len(),
    ensures
        b@ == signer_node_v(signers@, cn@, ci as int, si as int),
{
    let mut children: Vec<Branch3> = Vec::new();
    let mut x: usize = 0;
    while x < signers.len()
        invariant
            si < signers@.len(),
            x <= signers@.len(),
            branch3_views(children@) == account_nodes_prefix(
                signers@,
                cn@,
                signers@[si as int].name@,
                ci as int,
                x as int,
            ),
        decreases signers@.len() - x,
    {
        if signers[x].name == signers[si].name {
            let mut a: usize = 0;
            while a < signers[x].accounts.len()
                invariant
                    si < signers@.len(),
                    x < signers@.len(),
                    signers@[x as int].name@ == signers@[si as int].name@,
                    a <= signers@[x as int].accounts@.len(),
                    branch3_views(children@) == account_nodes_prefix(
                        signers@,
                        cn@,
                        signers@[si as int].name@,
                        ci as int,
                        x as int,
                    ) + accounts_within_signer_prefix(signers@, cn@, ci as int, x as int, a as int),
                decreases signers@[x as int].accounts@.len() - a,
            {
                if is_first_account_exec(signers, cn, x, a) {
                    let ghost before: Seq<Branch3> = children@;
                    children.push(build_account_node(signers, cn, ci, x, a));
                    proof {
                        assert(branch3_views(children@) =~= branch3_views(before) + seq![
                            account_node_v(signers@, cn@, ci as int, x as int, a as int),
                        ]);
                        assert(branch3_views(children@) =~= account_nodes_prefix(
                            signers@,
                            cn@,
                            signers@[si as int].name@,
                            ci as int,
                            x as int,
                        ) + accounts_within_signer_prefix(
                            signers@,
                            cn@,
                            ci as int,
                            x as int,
                            a + 1 as int,
                        ));
                    }
                } else {
                    proof {
                        assert(branch3_views(children@) =~= account_nodes_prefix(
                            signers@,
                            cn@,
                            signers@[si as int].name@,
                            ci as int,
                            x as int,
                        ) + accounts_within_signer_prefix(
                            signers@,
                            cn@,
                            ci as int,
                            x as int,
                            a + 1 as int,
                        ));
                    }
                }
                a += 1;
            }
            proof {
                assert(branch3_views(children@) =~= account_nodes_prefix(
                    signers@,
                    cn@,
                    signers@[si as int].name@,
                    ci as int,
                    x + 1 as int,
                ));
            }
        } else {
            proof {
                assert(branch3_views(children@) =~= account_nodes_prefix(
                    signers@,
                    cn@,
                    signers@[si as int].name@,
                    ci as int,
                    x + 1 as int,
                ));
            }
        }
        x += 1;
    }
    let b = Branch2 {
        item: TreeItem { label: signers[si].name.clone(), path: path2(ci, si) },
        children,
    };
    proof {
        assert(b@ =~= signer_node_v(signers@, cn@, ci as int, si as int));
    }
    b
}

/// Builds the chain-rooted projection from the portfolio and its distinct
/// chain name set: one root per distinct chain name, in the order of
/// `chain_names`, each merging every occurrence of that name.
///
/// The name list must cover every chain name occurring in the portfolio,
/// as the derived set always does: an occurrence with no root to hang
/// under is outside this function's domain.
pub fn build_chain_tree(signers: &Vec<Signer>, chain_names: &Vec<String>) -> (t: Tree)
    requires
        crate::names::chain_names_cover(signers@, chain_names@),
    ensures
        t@ == chain_tree_v(signers@, chain_names@),
{
    let mut roots: Vec<Branch1> = Vec::new();
    let mut ci: usize = 0;
    while ci < chain_names.len()
        invariant
            ci <= chain_names@.len(),
            roots@.len() == ci,
            forall|x: int|
                0 <= x < ci ==> (#[trigger] roots@[x])@ == chain_root_v(signers@, chain_names@, x),
        decreases chain_names@.len() - ci,
    {
        let cn = &chain_names[ci];
        let mut owners: Vec<Branch2> = Vec::new();
        let mut si: usize = 0;
        while si < signers.len()
            invariant
                ci < chain_names@.len(),
                cn == &chain_names@[ci as int],
                si <= signers@.len(),
                branch2_views(owners@) == owners_prefix(signers@, cn@, ci as int, si as int),
            decreases signers@.len() - si,
        {
            if is_first_owner_exec(signers, cn, si) {
                let ghost before: Seq<Branch2> = owners@;
                owners.push(build_signer_node(signers, cn, ci, si));
                proof {
                    assert(branch2_views(owners@) =~= branch2_views(before) + seq![
                        signer_node_v(signers@, cn@, ci as int, si as int),
                    ]);
                    assert(branch2_views(owners@) =~= owners_prefix(
                        signers@,
                        cn@,
                        ci as int,
                        si + 1 as int,
                    ));
                }
            } else {
                proof {
                    assert(branch2_views(owners@) =~= owners_prefix(
                        signers@,
                        cn@,
                        ci as int,
                        si + 1 as int,
                    ));
                }
            }
            si += 1;
        }
        roots.push(Branch1 { item: TreeItem { label: cn.clone(), path: path1(ci) }, children: owners });
        proof {
            assert(roots@[ci as int]@ =~= chain_root_v(signers@, chain_names@, ci as int));
        }
        ci += 1;
    }
    let t = Tree { roots };
    proof {
        assert(t@ =~= chain_tree_v(signers@, chain_names@));
    }
    t
}

} // verus!
