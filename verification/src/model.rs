//! The portfolio model: an immutable four-level ownership hierarchy
//! (signer -> account -> chain -> asset), plus the spec-level predicates
//! that describe where a chain name occurs inside it.
//!
//! Asset amounts are carried as their decimal rendering: the projection
//! layer never computes with an amount, it only embeds it in labels.

use vstd::prelude::*;

verus! {

/// A leaf holding: an asset name and the decimal rendering of its amount.
pub struct Asset {
    pub name: String,
    pub amount: String,
}

/// A chain entry owned by one account; chain names may recur across the
/// portfolio.
pub struct Chain {
    pub name: String,
    pub assets: Vec<Asset>,
}

/// An account owned by one signer.
pub struct Account {
    pub name: String,
    pub chains: Vec<Chain>,
}

/// A top-level owner; a portfolio is an ordered sequence of signers.
pub struct Signer {
    pub name: String,
    pub accounts: Vec<Account>,
}

/// The account holds some chain entry named `cn`.
pub open spec fn account_has_chain(a: Account, cn: Seq<char>) -> bool {
    exists|k: int| 0 <= k < a.chains@.len() && (#[trigger] a.chains@[k]).name@ == cn
}

/// Some account of the signer holds a chain entry named `cn`.
pub open spec fn signer_has_chain(s: Signer, cn: Seq<char>) -> bool {
    exists|j: int| 0 <= j < s.accounts@.len() && account_has_chain(#[trigger] s.accounts@[j], cn)
}

/// Some signer of the portfolio holds a chain entry named `cn`.
pub open spec fn model_has_chain_name(m: Seq<Signer>, cn: Seq<char>) -> bool {
    exists|i: int| 0 <= i < m.len() && signer_has_chain(#[trigger] m[i], cn)
}

/// Decides whether the account holds a chain entry named `cn`.
pub fn account_holds_chain(a: &Account, cn: &String) -> (r: bool)
    ensures
        r == account_has_chain(*a, cn@),
{
    let mut k: usize = 0;
    while k < a.chains.len()
        invariant
            k <= a.chains@.len(),
            forall|x: int| 0 <= x < k ==> (#[trigger] a.chains@[x]).name@ != cn@,
        decreases a.chains@.len() - k,
    {
        if a.chains[k].name == *cn {
            return true;
        }
        k += 1;
    }
    false
}

/// Decides whether some account of the signer holds a chain entry named `cn`.
pub fn signer_holds_chain(s: &Signer, cn: &String) -> (r: bool)
    ensures
        r == signer_has_chain(*s, cn@),
{
    let mut j: usize = 0;
    while j < s.accounts.len()
        invariant
            j <= s.accounts@.len(),
            forall|x: int| 0 <= x < j ==> !account_has_chain(#[trigger] s.accounts@[x], cn@),
        decreases s.accounts@.len() - j,
    {
        if account_holds_chain(&s.accounts[j], cn) {
            return true;
        }
        j += 1;
    }
    false
}

} // verus!
