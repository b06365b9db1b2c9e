//! The detail resolver: given a display row of a freshly built projection,
//! it returns the selected node's path together with a description string
//! reconstructed from the path alone. Any index that does not resolve
//! against the current model yields an empty description rather than a
//! failure.

use vstd::prelude::*;
use crate::model::Signer;
use crate::tree::{ItemV, flat_tree, copy_path};
use crate::signer_tree::{signer_tree_v, build_tree};
use crate::chain_tree::{chain_tree_v, build_chain_tree};

verus! {

/// A four-index path resolves against the model: each index lands inside
/// the array chosen by the indices before it.
pub open spec fn valid_asset_path(m: Seq<Signer>, p: Seq<usize>) -> bool {
    &&& p.len() == 4
    &&& (p[0] as int) < m.len()
    &&& (p[1] as int) < m[p[0] as int].accounts@.len()
    &&& (p[2] as int) < m[p[0] as int].accounts@[p[1] as int].chains@.len()
    &&& (p[3] as int) < m[p[0] as int].accounts@[p[1] as int].chains@[p[2] as int].assets@.len()
}

/// The description shown for one item of the signer-rooted projection,
/// keyed by the length of its path.
pub open spec fn signer_item_detail(m: Seq<Signer>, it: ItemV) -> Seq<char> {
    if it.path.len() == 1 {
        "Signer: "@ + it.label
    } else if it.path.len() == 2 {
        "Account: "@ + it.label
    } else if it.path.len() == 3 {
        "Chain: "@ + it.label
    } else if it.path.len() == 4 {
        if valid_asset_path(m, it.path) {
            let a =
                m[it.path[0] as int].accounts@[it.path[1] as int].chains@[it.path[2] as int]
                .assets@[it.path[3] as int];
            "Asset: "@ + a.name@ + ", Amount: "@ + a.amount@
        } else {
            Seq::empty()
        }
    } else {
        Seq::empty()
    }
}

/// The description and path reported for display row `row` of the
/// signer-rooted projection; a row beyond the tree yields empties.
pub open spec fn signer_row_result(m: Seq<Signer>, row: int) -> (Seq<char>, Seq<usize>) {
    let flat = flat_tree(signer_tree_v(m));
    if 0 <= row < flat.len() {
        (signer_item_detail(m, flat[row]), flat[row].path)
    } else {
        (Seq::<char>::empty(), Seq::<usize>::empty())
    }
}

/// The description shown for one item of the chain-rooted projection,
/// keyed by the length of its path. A four-index path has no meaning in
/// this projection and yields no description.
pub open spec fn chain_item_detail(m: Seq<Signer>, names: Seq<String>, it: ItemV) -> Seq<char> {
    let p = it.path;
    if p.len() == 1 {
        if (p[0] as int) < names.len() {
            "Chain: "@ + names[p[0] as int]@
        } else {
            Seq::empty()
        }
    } else if p.len() == 2 {
        if (p[0] as int) < names.len() && (p[1] as int) < m.len() {
            "Signer: "@ + m[p[1] as int].name@ + " on chain "@ + names[p[0] as int]@
        } else {
            Seq::empty()
        }
    } else if p.len() == 3 {
        if (p[0] as int) < names.len() && (p[1] as int) < m.len() && (p[2] as int) < m[p[1] as int]
            .accounts@.len() {
            "Account: "@ + m[p[1] as int].accounts@[p[2] as int].name@ + " of signer "@
                + m[p[1] as int].name@ + " on chain "@ + names[p[0] as int]@
        } else {
            Seq::empty()
        }
    } else if p.len() == 5 {
        if (p[1] as int) < m.len() && (p[2] as int) < m[p[1] as int].accounts@.len() && (
        p[3] as int) < m[p[1] as int].accounts@[p[2] as int].chains@.len() && (p[4] as int)
            < m[p[1] as int].accounts@[p[2] as int].chains@[p[3] as int].assets@.len() {
            let s = m[p[1] as int];
            let acct = s.accounts@[p[2] as int];
            let c = acct.chains@[p[3] as int];
            let a = c.assets@[p[4] as int];
            "Asset: "@ + a.name@ + "\nAmount: "@ + a.amount@ + "\nChain: "@ + c.name@
                + "\nAccount: "@ + acct.name@ + "\nSigner: "@ + s.name@
        } else {
            Seq::empty()
        }
    } else {
        Seq::empty()
    }
}

/// The description and path reported for display row `row` of the
/// chain-rooted projection; a row beyond the tree yields empties.
pub open spec fn chain_row_result(m: Seq<Signer>, names: Seq<String>, row: int) -> (
    Seq<char>,
    Seq<usize>,
) {
    let flat = flat_tree(chain_tree_v(m, names));
    if 0 <= row < flat.len() {
        (chain_item_detail(m, names, flat[row]), flat[row].path)
    } else {
        (Seq::<char>::empty(), Seq::<usize>::empty())
    }
}

/// Resolves display row `row` of a freshly built signer-rooted projection
/// to its description string and path.
pub fn get_details_signer_based(signers: &Vec<Signer>, row: usize) -> (r: (String, Vec<usize>))
    ensures
        r.0@ == signer_row_result(signers@, row as int).0,
        r.1@ == signer_row_result(signers@, row as int).1,
{
    let t = build_tree(signers);
    let items = crate::tree::flatten(&t);
    if row >= items.len() {
        return (String::new(), Vec::new());
    }
    proof {
        assert(items@[row as int]@ == flat_tree(signer_tree_v(signers@))[row as int]);
    }
    let it = &items[row];
    let path = copy_path(&it.path);
    if path.len() == 1 {
        let mut d = String::from_str("Signer: ");
        d.append(it.label.as_str());
        (d, path)
    } else if path.len() == 2 {
        let mut d = String::from_str("Account: ");
        d.append(it.label.as_str());
        (d, path)
    } else if path.len() == 3 {
        let mut d = String::from_str("Chain: ");
        d.append(it.label.as_str());
        (d, path)
    } else if path.len() == 4 {
        if path[0] < signers.len() {
            let signer = &signers[path[0]];
            if path[1] < signer.accounts.len() {
                let account = &signer.accounts[path[1]];
                if path[2] < account.chains.len() {
                    let chain = &account.chains[path[2]];
                    if path[3] < chain.assets.len() {
                        let asset = &chain.assets[path[3]];
                        let mut d = String::from_str("Asset: ");
                        d.append(asset.name.as_str());
                        d.append(", Amount: ");
                        d.append(asset.amount.as_str());
                        return (d, path);
                    }
                }
            }
        }
        (String::new(), path)
    } else {
        (String::new(), path)
    }
}

/// Resolves display row `row` of a freshly built chain-rooted projection
/// to its description string and path. As for the builder itself, the
/// name list must cover every chain name occurring in the portfolio.
pub fn get_details_chain_based(signers: &Vec<Signer>, chain_names: &Vec<String>, row: usize) -> (r:
    (String, Vec<usize>))
    requires
        crate::names::chain_names_cover(signers@, chain_names@),
    ensures
        r.0@ == chain_row_result(signers@, chain_names@, row as int).0,
        r.1@ == chain_row_result(signers@, chain_names@, row as int).1,
{
    let t = build_chain_tree(signers, chain_names);
    let items = crate::tree::flatten(&t);
    if row >= items.len() {
        return (String::new(), Vec::new());
    }
    proof {
        assert(items@[row as int]@ == flat_tree(chain_tree_v(signers@, chain_names@))[row as int]);
    }
    let it = &items[row];
    let path = copy_path(&it.path);
    if path.len() == 1 {
        if path[0] < chain_names.len() {
            let mut d = String::from_str("Chain: ");
            d.append(chain_names[path[0]].as_str());
            return (d, path);
        }
        (String::new(), path)
    } else if path.len() == 2 {
        if path[0] < chain_names.len() && path[1] < signers.len() {
            let mut d = String::from_str("Signer: ");
            d.append(signers[path[1]].name.as_str());
            d.append(" on chain ");
            d.append(chain_names[path[0]].as_str());
            return (d, path);
        }
        (String::new(), path)
    } else if path.len() == 3 {
        if path[0] < chain_names.len() && path[1] < signers.len() {
            let signer = &signers[path[1]];
            if path[2] < signer.accounts.len() {
                let mut d = String::from_str("Account: ");
                d.append(signer.accounts[path[2]].name.as_str());
                d.append(" of signer ");
                d.append(signer.name.as_str());
                d.append(" on chain ");
                d.append(chain_names[path[0]].as_str());
                return (d, path);
            }
        }
        (String::new(), path)
    } else if path.len() == 5 {
        if path[1] < signers.len() {
            let signer = &signers[path[1]];
            if path[2] < signer.accounts.len() {
                let account = &signer.accounts[path[2]];
                if path[3] < account.chains.len() {
                    let chain = &account.chains[path[3]];
                    if path[4] < chain.assets.len() {
                        let asset = &chain.assets[path[4]];
                        let mut d = String::from_str("Asset: ");
                        d.append(asset.name.as_str());
                        d.append("\nAmount: ");
                        d.append(asset.amount.as_str());
                        d.append("\nChain: ");
                        d.append(chain.name.as_str());
                        d.append("\nAccount: ");
                        d.append(account.name.as_str());
                        d.append("\nSigner: ");
                        d.append(signer.name.as_str());
                        return (d, path);
                    }
                }
            }
        }
        (String::new(), path)
    } else {
        (String::new(), path)
    }
}

} // verus!
