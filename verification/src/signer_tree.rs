//! The signer-rooted projection: a four-level forest (signer -> account ->
//! chain -> asset) in which every node's path equals its position in the
//! source arrays.

use vstd::prelude::*;
use crate::model::{Asset, Chain, Account, Signer};
use crate::tree::{TreeItem, ItemV, Branch3, Branch2, Branch1, Tree, Branch3V, Branch2V, Branch1V,
    TreeV};

verus! {

/// The display label of an asset: its name, a separator, and the rendering
/// of its amount.
pub open spec fn asset_label(a: Asset) -> Seq<char> {
    a.name@ + ": "@ + a.amount@
}

/// The leaf for asset `l` of chain `k` of account `j` of signer `i`.
pub open spec fn asset_leaf_v(a: Asset, i: int, j: int, k: int, l: int) -> ItemV {
    ItemV {
        label: asset_label(a),
        path: seq![i as usize, j as usize, k as usize, l as usize],
    }
}

/// The subtree for chain `k` of account `j` of signer `i`.
pub open spec fn chain_branch_v(c: Chain, i: int, j: int, k: int) -> Branch3V {
    Branch3V {
        item: ItemV { label: c.name@, path: seq![i as usize, j as usize, k as usize] },
        leaves: Seq::new(c.assets@.len(), |l: int| asset_leaf_v(c.assets@[l], i, j, k, l)),
    }
}

/// The subtree for account `j` of signer `i`.
pub open spec fn account_branch_v(a: Account, i: int, j: int) -> Branch2V {
    Branch2V {
        item: ItemV { label: a.name@, path: seq![i as usize, j as usize] },
        children: Seq::new(a.chains@.len(), |k: int| chain_branch_v(a.chains@[k], i, j, k)),
    }
}

/// The subtree for signer `i`.
pub open spec fn signer_branch_v(s: Signer, i: int) -> Branch1V {
    Branch1V {
        item: ItemV { label: s.name@, path: seq![i as usize] },
        children: Seq::new(s.accounts@.len(), |j: int| account_branch_v(s.accounts@[j], i, j)),
    }
}

/// The whole signer-rooted projection of the portfolio: one root per
/// signer, in the original array order.
pub open spec fn signer_tree_v(m: Seq<Signer>) -> TreeV {
    TreeV { roots: Seq::new(m.len(), |i: int| signer_branch_v(m[i], i)) }
}

/// Builds a one-index path.
pub fn path1(i: usize) -> (p: Vec<usize>)
    ensures
        p@ == seq![i],
{
    let mut p: Vec<usize> = Vec::new();
    p.push(i);
    proof {
        assert(p@ =~= seq![i]);
    }
    p
}

/// Builds a two-index path.
pub fn path2(i: usize, j: usize) -> (p: Vec<usize>)
    ensures
        p@ == seq![i, j],
{
    let mut p = path1(i);
    p.push(j);
    proof {
        assert(p@ =~= seq![i, j]);
    }
    p
}

/// Builds a three-index path.
pub fn path3(i: usize, j: usize, k: usize) -> (p: Vec<usize>)
    ensures
        p@ == seq![i, j, k],
{
    let mut p = path2(i, j);
    p.push(k);
    proof {
        assert(p@ =~= seq![i, j, k]);
    }
    p
}

/// Builds a four-index path.
pub fn path4(i: usize, j: usize, k: usize, l: usize) -> (p: Vec<usize>)
    ensures
        p@ == seq![i, j, k, l],
{
    let mut p = path3(i, j, k);
    p.push(l);
    proof {
        assert(p@ =~= seq![i, j, k, l]);
    }
    p
}

/// Builds a five-index path.
pub fn path5(i: usize, j: usize, k: usize, l: usize, n: usize) -> (p: Vec<usize>)
    ensures
        p@ == seq![i, j, k, l, n],
{
    let mut p = path4(i, j, k, l);
    p.push(n);
    proof {
        assert(p@ =~= seq![i, j, k, l, n]);
    }
    p
}

/// Renders the display label of an asset.
pub fn make_asset_label(a: &Asset) -> (s: String)
    ensures
        s@ == asset_label(*a),
{
    let mut s = a.name.clone();
    s.append(": ");
    s.append(a.amount.as_str());
    s
}

/// Builds the leaf for one asset of the signer-rooted projection.
fn build_asset_leaf(a: &Asset, i: usize, j: usize, k: usize, l: usize) -> (r: TreeItem)
    ensures
        r@ == asset_leaf_v(*a, i as int, j as int, k as int, l as int),
{
    let r = TreeItem { label: make_asset_label(a), path: path4(i, j, k, l) };
    proof {
        assert(r@ =~= asset_leaf_v(*a, i as int, j as int, k as int, l as int));
    }
    r
}

/// Builds the subtree for one chain entry of the signer-rooted projection.
fn build_chain_branch(c: &Chain, i: usize, j: usize, k: usize) -> (b: Branch3)
    ensures
        b@ == chain_branch_v(*c, i as int, j as int, k as int),
{
    let mut leaves: Vec<TreeItem> = Vec::new();
    let mut l: usize = 0;
    while l < c.assets.len()
        invariant
            l <= c.assets@.len(),
            leaves@.len() == l,
            forall|x: int|
                0 <= x < l ==> (#[trigger] leaves@[x])@ == asset_leaf_v(
                    c.assets@[x],
                    i as int,
                    j as int,
                    k as int,
                    x,
                ),
        decreases c.assets@.len() - l,
    {
        leaves.push(build_asset_leaf(&c.assets[l], i, j, k, l));
        l += 1;
    }
    let b = Branch3 { item: TreeItem { label: c.name.clone(), path: path3(i, j, k) }, leaves };
    proof {
        assert(b@ =~= chain_branch_v(*c, i as int, j as int, k as int));
    }
    b
}

/// Builds the subtree for one account of the signer-rooted projection.
fn build_account_branch(a: &Account, i: usize, j: usize) -> (b: Branch2)
    ensures
        b@ == account_branch_v(*a, i as int, j as int),
{
    let mut children: Vec<Branch3> = Vec::new();
    let mut k: usize = 0;
    while k < a.chains.len()
        invariant
            k <= a.chains@.len(),
            children@.len() == k,
            forall|x: int|
                0 <= x < k ==> (#[trigger] children@[x])@ == chain_branch_v(
                    a.chains@[x],
                    i as int,
                    j as int,
                    x,
                ),
        decreases a.chains@.len() - k,
    {
        children.push(build_chain_branch(&a.chains[k], i, j, k));
        k += 1;
    }
    let b = Branch2 { item: TreeItem { label: a.name.clone(), path: path2(i, j) }, children };
    proof {
        assert(b@ =~= account_branch_v(*a, i as int, j as int));
    }
    b
}

/// Builds the subtree for one signer of the signer-rooted projection.
fn build_signer_branch(s: &Signer, i: usize) -> (b: Branch1)
    ensures
        b@ == signer_branch_v(*s, i as int),
{
    let mut children: Vec<Branch2> = Vec::new();
    let mut j: usize = 0;
    while j < s.accounts.len()
        invariant
            j <= s.accounts@.len(),
            children@.len() == j,
            forall|x: int|
                0 <= x < j ==> (#[trigger] children@[x])@ == account_branch_v(
                    s.accounts@[x],
                    i as int,
                    x,
                ),
        decreases s.accounts@.len() - j,
    {
        children.push(build_account_branch(&s.accounts[j], i, j));
        j += 1;
    }
    let b = Branch1 { item: TreeItem { label: s.name.clone(), path: path1(i) }, children };
    proof {
        assert(b@ =~= signer_branch_v(*s, i as int));
    }
    b
}

/// Builds the signer-rooted projection: exactly one node per signer,
/// account, chain and asset of the model, each addressed by the path of its
/// positions in the source arrays.
pub fn build_tree(signers: &Vec<Signer>) -> (t: Tree)
    ensures
        t@ == signer_tree_v(signers@),
{
    let mut roots: Vec<Branch1> = Vec::new();
    let mut i: usize = 0;
    while i < signers.len()
        invariant
            i <= signers@.len(),
            roots@.len() == i,
            forall|x: int|
                0 <= x < i ==> (#[trigger] roots@[x])@ == signer_branch_v(signers@[x], x),
        decreases signers@.len() - i,
    {
        roots.push(build_signer_branch(&signers[i], i));
        i += 1;
    }
    let t = Tree { roots };
    proof {
        assert(t@ =~= signer_tree_v(signers@));
    }
    t
}

} // verus!
