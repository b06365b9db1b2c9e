//! The laws of the projection layer, each proved once and for all: path
//! resolution never fails on freshly built signer-projection paths, the
//! signer projection is a faithful round trip of the model, the chain
//! projection never duplicates a signer name under one chain, both root
//! orders are as stated, and rebuilding a projection is idempotent.

use vstd::prelude::*;
use crate::model::Signer;
use crate::order::lex_lt;
use crate::tree::{Tree, flat_tree, flat_level1, flat_level1_prefix, flat_level2,
    flat_level2_prefix, flat_level3, flat_level3_prefix};
use crate::signer_tree::{signer_tree_v, signer_branch_v, account_branch_v, chain_branch_v,
    asset_label};
use crate::chain_tree::{chain_tree_v, owners_prefix, signer_node_v, is_first_owner};

verus! {

/// Every array of the model is small enough to be indexed by `usize`; any
/// model actually held in memory satisfies this.
pub open spec fn model_fits(m: Seq<Signer>) -> bool {
    &&& m.len() <= usize::MAX
    &&& forall|i: int| 0 <= i < m.len() ==> (#[trigger] m[i]).accounts@.len() <= usize::MAX
    &&& forall|i: int, j: int|
        0 <= i < m.len() && 0 <= j < m[i].accounts@.len() ==> (#[trigger] m[i].accounts@[j])
            .chains@.len() <= usize::MAX
    &&& forall|i: int, j: int, k: int|
        0 <= i < m.len() && 0 <= j < m[i].accounts@.len() && 0 <= k
            < m[i].accounts@[j].chains@.len() ==> (#[trigger] m[i].accounts@[j].chains@[k])
            .assets@.len() <= usize::MAX
}

/// A signer-projection path resolves against the model: every index lands
/// inside the array chosen by the indices before it.
pub open spec fn signer_path_resolves(m: Seq<Signer>, p: Seq<usize>) -> bool {
    &&& 1 <= p.len() <= 4
    &&& (p[0] as int) < m.len()
    &&& (p.len() >= 2 ==> (p[1] as int) < m[p[0] as int].accounts@.len())
    &&& (p.len() >= 3 ==> (p[2] as int) < m[p[0] as int].accounts@[p[1] as int].chains@.len())
    &&& (p.len() == 4 ==> (p[3] as int) < m[p[0] as int].accounts@[p[1] as int].chains@[p[2] as int]
        .assets@.len())
}

proof fn lemma_flat3_resolves(m: Seq<Signer>, i: int, j: int, k: int, idx: int)
    requires
        model_fits(m),
        0 <= i < m.len(),
        0 <= j < m[i].accounts@.len(),
        0 <= k < m[i].accounts@[j].chains@.len(),
        0 <= idx < flat_level3(chain_branch_v(m[i].accounts@[j].chains@[k], i, j, k)).len(),
    ensures
        signer_path_resolves(
            m,
            flat_level3(chain_branch_v(m[i].accounts@[j].chains@[k], i, j, k))[idx].path,
        ),
{
    let c = m[i].accounts@[j].chains@[k];
    let f = flat_level3(chain_branch_v(c, i, j, k));
    if idx == 0 {
        assert(f[0] == chain_branch_v(c, i, j, k).item);
    } else {
        assert(f[idx] == chain_branch_v(c, i, j, k).leaves[idx - 1]);
    }
}

proof fn lemma_flat3_prefix_resolves(m: Seq<Signer>, i: int, j: int, n: int, idx: int)
    requires
        model_fits(m),
        0 <= i < m.len(),
        0 <= j < m[i].accounts@.len(),
        0 <= n <= m[i].accounts@[j].chains@.len(),
        0 <= idx < flat_level3_prefix(account_branch_v(m[i].accounts@[j], i, j).children, n).len(),
    ensures
        signer_path_resolves(
            m,
            flat_level3_prefix(account_branch_v(m[i].accounts@[j], i, j).children, n)[idx].path,
        ),
    decreases n,
{
    let ch = account_branch_v(m[i].accounts@[j], i, j).children;
    let prev = flat_level3_prefix(ch, n - 1);
    if idx < prev.len() {
        lemma_flat3_prefix_resolves(m, i, j, n - 1, idx);
    } else {
        assert(ch[n - 1] == chain_branch_v(m[i].accounts@[j].chains@[n - 1], i, j, n - 1));
        lemma_flat3_resolves(m, i, j, n - 1, idx - prev.len());
        assert(flat_level3_prefix(ch, n)[idx] == flat_level3(ch[n - 1])[idx - prev.len()]);
    }
}

proof fn lemma_flat2_resolves(m: Seq<Signer>, i: int, j: int, idx: int)
    requires
        model_fits(m),
        0 <= i < m.len(),
        0 <= j < m[i].accounts@.len(),
        0 <= idx < flat_level2(account_branch_v(m[i].accounts@[j], i, j)).len(),
    ensures
        signer_path_resolves(m, flat_level2(account_branch_v(m[i].accounts@[j], i, j))[idx].path),
{
    let b = account_branch_v(m[i].accounts@[j], i, j);
    if idx == 0 {
        assert(flat_level2(b)[0] == b.item);
    } else {
        lemma_flat3_prefix_resolves(m, i, j, b.children.len() as int, idx - 1);
        assert(flat_level2(b)[idx] == flat_level3_prefix(b.children, b.children.len() as int)[idx
            - 1]);
    }
}

proof fn lemma_flat2_prefix_resolves(m: Seq<Signer>, i: int, n: int, idx: int)
    requires
        model_fits(m),
        0 <= i < m.len(),
        0 <= n <= m[i].accounts@.len(),
        0 <= idx < flat_level2_prefix(signer_branch_v(m[i], i).children, n).len(),
    ensures
        signer_path_resolves(m, flat_level2_prefix(signer_branch_v(m[i], i).children, n)[idx].path),
    decreases n,
{
    let ch = signer_branch_v(m[i], i).children;
    let prev = flat_level2_prefix(ch, n - 1);
    if idx < prev.len() {
        lemma_flat2_prefix_resolves(m, i, n - 1, idx);
    } else {
        assert(ch[n - 1] == account_branch_v(m[i].accounts@[n - 1], i, n - 1));
        lemma_flat2_resolves(m, i, n - 1, idx - prev.len());
        assert(flat_level2_prefix(ch, n)[idx] == flat_level2(ch[n - 1])[idx - prev.len()]);
    }
}

proof fn lemma_flat1_resolves(m: Seq<Signer>, i: int, idx: int)
    requires
        model_fits(m),
        0 <= i < m.len(),
        0 <= idx < flat_level1(signer_branch_v(m[i], i)).len(),
    ensures
        signer_path_resolves(m, flat_level1(signer_branch_v(m[i], i))[idx].path),
{
    let b = signer_branch_v(m[i], i);
    if idx == 0 {
        assert(flat_level1(b)[0] == b.item);
    } else {
        lemma_flat2_prefix_resolves(m, i, b.children.len() as int, idx - 1);
        assert(flat_level1(b)[idx] == flat_level2_prefix(b.children, b.children.len() as int)[idx
            - 1]);
    }
}

proof fn lemma_flat1_prefix_resolves(m: Seq<Signer>, n: int, idx: int)
    requires
        model_fits(m),
        0 <= n <= m.len(),
        0 <= idx < flat_level1_prefix(signer_tree_v(m).roots, n).len(),
    ensures
        signer_path_resolves(m, flat_level1_prefix(signer_tree_v(m).roots, n)[idx].path),
    decreases n,
{
    let ch = signer_tree_v(m).roots;
    let prev = flat_level1_prefix(ch, n - 1);
    if idx < prev.len() {
        lemma_flat1_prefix_resolves(m, n - 1, idx);
    } else {
        assert(ch[n - 1] == signer_branch_v(m[n - 1], n - 1));
        lemma_flat1_resolves(m, n - 1, idx - prev.len());
        assert(flat_level1_prefix(ch, n)[idx] == flat_level1(ch[n - 1])[idx - prev.len()]);
    }
}

/// Path resolution never fails on the signer projection: every row of the
/// freshly built tree carries a path whose every index resolves against
/// the model the tree was built from.
pub proof fn lemma_signer_paths_resolve(m: Seq<Signer>, row: int)
    requires
        model_fits(m),
        0 <= row < flat_tree(signer_tree_v(m)).len(),
    ensures
        signer_path_resolves(m, flat_tree(signer_tree_v(m))[row].path),
{
    lemma_flat1_prefix_resolves(m, m.len() as int, row);
}

/// Whenever a freshly built signer-projection row carries a four-index
/// path, the detail resolver's model lookup succeeds: the defensive
/// "no detail" fallback is unreachable for such rows.
pub proof fn lemma_signer_leaf_details_resolve(m: Seq<Signer>, row: int)
    requires
        model_fits(m),
        0 <= row < flat_tree(signer_tree_v(m)).len(),
        flat_tree(signer_tree_v(m))[row].path.len() == 4,
    ensures
        crate::details::valid_asset_path(m, flat_tree(signer_tree_v(m))[row].path),
{
    lemma_signer_paths_resolve(m, row);
}

/// Round trip: every (signer, account, chain, asset) quadruple of the
/// model appears in the signer projection as a leaf whose label encodes
/// the asset's name and amount, addressed exactly by the quadruple's
/// indices.
pub proof fn lemma_signer_round_trip(m: Seq<Signer>, i: int, j: int, k: int, l: int)
    requires
        0 <= i < m.len(),
        0 <= j < m[i].accounts@.len(),
        0 <= k < m[i].accounts@[j].chains@.len(),
        0 <= l < m[i].accounts@[j].chains@[k].assets@.len(),
    ensures
        ({
            let leaf = signer_tree_v(m).roots[i].children[j].children[k].leaves[l];
            &&& leaf.label == asset_label(m[i].accounts@[j].chains@[k].assets@[l])
            &&& leaf.path == seq![i as usize, j as usize, k as usize, l as usize]
        }),
{
    assert(signer_tree_v(m).roots[i] == signer_branch_v(m[i], i));
    assert(signer_branch_v(m[i], i).children[j] == account_branch_v(m[i].accounts@[j], i, j));
    assert(account_branch_v(m[i].accounts@[j], i, j).children[k] == chain_branch_v(
        m[i].accounts@[j].chains@[k],
        i,
        j,
        k,
    ));
}

/// Every signer node under a chain root stems from the first signer in
/// walk order bearing its name and owning the chain.
proof fn lemma_owners_member(m: Seq<Signer>, cn: Seq<char>, ci: int, n: int, idx: int)
    requires
        0 <= n <= m.len(),
        0 <= idx < owners_prefix(m, cn, ci, n).len(),
    ensures
        exists|si: int|
            0 <= si < n && is_first_owner(m, cn, si) && owners_prefix(m, cn, ci, n)[idx]
                == signer_node_v(m, cn, ci, si),
    decreases n,
{
    let prev = owners_prefix(m, cn, ci, n - 1);
    if idx < prev.len() {
        lemma_owners_member(m, cn, ci, n - 1, idx);
        let si = choose|si: int|
            0 <= si < n - 1 && is_first_owner(m, cn, si) && prev[idx] == signer_node_v(
                m,
                cn,
                ci,
                si,
            );
        assert(owners_prefix(m, cn, ci, n)[idx] == prev[idx]);
        assert(0 <= si < n && is_first_owner(m, cn, si) && owners_prefix(m, cn, ci, n)[idx]
            == signer_node_v(m, cn, ci, si));
    } else {
        assert(is_first_owner(m, cn, n - 1));
        assert(owners_prefix(m, cn, ci, n)[idx] == signer_node_v(m, cn, ci, n - 1));
        assert(0 <= n - 1 < n && is_first_owner(m, cn, n - 1) && owners_prefix(m, cn, ci, n)[idx]
            == signer_node_v(m, cn, ci, n - 1));
    }
}

/// Dedup invariant: beneath one chain root, no two signer nodes bear the
/// same name, however many accounts or chain entries repeat the chain
/// under that signer.
pub proof fn lemma_chain_dedup(m: Seq<Signer>, cn: Seq<char>, ci: int, i1: int, i2: int)
    requires
        0 <= i1 < i2 < owners_prefix(m, cn, ci, m.len() as int).len(),
    ensures
        owners_prefix(m, cn, ci, m.len() as int)[i1].item.label != owners_prefix(
            m,
            cn,
            ci,
            m.len() as int,
        )[i2].item.label,
{
    lemma_owners_distinct(m, cn, ci, m.len() as int);
}

/// Distinctness of signer-node labels, by induction over the walk.
proof fn lemma_owners_distinct(m: Seq<Signer>, cn: Seq<char>, ci: int, n: int)
    requires
        0 <= n <= m.len(),
    ensures
        forall|i1: int, i2: int|
            0 <= i1 < i2 < owners_prefix(m, cn, ci, n).len() ==> (#[trigger] owners_prefix(
                m,
                cn,
                ci,
                n,
            )[i1]).item.label != (#[trigger] owners_prefix(m, cn, ci, n)[i2]).item.label,
    decreases n,
{
    if n > 0 {
        lemma_owners_distinct(m, cn, ci, n - 1);
        let prev = owners_prefix(m, cn, ci, n - 1);
        let cur = owners_prefix(m, cn, ci, n);
        assert forall|i1: int, i2: int| 0 <= i1 < i2 < cur.len() implies (
        #[trigger] cur[i1]).item.label != (#[trigger] cur[i2]).item.label by {
            if i2 < prev.len() {
                assert(cur[i1] == prev[i1] && cur[i2] == prev[i2]);
            } else {
                assert(is_first_owner(m, cn, n - 1));
                assert(cur[i2] == signer_node_v(m, cn, ci, n - 1));
                assert(cur[i1] == prev[i1]);
                lemma_owners_member(m, cn, ci, n - 1, i1);
                let si = choose|si: int|
                    0 <= si < n - 1 && is_first_owner(m, cn, si) && prev[i1] == signer_node_v(
                        m,
                        cn,
                        ci,
                        si,
                    );
                assert(cur[i1].item.label == m[si].name@);
                assert(cur[i2].item.label == m[n - 1].name@);
                if m[si].name@ == m[n - 1].name@ {
                    assert(crate::model::signer_has_chain(m[si], cn));
                    assert(!crate::model::signer_has_chain(m[si], cn));
                }
            }
        }
    }
}

/// Sort invariant, chain projection: the root labels of the chain-rooted
/// projection ascend strictly in lexicographic order whenever the distinct
/// chain name set is strictly sorted, as the session always keeps it.
pub proof fn lemma_chain_roots_sorted(m: Seq<Signer>, names: Seq<String>, ci: int)
    requires
        crate::names::strictly_sorted_names(names),
        0 <= ci,
        ci + 1 < names.len(),
    ensures
        lex_lt(
            chain_tree_v(m, names).roots[ci].item.label,
            chain_tree_v(m, names).roots[ci + 1].item.label,
        ),
{
}

/// Sort invariant, signer projection: root `i` is signer `i` of the
/// model, so the root level preserves the original signer array order.
pub proof fn lemma_signer_roots_order(m: Seq<Signer>, i: int)
    requires
        0 <= i < m.len(),
    ensures
        signer_tree_v(m).roots[i].item.label == m[i].name@,
        signer_tree_v(m).roots[i].item.path == seq![i as usize],
{
}

/// Toggling the view clears the selected path and flips only the
/// projection kind, whatever was selected before; records, name set and
/// well-formedness are untouched. The placeholder text shown while
/// nothing is selected is fixed by the `ensures` of `switch_view` itself.
pub proof fn lemma_toggle_clears_selection(st: crate::session::SystemState)
    ensures
        crate::session::switched(st).selected_path is None,
        crate::session::switched(st).view_mode == crate::session::flipped(st.view_mode),
        crate::session::switched(st).signers == st.signers,
        crate::session::switched(st).chain_names == st.chain_names,
        st.wf() ==> crate::session::switched(st).wf(),
{
}

/// The distinct chain name set is derived, never authoritative: any two
/// well-formed sessions over the same records carry the same sorted name
/// list, entry for entry.
pub proof fn lemma_chain_names_determined(
    s1: crate::session::SystemState,
    s2: crate::session::SystemState,
)
    requires
        s1.wf(),
        s2.wf(),
        s1.signers@ == s2.signers@,
    ensures
        s1.chain_names@.len() == s2.chain_names@.len(),
        forall|i: int|
            0 <= i < s1.chain_names@.len() ==> (#[trigger] s1.chain_names@[i])@
                == s2.chain_names@[i]@,
{
    crate::names::lemma_sorted_names_unique(s1.chain_names@, s2.chain_names@);
}

/// Idempotence, signer projection: two trees built from the same
/// unchanged model are structurally identical, rows included.
pub proof fn lemma_signer_build_idempotent(t1: Tree, t2: Tree, m: Seq<Signer>)
    requires
        t1@ == signer_tree_v(m),
        t2@ == signer_tree_v(m),
    ensures
        t1@ == t2@,
        flat_tree(t1@) == flat_tree(t2@),
{
}

/// Idempotence, chain projection: two trees built from the same unchanged
/// model and chain name set are structurally identical, rows included.
pub proof fn lemma_chain_build_idempotent(t1: Tree, t2: Tree, m: Seq<Signer>, names: Seq<String>)
    requires
        t1@ == chain_tree_v(m, names),
        t2@ == chain_tree_v(m, names),
    ensures
        t1@ == t2@,
        flat_tree(t1@) == flat_tree(t2@),
{
}

} // verus!
