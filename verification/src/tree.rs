//! The tree shape shared by both projections: four levels of nodes, each
//! carrying a display label and the path of indices that addresses it, plus
//! a pre-order flattening that assigns every node its display row.

use vstd::prelude::*;

verus! {

/// One displayable node: a label and the path addressing it.
pub struct TreeItem {
    pub label: String,
    pub path: Vec<usize>,
}

/// The mathematical value of a [`TreeItem`].
#[verifier::ext_equal]
pub ghost struct ItemV {
    pub label: Seq<char>,
    pub path: Seq<usize>,
}

impl View for TreeItem {
    type V = ItemV;

    open spec fn view(&self) -> ItemV {
        ItemV { label: self.label@, path: self.path@ }
    }
}

/// A third-level node together with its leaves.
pub struct Branch3 {
    pub item: TreeItem,
    pub leaves: Vec<TreeItem>,
}

/// A second-level node together with its third-level children.
pub struct Branch2 {
    pub item: TreeItem,
    pub children: Vec<Branch3>,
}

/// A root node together with its second-level children.
pub struct Branch1 {
    pub item: TreeItem,
    pub children: Vec<Branch2>,
}

/// A projection result: an ordered forest of root nodes.
pub struct Tree {
    pub roots: Vec<Branch1>,
}

#[verifier::ext_equal]
pub ghost struct Branch3V {
    pub item: ItemV,
    pub leaves: Seq<ItemV>,
}

#[verifier::ext_equal]
pub ghost struct Branch2V {
    pub item: ItemV,
    pub children: Seq<Branch3V>,
}

#[verifier::ext_equal]
pub ghost struct Branch1V {
    pub item: ItemV,
    pub children: Seq<Branch2V>,
}

#[verifier::ext_equal]
pub ghost struct TreeV {
    pub roots: Seq<Branch1V>,
}

/// The values of a sequence of items.
pub open spec fn item_views(s: Seq<TreeItem>) -> Seq<ItemV> {
    Seq::new(s.len(), |i: int| s[i]@)
}

/// The values of a sequence of third-level nodes.
pub open spec fn branch3_views(s: Seq<Branch3>) -> Seq<Branch3V> {
    Seq::new(s.len(), |i: int| s[i]@)
}

/// The values of a sequence of second-level nodes.
pub open spec fn branch2_views(s: Seq<Branch2>) -> Seq<Branch2V> {
    Seq::new(s.len(), |i: int| s[i]@)
}

/// The values of a sequence of root nodes.
pub open spec fn branch1_views(s: Seq<Branch1>) -> Seq<Branch1V> {
    Seq::new(s.len(), |i: int| s[i]@)
}

impl View for Branch3 {
    type V = Branch3V;

    open spec fn view(&self) -> Branch3V {
        Branch3V { item: self.item@, leaves: item_views(self.leaves@) }
    }
}

impl View for Branch2 {
    type V = Branch2V;

    open spec fn view(&self) -> Branch2V {
        Branch2V {
            item: self.item@,
            children: Seq::new(self.children@.len(), |i: int| self.children@[i]@),
        }
    }
}

impl View for Branch1 {
    type V = Branch1V;

    open spec fn view(&self) -> Branch1V {
        Branch1V {
            item: self.item@,
            children: Seq::new(self.children@.len(), |i: int| self.children@[i]@),
        }
    }
}

impl View for Tree {
    type V = TreeV;

    open spec fn view(&self) -> TreeV {
        TreeV { roots: Seq::new(self.roots@.len(), |i: int| self.roots@[i]@) }
    }
}

/// Pre-order listing of a third-level node: the node, then its leaves.
pub open spec fn flat_level3(b: Branch3V) -> Seq<ItemV> {
    seq![b.item] + b.leaves
}

/// Pre-order listing of the first `n` third-level nodes of a sequence.
pub open spec fn flat_level3_prefix(s: Seq<Branch3V>, n: int) -> Seq<ItemV>
    decreases n,
{
    if n <= 0 {
        Seq::empty()
    } else {
        flat_level3_prefix(s, n - 1) + flat_level3(s[n - 1])
    }
}

/// Pre-order listing of a second-level node and its subtree.
pub open spec fn flat_level2(b: Branch2V) -> Seq<ItemV> {
    seq![b.item] + flat_level3_prefix(b.children, b.children.len() as int)
}

/// Pre-order listing of the first `n` second-level nodes of a sequence.
pub open spec fn flat_level2_prefix(s: Seq<Branch2V>, n: int) -> Seq<ItemV>
    decreases n,
{
    if n <= 0 {
        Seq::empty()
    } else {
        flat_level2_prefix(s, n - 1) + flat_level2(s[n - 1])
    }
}

/// Pre-order listing of a root node and its subtree.
pub open spec fn flat_level1(b: Branch1V) -> Seq<ItemV> {
    seq![b.item] + flat_level2_prefix(b.children, b.children.len() as int)
}

/// Pre-order listing of the first `n` roots of a sequence.
pub open spec fn flat_level1_prefix(s: Seq<Branch1V>, n: int) -> Seq<ItemV>
    decreases n,
{
    if n <= 0 {
        Seq::empty()
    } else {
        flat_level1_prefix(s, n - 1) + flat_level1(s[n - 1])
    }
}

/// Pre-order listing of the whole tree: item `row` of the result is the
/// node displayed on row `row`.
pub open spec fn flat_tree(t: TreeV) -> Seq<ItemV> {
    flat_level1_prefix(t.roots, t.roots.len() as int)
}

/// Copies a path of indices.
pub fn copy_path(p: &Vec<usize>) -> (r: Vec<usize>)
    ensures
        r@ == p@,
{
    let mut r: Vec<usize> = Vec::new();
    let mut i: usize = 0;
    while i < p.len()
        invariant
            i <= p@.len(),
            r@ == p@.subrange(0, i as int),
        decreases p@.len() - i,
    {
        r.push(p[i]);
        proof {
            assert(r@ =~= p@.subrange(0, i + 1 as int));
        }
        i += 1;
    }
    proof {
        assert(r@ =~= p@);
    }
    r
}

/// Copies one displayable item.
pub fn copy_item(x: &TreeItem) -> (r: TreeItem)
    ensures
        r@ == x@,
{
    TreeItem { label: x.label.clone(), path: copy_path(&x.path) }
}

/// Lists the whole tree in pre-order, one item per display row.
pub fn flatten(t: &Tree) -> (out: Vec<TreeItem>)
    ensures
        item_views(out@) == flat_tree(t@),
{
    let mut out: Vec<TreeItem> = Vec::new();
    let mut i: usize = 0;
    while i < t.roots.len()
        invariant
            i <= t.roots@.len(),
            item_views(out@) == flat_level1_prefix(t@.roots, i as int),
        decreases t.roots@.len() - i,
    {
        let b1 = &t.roots[i];
        out.push(copy_item(&b1.item));
        proof {
            assert(item_views(out@) =~= flat_level1_prefix(t@.roots, i as int) + seq![
                t@.roots[i as int].item,
            ]);
        }
        let mut j: usize = 0;
        while j < b1.children.len()
            invariant
                i < t.roots@.len(),
                b1 == &t.roots@[i as int],
                j <= b1.children@.len(),
                item_views(out@) == flat_level1_prefix(t@.roots, i as int) + seq![
                    t@.roots[i as int].item,
                ] + flat_level2_prefix(t@.roots[i as int].children, j as int),
            decreases b1.children@.len() - j,
        {
            let b2 = &b1.children[j];
            out.push(copy_item(&b2.item));
            proof {
                assert(item_views(out@) =~= flat_level1_prefix(t@.roots, i as int) + seq![
                    t@.roots[i as int].item,
                ] + flat_level2_prefix(t@.roots[i as int].children, j as int) + seq![
                    t@.roots[i as int].children[j as int].item,
                ]);
            }
            let mut k: usize = 0;
            while k < b2.children.len()
                invariant
                    i < t.roots@.len(),
                    b1 == &t.roots@[i as int],
                    j < b1.children@.len(),
                    b2 == &b1.children@[j as int],
                    k <= b2.children@.len(),
                    item_views(out@) == flat_level1_prefix(t@.roots, i as int) + seq![
                        t@.roots[i as int].item,
                    ] + flat_level2_prefix(t@.roots[i as int].children, j as int) + seq![
                        t@.roots[i as int].children[j as int].item,
                    ] + flat_level3_prefix(
                        t@.roots[i as int].children[j as int].children,
                        k as int,
                    ),
                decreases b2.children@.len() - k,
            {
                let b3 = &b2.children[k];
                out.push(copy_item(&b3.item));
                let mut l: usize = 0;
                proof {
                    assert(item_views(out@) =~= flat_level1_prefix(t@.roots, i as int) + seq![
                        t@.roots[i as int].item,
                    ] + flat_level2_prefix(t@.roots[i as int].children, j as int) + seq![
                        t@.roots[i as int].children[j as int].item,
                    ] + flat_level3_prefix(
                        t@.roots[i as int].children[j as int].children,
                        k as int,
                    ) + seq![t@.roots[i as int].children[j as int].children[k as int].item]);
                }
                while l < b3.leaves.len()
                    invariant
                        i < t.roots@.len(),
                        b1 == &t.roots@[i as int],
                        j < b1.children@.len(),
                        b2 == &b1.children@[j as int],
                        k < b2.children@.len(),
                        b3 == &b2.children@[k as int],
                        l <= b3.leaves@.len(),
                        item_views(out@) == flat_level1_prefix(t@.roots, i as int) + seq![
                            t@.roots[i as int].item,
                        ] + flat_level2_prefix(t@.roots[i as int].children, j as int) + seq![
                            t@.roots[i as int].children[j as int].item,
                        ] + flat_level3_prefix(
                            t@.roots[i as int].children[j as int].children,
                            k as int,
                        ) + seq![t@.roots[i as int].children[j as int].children[k as int].item]
                            + t@.roots[i as int].children[j as int].children[k as int].leaves
                            .subrange(0, l as int),
                    decreases b3.leaves@.len() - l,
                {
                    let ghost before: Seq<TreeItem> = out@;
                    out.push(copy_item(&b3.leaves[l]));
                    proof {
                        let b3v = t@.roots[i as int].children[j as int].children[k as int];
                        assert(b3v == b3@);
                        assert(b3v.leaves[l as int] == b3.leaves@[l as int]@);
                        assert(item_views(out@) =~= item_views(before).push(b3v.leaves[l as int]));
                        assert(b3v.leaves.subrange(0, l as int).push(b3v.leaves[l as int]) =~= b3v
                            .leaves.subrange(0, l + 1 as int));
                        assert(item_views(out@) =~= flat_level1_prefix(t@.roots, i as int) + seq![
                            t@.roots[i as int].item,
                        ] + flat_level2_prefix(t@.roots[i as int].children, j as int) + seq![
                            t@.roots[i as int].children[j as int].item,
                        ] + flat_level3_prefix(
                            t@.roots[i as int].children[j as int].children,
                            k as int,
                        ) + seq![t@.roots[i as int].children[j as int].children[k as int].item]
                            + t@.roots[i as int].children[j as int].children[k as int].leaves
                            .subrange(0, l + 1 as int));
                    }
                    l += 1;
                }
                proof {
                    let b3v = t@.roots[i as int].children[j as int].children[k as int];
                    assert(b3v.leaves.subrange(0, b3v.leaves.len() as int) =~= b3v.leaves);
                    assert(item_views(out@) =~= flat_level1_prefix(t@.roots, i as int) + seq![
                        t@.roots[i as int].item,
                    ] + flat_level2_prefix(t@.roots[i as int].children, j as int) + seq![
                        t@.roots[i as int].children[j as int].item,
                    ] + flat_level3_prefix(
                        t@.roots[i as int].children[j as int].children,
                        k + 1 as int,
                    ));
                }
                k += 1;
            }
            proof {
                assert(item_views(out@) =~= flat_level1_prefix(t@.roots, i as int) + seq![
                    t@.roots[i as int].item,
                ] + flat_level2_prefix(t@.roots[i as int].children, j + 1 as int));
            }
            j += 1;
        }
        proof {
            assert(item_views(out@) =~= flat_level1_prefix(t@.roots, i + 1 as int));
        }
        i += 1;
    }
    out
}

} // verus!
