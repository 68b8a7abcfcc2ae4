//! Navigation in a preorder node sequence: a node's subtree is the run of
//! following nodes that are deeper than it, and its children are the nodes
//! of that run one level down, found by hopping from subtree to subtree.

use vstd::prelude::*;
use crate::syntax::{Node, NodeKind};

verus! {

/// The first index from `j` on whose node is at depth `d` or shallower
/// (`nodes.len()` when there is none).
pub open spec fn scan_end(nodes: Seq<Node>, d: usize, j: int) -> int
    decreases nodes.len() - j,
{
    if j >= nodes.len() || j < 0 || nodes[j].depth <= d {
        j
    } else {
        scan_end(nodes, d, j + 1)
    }
}

/// One past the last node of the subtree rooted at `i`.
pub open spec fn subtree_end(nodes: Seq<Node>, i: int) -> int {
    scan_end(nodes, nodes[i].depth, i + 1)
}

proof fn lemma_scan_end(nodes: Seq<Node>, d: usize, j: int)
    requires
        0 <= j <= nodes.len(),
    ensures
        j <= scan_end(nodes, d, j) <= nodes.len(),
    decreases nodes.len() - j,
{
    if j < nodes.len() && nodes[j].depth > d {
        lemma_scan_end(nodes, d, j + 1);
    }
}

/// A subtree contains its root and lies within the sequence.
pub proof fn lemma_subtree_end(nodes: Seq<Node>, i: int)
    requires
        0 <= i < nodes.len(),
    ensures
        i < subtree_end(nodes, i) <= nodes.len(),
{
    lemma_scan_end(nodes, nodes[i].depth, i + 1);
}

/// Children of `i` from candidate index `j` on (all when `named_only` is
/// false, else only named ones), in order.
pub open spec fn kids_from(nodes: Seq<Node>, i: int, j: int, named_only: bool) -> Seq<int>
    decreases nodes.len() - j,
{
    if i < 0 || i >= nodes.len() || j <= i || j >= subtree_end(nodes, i) || j >= nodes.len() {
        Seq::empty()
    } else {
        let next = subtree_end(nodes, j);
        if next <= j || next > nodes.len() {
            Seq::empty()
        } else {
            let rest = kids_from(nodes, i, next, named_only);
            if named_only && !nodes[j].named { rest } else { seq![j] + rest }
        }
    }
}

/// All children of `i`, in order.
pub open spec fn kids(nodes: Seq<Node>, i: int) -> Seq<int> {
    kids_from(nodes, i, i + 1, false)
}

/// The named children of `i`, in order.
pub open spec fn named_kids(nodes: Seq<Node>, i: int) -> Seq<int> {
    kids_from(nodes, i, i + 1, true)
}

/// Indices as integers.
pub open spec fn as_ints(v: Seq<usize>) -> Seq<int> {
    v.map_values(|x: usize| x as int)
}

proof fn lemma_kids_from_range(nodes: Seq<Node>, i: int, j: int, named_only: bool)
    ensures
        forall|k: int| 0 <= k < kids_from(nodes, i, j, named_only).len() ==>
            i < #[trigger] kids_from(nodes, i, j, named_only)[k] < nodes.len()
            && j <= kids_from(nodes, i, j, named_only)[k],
    decreases nodes.len() - j,
{
    if !(i < 0 || i >= nodes.len() || j <= i || j >= subtree_end(nodes, i) || j >= nodes.len()) {
        let next = subtree_end(nodes, j);
        if next > j && next <= nodes.len() {
            lemma_kids_from_range(nodes, i, next, named_only);
            let rest = kids_from(nodes, i, next, named_only);
            let all = kids_from(nodes, i, j, named_only);
            if !(named_only && !nodes[j].named) {
                assert(all == seq![j] + rest);
                assert forall|k: int| 0 <= k < all.len() implies i < #[trigger] all[k] < nodes.len() && j <= all[k] by {
                    if k > 0 {
                        assert(all[k] == rest[k - 1]);
                    }
                }
            }
        }
    }
}

/// Every child index lies after its parent and inside the sequence.
pub proof fn lemma_kids_range(nodes: Seq<Node>, i: int, named_only: bool)
    ensures
        forall|k: int| 0 <= k < kids_from(nodes, i, i + 1, named_only).len() ==>
            i < #[trigger] kids_from(nodes, i, i + 1, named_only)[k] < nodes.len(),
{
    lemma_kids_from_range(nodes, i, i + 1, named_only);
}

/// One past the last node of the subtree rooted at `i`.
pub fn subtree_end_of(nodes: &Vec<Node>, i: usize) -> (r: usize)
    requires
        i < nodes.len(),
    ensures
        r as int == subtree_end(nodes@, i as int),
        i < r <= nodes.len(),
{
    proof { lemma_subtree_end(nodes@, i as int); }
    let d = nodes[i].depth;
    let mut j = i + 1;
    while j < nodes.len() && nodes[j].depth > d
        invariant
            i < j <= nodes.len(),
            d == nodes@[i as int].depth,
            scan_end(nodes@, d, i + 1) == scan_end(nodes@, d, j as int),
        decreases nodes.len() - j,
    {
        j = j + 1;
    }
    j
}

/// The children of `i` (only the named ones when `named_only`).
pub fn children(nodes: &Vec<Node>, i: usize, named_only: bool) -> (r: Vec<usize>)
    requires
        i < nodes.len(),
    ensures
        as_ints(r@) == kids_from(nodes@, i as int, i + 1, named_only),
        forall|k: int| 0 <= k < r.len() ==> i < #[trigger] r@[k] < nodes.len(),
{
    let end = subtree_end_of(nodes, i);
    let mut r: Vec<usize> = Vec::new();
    let mut j = i + 1;
    proof { lemma_kids_range(nodes@, i as int, named_only); }
    while j < end
        invariant
            i < j <= nodes.len(),
            end == subtree_end(nodes@, i as int),
            end <= nodes.len(),
            kids_from(nodes@, i as int, i + 1, named_only)
                == as_ints(r@) + kids_from(nodes@, i as int, j as int, named_only),
            forall|k: int| 0 <= k < r.len() ==> i < #[trigger] r@[k] < nodes.len(),
        decreases nodes.len() - j,
    {
        let next = subtree_end_of(nodes, j);
        if !(named_only && !nodes[j].named) {
            proof {
                assert(as_ints(r@.push(j)) == as_ints(r@) + seq![j as int]);
            }
            r.push(j);
        }
        j = next;
    }
    assert(as_ints(r@) + kids_from(nodes@, i as int, j as int, named_only) == as_ints(r@));
    r
}

/// Whether `k` is a leaf command kind.
pub open spec fn is_leaf_kind(k: NodeKind) -> bool {
    k == NodeKind::Command || k == NodeKind::DeclarationCommand || k == NodeKind::VariableAssignment
}

/// Taking one more element of an index sequence.
pub proof fn lemma_take_step(ks: Seq<usize>, idx: int)
    requires
        0 <= idx < ks.len(),
    ensures
        as_ints(ks).take(idx + 1).drop_last() == as_ints(ks).take(idx),
        as_ints(ks).take(idx + 1).last() == ks[idx] as int,
{
    assert(as_ints(ks).take(idx + 1).drop_last() =~= as_ints(ks).take(idx));
}

/// Taking all elements of an index sequence.
pub proof fn lemma_take_all(ks: Seq<usize>)
    ensures
        as_ints(ks).take(ks.len() as int) == as_ints(ks),
{
    assert(as_ints(ks).take(ks.len() as int) =~= as_ints(ks));
}

} // verus!
