use vstd::prelude::*;
use crate::order::{
    lemma_preorder_in_tree, lemma_preorder_rest_in_tree, preorder_seq, preorder_seq_rest,
};
use crate::tree::{NodeId, Tree};

verus! {

/// Does node `x` belong to the subtree at `id`?
pub open spec fn in_subtree(tree: Tree, id: NodeId, x: NodeId) -> bool {
    preorder_seq(tree, id).contains(x)
}

/// Is `x` a child of `p`?
pub open spec fn child_of(tree: Tree, p: NodeId, x: NodeId) -> bool {
    p < tree.size() && tree.children(p as int).contains(x)
}

/// Does a list hold no node twice?
pub open spec fn distinct(s: Seq<NodeId>) -> bool {
    forall|i: int, j: int| 0 <= i < j < s.len() ==> s[i] != s[j]
}

/// A node listed among the subtrees of `id` from the `k`-th on belongs to
/// the subtree of one of those children.
proof fn lemma_rest_member(tree: Tree, id: NodeId, k: nat, x: NodeId) -> (j: int)
    requires
        tree.wf(),
        id < tree.size(),
        preorder_seq_rest(tree, id, k).contains(x),
    ensures
        k <= j < tree.children(id as int).len(),
        in_subtree(tree, tree.children(id as int)[j], x),
    decreases tree.children(id as int).len() - k,
{
    let c = tree.children(id as int)[k as int];
    let head = preorder_seq(tree, c);
    let tail = preorder_seq_rest(tree, id, k + 1);
    let i = choose|i: int|
        0 <= i < preorder_seq_rest(tree, id, k).len() && preorder_seq_rest(tree, id, k)[i] == x;
    if i < head.len() {
        assert(head[i] == x);
        k as int
    } else {
        assert(tail[i - head.len()] == x);
        lemma_rest_member(tree, id, k + 1, x)
    }
}

/// A node of the subtree of the `j`-th child of `id` is listed among the
/// subtrees of `id` from any earlier one on, and belongs to the subtree at
/// `id`.
proof fn lemma_member_rest(tree: Tree, id: NodeId, k: nat, j: int, x: NodeId)
    requires
        tree.wf(),
        id < tree.size(),
        k <= j < tree.children(id as int).len(),
        in_subtree(tree, tree.children(id as int)[j], x),
    ensures
        preorder_seq_rest(tree, id, k).contains(x),
        k == 0 ==> in_subtree(tree, id, x),
    decreases j - k,
{
    let c = tree.children(id as int)[k as int];
    let head = preorder_seq(tree, c);
    let tail = preorder_seq_rest(tree, id, k + 1);
    let whole = preorder_seq_rest(tree, id, k);
    if k == j {
        let i = choose|i: int| 0 <= i < head.len() && head[i] == x;
        assert(whole[i] == x);
    } else {
        lemma_member_rest(tree, id, k + 1, j, x);
        let i = choose|i: int| 0 <= i < tail.len() && tail[i] == x;
        assert(whole[head.len() + i] == x);
    }
    if k == 0 {
        let i = choose|i: int| 0 <= i < whole.len() && whole[i] == x;
        assert(preorder_seq(tree, id)[i + 1] == x);
    }
}

/// Every node of a subtree but the one at its top has its parent in the
/// subtree.
pub proof fn lemma_parent_in_subtree(tree: Tree, id: NodeId, x: NodeId) -> (p: NodeId)
    requires
        tree.wf(),
        id < tree.size(),
        in_subtree(tree, id, x),
        x != id,
    ensures
        in_subtree(tree, id, p),
        child_of(tree, p, x),
        p < x,
    decreases tree.size() - id,
{
    let s = preorder_seq(tree, id);
    let rest = preorder_seq_rest(tree, id, 0);
    let i = choose|i: int| 0 <= i < s.len() && s[i] == x;
    assert(i > 0);
    assert(rest[i - 1] == x);
    let j = lemma_rest_member(tree, id, 0, x);
    let c = tree.children(id as int)[j];
    if x == c {
        assert(s[0] == id);
        id
    } else {
        let p = lemma_parent_in_subtree(tree, c, x);
        lemma_member_rest(tree, id, 0, j, p);
        p
    }
}

/// The subtrees of two different children of a node have no node in
/// common.
pub proof fn lemma_siblings_apart(tree: Tree, id: NodeId, a: int, b: int, x: NodeId)
    requires
        tree.wf(),
        id < tree.size(),
        0 <= a < tree.children(id as int).len(),
        0 <= b < tree.children(id as int).len(),
        a != b,
        in_subtree(tree, tree.children(id as int)[a], x),
    ensures
        !in_subtree(tree, tree.children(id as int)[b], x),
    decreases x,
{
    let ca = tree.children(id as int)[a];
    let cb = tree.children(id as int)[b];
    if in_subtree(tree, cb, x) {
        lemma_preorder_in_tree(tree, ca);
        lemma_preorder_in_tree(tree, cb);
        if x == ca {
            let p = lemma_parent_in_subtree(tree, cb, x);
            let k = choose|k: int| 0 <= k < tree.children(p as int).len() && tree.children(
                p as int,
            )[k] == x;
            assert(tree.children(p as int)[k] == tree.children(id as int)[a]);
            assert(p == id);
            let i = choose|i: int|
                0 <= i < preorder_seq(tree, cb).len() && preorder_seq(tree, cb)[i] == p;
            assert(cb <= preorder_seq(tree, cb)[i]);
            assert(false);
        } else if x == cb {
            let p = lemma_parent_in_subtree(tree, ca, x);
            let k = choose|k: int| 0 <= k < tree.children(p as int).len() && tree.children(
                p as int,
            )[k] == x;
            assert(tree.children(p as int)[k] == tree.children(id as int)[b]);
            assert(p == id);
            let i = choose|i: int|
                0 <= i < preorder_seq(tree, ca).len() && preorder_seq(tree, ca)[i] == p;
            assert(ca <= preorder_seq(tree, ca)[i]);
            assert(false);
        } else {
            let pa = lemma_parent_in_subtree(tree, ca, x);
            let pb = lemma_parent_in_subtree(tree, cb, x);
            let ka = choose|k: int| 0 <= k < tree.children(pa as int).len() && tree.children(
                pa as int,
            )[k] == x;
            let kb = choose|k: int| 0 <= k < tree.children(pb as int).len() && tree.children(
                pb as int,
            )[k] == x;
            assert(tree.children(pa as int)[ka] == tree.children(pb as int)[kb]);
            assert(pa == pb);
            lemma_siblings_apart(tree, id, a, b, pa);
        }
    }
}

/// A preorder lists every node of the subtree once.
pub proof fn lemma_preorder_distinct(tree: Tree, id: NodeId)
    requires
        tree.wf(),
        id < tree.size(),
    ensures
        distinct(preorder_seq(tree, id)),
    decreases tree.size() - id, 1nat, 0nat,
{
    lemma_preorder_rest_distinct(tree, id, 0);
    lemma_preorder_rest_in_tree(tree, id, 0);
    let s = preorder_seq(tree, id);
    let rest = preorder_seq_rest(tree, id, 0);
    assert forall|i: int, j: int| 0 <= i < j < s.len() implies s[i] != s[j] by {
        assert(s[j] == rest[j - 1]);
        if i > 0 {
            assert(s[i] == rest[i - 1]);
        }
    }
}

/// The subtrees of a node from the `k`-th on list every node once.
pub proof fn lemma_preorder_rest_distinct(tree: Tree, id: NodeId, k: nat)
    requires
        tree.wf(),
        id < tree.size(),
    ensures
        distinct(preorder_seq_rest(tree, id, k)),
    decreases tree.size() - id, 0nat, tree.children(id as int).len() - k,
{
    if k < tree.children(id as int).len() {
        let c = tree.children(id as int)[k as int];
        lemma_preorder_distinct(tree, c);
        lemma_preorder_rest_distinct(tree, id, k + 1);
        let head = preorder_seq(tree, c);
        let tail = preorder_seq_rest(tree, id, k + 1);
        let whole = preorder_seq_rest(tree, id, k);
        assert forall|i: int, j: int| 0 <= i < j < whole.len() implies whole[i] != whole[j] by {
            if j < head.len() {
                assert(whole[i] == head[i] && whole[j] == head[j]);
            } else if i >= head.len() {
                assert(whole[i] == tail[i - head.len()] && whole[j] == tail[j - head.len()]);
            } else {
                assert(whole[i] == head[i] && whole[j] == tail[j - head.len()]);
                if whole[i] == whole[j] {
                    let x = whole[i];
                    assert(head.contains(x));
                    assert(tail.contains(x));
                    let b = lemma_rest_member(tree, id, k + 1, x);
                    lemma_siblings_apart(tree, id, k as int, b, x);
                }
            }
        }
    }
}

} // verus!
