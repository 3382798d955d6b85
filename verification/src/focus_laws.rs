use vstd::prelude::*;
use crate::focus::{
    accepts, first_accepting, first_stamped, first_target, last_accepting, next_target,
    prev_target,
};
use crate::canopy::Canopy;
use crate::focus::focus_moved;
use crate::order::{lemma_preorder_in_tree, lemma_same_shape_same_order, preorder_seq};
use crate::subtree::lemma_preorder_distinct;
use crate::tree::{NodeId, Tree};

verus! {

/// What the first position found says: it holds a node that may be given
/// focus, and no position between the start and it does; where none is
/// found, no position from the start on does.
pub proof fn lemma_first_accepting(tree: Tree, s: Seq<NodeId>, from: int)
    requires
        0 <= from,
    ensures
        match first_accepting(tree, s, from) {
            Some(j) => from <= j < s.len() && accepts(tree, s[j] as int) && forall|i: int|
                from <= i < j ==> !accepts(tree, #[trigger] s[i] as int),
            None => forall|i: int| from <= i < s.len() ==> !accepts(tree, #[trigger] s[i] as int),
        },
    decreases s.len() - from,
{
    if from < s.len() && !accepts(tree, s[from] as int) {
        lemma_first_accepting(tree, s, from + 1);
    }
}

/// What the last position found says: it holds a node that may be given
/// focus, and no position between it and the end does; where none is
/// found, no position of the range does.
pub proof fn lemma_last_accepting(tree: Tree, s: Seq<NodeId>, lo: int, hi: int)
    requires
        0 <= lo,
        hi <= s.len(),
    ensures
        match last_accepting(tree, s, lo, hi) {
            Some(j) => lo <= j < hi && accepts(tree, s[j] as int) && forall|i: int|
                j < i < hi ==> !accepts(tree, #[trigger] s[i] as int),
            None => forall|i: int| lo <= i < hi ==> !accepts(tree, #[trigger] s[i] as int),
        },
    decreases hi - lo,
{
    if lo < hi && !accepts(tree, s[hi - 1] as int) {
        lemma_last_accepting(tree, s, lo, hi - 1);
    }
}

/// What the first stamped position found says: it holds a node with the
/// stamp, and no position between the start and it does; where none is
/// found, no position from the start on does.
pub proof fn lemma_first_stamped(tree: Tree, s: Seq<NodeId>, g: u64, from: int)
    requires
        0 <= from,
    ensures
        match first_stamped(tree, s, g, from) {
            Some(j) => from <= j < s.len() && tree.state(s[j] as int).focus_gen == g && forall|
                i: int,
            |
                from <= i < j ==> tree.state(#[trigger] s[i] as int).focus_gen != g,
            None => forall|i: int|
                from <= i < s.len() ==> tree.state(#[trigger] s[i] as int).focus_gen != g,
        },
    decreases s.len() - from,
{
    if from < s.len() && tree.state(s[from] as int).focus_gen != g {
        lemma_first_stamped(tree, s, g, from + 1);
    }
}

/// A node that is hidden, or that is not willing, is never given focus by
/// a search in tree order, whatever has focus.
pub proof fn lemma_targets_may_take_focus(tree: Tree, g: u64, root: NodeId)
    requires
        tree.wf(),
        root < tree.size(),
    ensures
        first_target(tree, root) is Some ==> accepts(tree, first_target(tree, root)->Some_0 as int),
        next_target(tree, g, root) is Some ==> accepts(
            tree,
            next_target(tree, g, root)->Some_0 as int,
        ),
        prev_target(tree, g, root) is Some ==> accepts(
            tree,
            prev_target(tree, g, root)->Some_0 as int,
        ),
        forall|t: NodeId|
            first_target(tree, root) == Some(t) || next_target(tree, g, root) == Some(t)
                || prev_target(tree, g, root) == Some(t) ==> !tree.state(t as int).hidden
                && tree.can_focus(t as int),
{
    let s = preorder_seq(tree, root);
    lemma_first_accepting(tree, s, 0);
    lemma_first_stamped(tree, s, g, 0);
    lemma_first_stamped(tree, s, g, 1);
    match first_stamped(tree, s, g, 0) {
        Some(i) => {
            lemma_first_accepting(tree, s, i + 1);
        },
        None => {},
    }
    let hi = match first_stamped(tree, s, g, 1) {
        Some(i) => i,
        None => s.len() as int,
    };
    lemma_last_accepting(tree, s, 1, hi);
}

/// Where no node of the subtree has focus, the next node is the first in
/// preorder that may be given focus: no node before it in preorder may.
pub proof fn lemma_next_without_focus(tree: Tree, g: u64, root: NodeId)
    requires
        tree.wf(),
        root < tree.size(),
        forall|i: int|
            0 <= i < preorder_seq(tree, root).len() ==> tree.state(
                #[trigger] preorder_seq(tree, root)[i] as int,
            ).focus_gen != g,
    ensures
        next_target(tree, g, root) == first_target(tree, root),
        match first_accepting(tree, preorder_seq(tree, root), 0) {
            Some(j) => first_target(tree, root) == Some(preorder_seq(tree, root)[j]) && forall|
                i: int,
            |
                0 <= i < j ==> !accepts(tree, #[trigger] preorder_seq(tree, root)[i] as int),
            None => first_target(tree, root) is None,
        },
{
    let s = preorder_seq(tree, root);
    lemma_first_stamped(tree, s, g, 0);
    lemma_first_accepting(tree, s, 0);
}

/// The number of positions from `lo` on and before `hi` that hold a node
/// that may be given focus.
pub open spec fn count_accepting(tree: Tree, s: Seq<NodeId>, lo: int, hi: int) -> nat
    decreases hi - lo,
{
    if lo < 0 || hi <= lo || hi > s.len() {
        0
    } else {
        count_accepting(tree, s, lo, hi - 1) + if accepts(tree, s[hi - 1] as int) {
            1nat
        } else {
            0nat
        }
    }
}

/// The position that focus moves to from position `p` when it moves on:
/// the next one that holds a node that may be given focus, or the first
/// such position where there is none after `p`.
pub open spec fn next_pos(tree: Tree, s: Seq<NodeId>, p: int) -> Option<int> {
    match first_accepting(tree, s, p + 1) {
        Some(q) => Some(q),
        None => first_accepting(tree, s, 0),
    }
}

/// The position that focus has come to after it has moved on `n` times
/// from position `p`.
pub open spec fn advance(tree: Tree, s: Seq<NodeId>, p: int, n: nat) -> int
    decreases n,
{
    if n == 0 {
        p
    } else {
        match next_pos(tree, s, advance(tree, s, p, (n - 1) as nat)) {
            Some(q) => q,
            None => p,
        }
    }
}

/// A count over a range is the sum of the counts over its two parts.
pub proof fn lemma_count_split(tree: Tree, s: Seq<NodeId>, a: int, b: int, c: int)
    requires
        0 <= a <= b <= c <= s.len(),
    ensures
        count_accepting(tree, s, a, c) == count_accepting(tree, s, a, b) + count_accepting(
            tree,
            s,
            b,
            c,
        ),
    decreases c - b,
{
    if b < c {
        lemma_count_split(tree, s, a, b, c - 1);
    }
}

/// A range without a node that may be given focus counts zero.
pub proof fn lemma_count_none(tree: Tree, s: Seq<NodeId>, a: int, b: int)
    requires
        0 <= a <= b <= s.len(),
        forall|i: int| a <= i < b ==> !accepts(tree, #[trigger] s[i] as int),
    ensures
        count_accepting(tree, s, a, b) == 0,
    decreases b - a,
{
    if a < b {
        lemma_count_none(tree, s, a, b - 1);
    }
}

/// Moving on from a position that holds a node that may be given focus
/// leads to the position with the next higher count of such nodes before
/// it, or, from the last of them, back to the first.
pub proof fn lemma_next_pos_rank(tree: Tree, s: Seq<NodeId>, p: int)
    requires
        0 <= p < s.len(),
        accepts(tree, s[p] as int),
    ensures
        next_pos(tree, s, p) is Some,
        ({
            let q = next_pos(tree, s, p)->Some_0;
            let total = count_accepting(tree, s, 0, s.len() as int);
            let rank = count_accepting(tree, s, 0, p);
            &&& 0 <= q < s.len()
            &&& accepts(tree, s[q] as int)
            &&& rank < total
            &&& rank + 1 < total ==> q > p && count_accepting(tree, s, 0, q) == rank + 1
            &&& rank + 1 == total ==> first_accepting(tree, s, 0) == Some(q) && count_accepting(
                tree,
                s,
                0,
                q,
            ) == 0
        }),
{
    let len = s.len() as int;
    lemma_first_accepting(tree, s, p + 1);
    lemma_first_accepting(tree, s, 0);
    lemma_count_split(tree, s, 0, p, p + 1);
    lemma_count_split(tree, s, 0, p + 1, len);
    assert(count_accepting(tree, s, p, p + 1) == 1) by {
        assert(count_accepting(tree, s, p, p) == 0);
    }
    match first_accepting(tree, s, p + 1) {
        Some(q) => {
            lemma_count_none(tree, s, p + 1, q);
            lemma_count_split(tree, s, 0, p + 1, q);
            lemma_count_split(tree, s, 0, q, q + 1);
            lemma_count_split(tree, s, 0, q + 1, len);
            assert(count_accepting(tree, s, q, q + 1) == 1) by {
                assert(count_accepting(tree, s, q, q) == 0);
            }
        },
        None => {
            lemma_count_none(tree, s, p + 1, len);
            let f = first_accepting(tree, s, 0)->Some_0;
            lemma_count_none(tree, s, 0, f);
        },
    }
}

/// After `n` moves from the first position that holds a node that may be
/// given focus, with `n` less than the number of such positions, focus is at
/// the one that has `n` of them before it.
pub proof fn lemma_advance_rank(tree: Tree, s: Seq<NodeId>, n: nat)
    requires
        first_accepting(tree, s, 0) is Some,
        n < count_accepting(tree, s, 0, s.len() as int),
    ensures
        ({
            let f = first_accepting(tree, s, 0)->Some_0;
            let p = advance(tree, s, f, n);
            &&& 0 <= p < s.len()
            &&& accepts(tree, s[p] as int)
            &&& count_accepting(tree, s, 0, p) == n
        }),
    decreases n,
{
    let f = first_accepting(tree, s, 0)->Some_0;
    lemma_first_accepting(tree, s, 0);
    if n == 0 {
        lemma_count_none(tree, s, 0, f);
    } else {
        lemma_advance_rank(tree, s, (n - 1) as nat);
        lemma_next_pos_rank(tree, s, advance(tree, s, f, (n - 1) as nat));
    }
}

/// Moving focus on as many times as there are nodes that may be given
/// focus brings it back to where it started, the first such node, and no
/// smaller number of moves does.
pub proof fn lemma_advance_cycles(tree: Tree, s: Seq<NodeId>, n: nat)
    requires
        first_accepting(tree, s, 0) is Some,
    ensures
        ({
            let f = first_accepting(tree, s, 0)->Some_0;
            let total = count_accepting(tree, s, 0, s.len() as int);
            &&& total > 0
            &&& advance(tree, s, f, total) == f
            &&& 0 < n < total ==> advance(tree, s, f, n) != f
        }),
{
    let f = first_accepting(tree, s, 0)->Some_0;
    let total = count_accepting(tree, s, 0, s.len() as int);
    lemma_first_accepting(tree, s, 0);
    lemma_next_pos_rank(tree, s, f);
    lemma_advance_rank(tree, s, (total - 1) as nat);
    lemma_next_pos_rank(tree, s, advance(tree, s, f, (total - 1) as nat));
    if 0 < n < total {
        lemma_advance_rank(tree, s, n);
        lemma_count_none(tree, s, 0, f);
    }
}

/// Are `p` and `q` neighbours among the positions that hold a node that
/// may be given focus: both hold one, `p` comes first, and no position
/// between them holds one?
pub open spec fn neighbours(tree: Tree, s: Seq<NodeId>, p: int, q: int) -> bool {
    &&& 0 <= p < q < s.len()
    &&& accepts(tree, s[p] as int)
    &&& accepts(tree, s[q] as int)
    &&& forall|i: int| p < i < q ==> !accepts(tree, #[trigger] s[i] as int)
}

/// The node that has focus is found at its position in the preorder, and
/// nowhere before it.
pub proof fn lemma_focus_position(core: Canopy, tree: Tree, root: NodeId, p: int, from: int)
    requires
        tree.wf(),
        core.governs(tree),
        root < tree.size(),
        0 <= from <= p < preorder_seq(tree, root).len(),
        core.focused(tree, preorder_seq(tree, root)[p] as int),
    ensures
        first_stamped(tree, preorder_seq(tree, root), core.focus_gen, from) == Some(p),
{
    let s = preorder_seq(tree, root);
    lemma_preorder_in_tree(tree, root);
    lemma_preorder_distinct(tree, root);
    lemma_first_stamped(tree, s, core.focus_gen, from);
    let j = first_stamped(tree, s, core.focus_gen, from)->Some_0;
    assert(core.focused(tree, s[j] as int));
    if j < p {
        assert(s[j] != s[p]);
    }
}

/// With focus at position `p` of the preorder, `shift_next` moves it to
/// the position that comes next in the round of the nodes that may be given
/// focus.
pub proof fn lemma_next_from_position(core: Canopy, tree: Tree, root: NodeId, p: int)
    requires
        tree.wf(),
        core.governs(tree),
        root < tree.size(),
        0 <= p < preorder_seq(tree, root).len(),
        core.focused(tree, preorder_seq(tree, root)[p] as int),
    ensures
        next_target(tree, core.focus_gen, root) == match next_pos(
            tree,
            preorder_seq(tree, root),
            p,
        ) {
            Some(q) => Some(preorder_seq(tree, root)[q]),
            None => None,
        },
{
    lemma_focus_position(core, tree, root, p, 0);
}

/// With focus on a node that may be given focus, `shift_next` moves it to
/// the next such node in preorder.
pub proof fn lemma_next_neighbour(core: Canopy, tree: Tree, root: NodeId, p: int, q: int)
    requires
        tree.wf(),
        core.governs(tree),
        root < tree.size(),
        neighbours(tree, preorder_seq(tree, root), p, q),
        core.focused(tree, preorder_seq(tree, root)[p] as int),
    ensures
        next_target(tree, core.focus_gen, root) == Some(preorder_seq(tree, root)[q]),
{
    let s = preorder_seq(tree, root);
    lemma_focus_position(core, tree, root, p, 0);
    lemma_first_accepting(tree, s, p + 1);
}

/// With focus on a node that may be given focus, `shift_prev` moves it
/// back to the one before it in preorder, unless that one is `root`.
pub proof fn lemma_prev_neighbour(core: Canopy, tree: Tree, root: NodeId, p: int, q: int)
    requires
        tree.wf(),
        core.governs(tree),
        root < tree.size(),
        neighbours(tree, preorder_seq(tree, root), p, q),
        1 <= p,
        core.focused(tree, preorder_seq(tree, root)[q] as int),
    ensures
        prev_target(tree, core.focus_gen, root) == Some(preorder_seq(tree, root)[p]),
{
    let s = preorder_seq(tree, root);
    lemma_focus_position(core, tree, root, q, 1);
    lemma_last_accepting(tree, s, 1, q);
}

/// `shift_prev` takes back a step of `shift_next`: where `shift_next`
/// moves focus from one node that may be given focus to the one after it in
/// preorder, and the first of the two is not `root`, `shift_prev` then moves
/// focus back to the first.
pub proof fn lemma_prev_reverses_next(
    core: Canopy,
    tree: Tree,
    after: Canopy,
    tree_after: Tree,
    root: NodeId,
    p: int,
    q: int,
)
    requires
        tree.wf(),
        core.governs(tree),
        tree_after.wf(),
        after.governs(tree_after),
        root < tree.size(),
        neighbours(tree, preorder_seq(tree, root), p, q),
        1 <= p,
        core.focused(tree, preorder_seq(tree, root)[p] as int),
        focus_moved(core, tree, after, tree_after, next_target(tree, core.focus_gen, root)),
    ensures
        next_target(tree, core.focus_gen, root) == Some(preorder_seq(tree, root)[q]),
        after.holder(tree_after) == Some(preorder_seq(tree, root)[q]),
        prev_target(tree_after, after.focus_gen, root) == Some(preorder_seq(tree, root)[p]),
{
    let s = preorder_seq(tree, root);
    lemma_next_neighbour(core, tree, root, p, q);
    lemma_same_shape_same_order(tree, tree_after, root);
    lemma_preorder_in_tree(tree, root);
    assert forall|i: int| 0 <= i < s.len() implies accepts(tree_after, #[trigger] s[i] as int)
        == accepts(tree, s[i] as int) by {
        if s[i] != s[q] {
            assert(tree_after.state(s[i] as int) == tree.state(s[i] as int));
        }
    }
    assert(neighbours(tree_after, s, p, q));
    lemma_prev_neighbour(after, tree_after, root, p, q);
}

/// Do two trees agree on which nodes of a list may be given focus?
pub open spec fn same_candidates(a: Tree, b: Tree, s: Seq<NodeId>) -> bool {
    forall|i: int| 0 <= i < s.len() ==> accepts(a, #[trigger] s[i] as int) == accepts(b, s[i] as int)
}

/// Trees that agree on which nodes may be given focus agree on where focus
/// moves on to.
pub proof fn lemma_same_candidates(a: Tree, b: Tree, s: Seq<NodeId>, from: int)
    requires
        same_candidates(a, b, s),
    ensures
        first_accepting(b, s, from) == first_accepting(a, s, from),
    decreases s.len() - from,
{
    if 0 <= from < s.len() && !accepts(a, s[from] as int) {
        lemma_same_candidates(a, b, s, from + 1);
    }
}

/// Trees that agree on which nodes may be given focus agree on how many
/// nodes may be given it.
pub proof fn lemma_same_count(a: Tree, b: Tree, s: Seq<NodeId>, lo: int, hi: int)
    requires
        same_candidates(a, b, s),
    ensures
        count_accepting(b, s, lo, hi) == count_accepting(a, s, lo, hi),
    decreases hi - lo,
{
    if 0 <= lo < hi <= s.len() {
        lemma_same_count(a, b, s, lo, hi - 1);
    }
}

/// One step of the round: with focus at position `p` of the preorder,
/// `shift_next` leaves focus at the position that comes next in the round,
/// and leaves the round itself as it was, so that the steps can be told by
/// `advance`.
pub proof fn lemma_shift_next_step(
    core: Canopy,
    tree: Tree,
    after: Canopy,
    tree_after: Tree,
    root: NodeId,
    p: int,
)
    requires
        tree.wf(),
        core.governs(tree),
        tree_after.wf(),
        root < tree.size(),
        0 <= p < preorder_seq(tree, root).len(),
        accepts(tree, preorder_seq(tree, root)[p] as int),
        core.focused(tree, preorder_seq(tree, root)[p] as int),
        focus_moved(core, tree, after, tree_after, next_target(tree, core.focus_gen, root)),
    ensures
        preorder_seq(tree_after, root) == preorder_seq(tree, root),
        same_candidates(tree, tree_after, preorder_seq(tree, root)),
        count_accepting(
            tree_after,
            preorder_seq(tree, root),
            0,
            preorder_seq(tree, root).len() as int,
        ) == count_accepting(tree, preorder_seq(tree, root), 0, preorder_seq(tree, root).len() as int),
        ({
            let s = preorder_seq(tree, root);
            let q = advance(tree, s, p, 1);
            &&& 0 <= q < s.len()
            &&& accepts(tree_after, s[q] as int)
            &&& after.focused(tree_after, s[q] as int)
            &&& forall|n: nat| advance(tree_after, s, q, n) == advance(tree, s, p, n + 1)
        }),
{
    let s = preorder_seq(tree, root);
    lemma_next_from_position(core, tree, root, p);
    lemma_next_pos_rank(tree, s, p);
    lemma_same_shape_same_order(tree, tree_after, root);
    lemma_preorder_in_tree(tree, root);
    let q = next_pos(tree, s, p)->Some_0;
    assert(advance(tree, s, p, 0) == p);
    assert(advance(tree, s, p, 1) == q);
    assert forall|i: int| 0 <= i < s.len() implies accepts(tree, #[trigger] s[i] as int)
        == accepts(tree_after, s[i] as int) by {
        if s[i] != s[q] {
            assert(tree_after.state(s[i] as int) == tree.state(s[i] as int));
        }
    }
    assert forall|n: nat| advance(tree_after, s, q, n) == advance(tree, s, p, n + 1) by {
        lemma_advance_shift(tree, tree_after, s, p, q, n);
    }
    lemma_same_count(tree, tree_after, s, 0, s.len() as int);
}

/// Steps from where focus has moved on to are steps from where it was,
/// less one.
pub proof fn lemma_advance_shift(a: Tree, b: Tree, s: Seq<NodeId>, p: int, q: int, n: nat)
    requires
        same_candidates(a, b, s),
        advance(a, s, p, 1) == q,
    ensures
        advance(b, s, q, n) == advance(a, s, p, n + 1),
    decreases n,
{
    assert(advance(a, s, p, 0) == p);
    if n > 0 {
        lemma_advance_shift(a, b, s, p, q, (n - 1) as nat);
        let at = advance(a, s, p, n);
        lemma_same_candidates(a, b, s, at + 1);
        lemma_same_candidates(a, b, s, 0);
        if next_pos(a, s, at) is None {
            assert(first_accepting(a, s, 0) is None);
            assert(next_pos(a, s, p) is None) by {
                lemma_first_accepting(a, s, 0);
                if p + 1 >= 0 {
                    lemma_first_accepting(a, s, p + 1);
                }
            }
        }
    }
}

} // verus!
