use vstd::prelude::*;
use crate::error::Error;
use crate::node::{postorder_rest, postorder_spec, preorder_rest, preorder_spec, Visitor};
use crate::tree::{NodeId, Tree};
use crate::walker::SkipWalker;

verus! {

/// The nodes of the subtree at `id` in preorder: the node, then the nodes
/// of each of its subtrees, in the declared order of its children.
pub open spec fn preorder_seq(tree: Tree, id: NodeId) -> Seq<NodeId>
    decreases tree.size() - id, 1nat, 0nat,
{
    seq![id] + preorder_seq_rest(tree, id, 0)
}

/// The nodes of the subtrees of `id` from the `k`-th on, in preorder.
pub open spec fn preorder_seq_rest(tree: Tree, id: NodeId, k: nat) -> Seq<NodeId>
    decreases tree.size() - id, 0nat, tree.children(id as int).len() - k,
{
    if id >= tree.size() || k >= tree.children(id as int).len() {
        Seq::empty()
    } else {
        let c = tree.children(id as int)[k as int];
        if c <= id || c >= tree.size() {
            Seq::empty()
        } else {
            preorder_seq(tree, c) + preorder_seq_rest(tree, id, k + 1)
        }
    }
}

/// The nodes of the subtree at `id` in postorder: the nodes of each of its
/// subtrees, in the declared order of its children, then the node.
pub open spec fn postorder_seq(tree: Tree, id: NodeId) -> Seq<NodeId>
    decreases tree.size() - id, 1nat, 0nat,
{
    postorder_seq_rest(tree, id, 0).push(id)
}

/// The nodes of the subtrees of `id` from the `k`-th on, in postorder.
pub open spec fn postorder_seq_rest(tree: Tree, id: NodeId, k: nat) -> Seq<NodeId>
    decreases tree.size() - id, 0nat, tree.children(id as int).len() - k,
{
    if id >= tree.size() || k >= tree.children(id as int).len() {
        Seq::empty()
    } else {
        let c = tree.children(id as int)[k as int];
        if c <= id || c >= tree.size() {
            Seq::empty()
        } else {
            postorder_seq(tree, c) + postorder_seq_rest(tree, id, k + 1)
        }
    }
}

/// Every node that a preorder lists belongs to the tree and does not come
/// before the node that the listing starts from.
pub proof fn lemma_preorder_in_tree(tree: Tree, id: NodeId)
    requires
        tree.wf(),
        id < tree.size(),
    ensures
        preorder_seq(tree, id).len() >= 1,
        preorder_seq(tree, id)[0] == id,
        forall|i: int|
            0 <= i < preorder_seq(tree, id).len() ==> id <= #[trigger] preorder_seq(tree, id)[i]
                < tree.size(),
    decreases tree.size() - id, 1nat, 0nat,
{
    lemma_preorder_rest_in_tree(tree, id, 0);
    let rest = preorder_seq_rest(tree, id, 0);
    assert forall|i: int| 0 <= i < preorder_seq(tree, id).len() implies id
        <= #[trigger] preorder_seq(tree, id)[i] < tree.size() by {
        if i > 0 {
            assert(preorder_seq(tree, id)[i] == rest[i - 1]);
        }
    }
}

/// Every node that the rest of a preorder lists belongs to the tree and
/// comes after the parent.
pub proof fn lemma_preorder_rest_in_tree(tree: Tree, id: NodeId, k: nat)
    requires
        tree.wf(),
        id < tree.size(),
    ensures
        forall|i: int|
            0 <= i < preorder_seq_rest(tree, id, k).len() ==> id < #[trigger] preorder_seq_rest(
                tree,
                id,
                k,
            )[i] < tree.size(),
    decreases tree.size() - id, 0nat, tree.children(id as int).len() - k,
{
    if k < tree.children(id as int).len() {
        let c = tree.children(id as int)[k as int];
        lemma_preorder_in_tree(tree, c);
        lemma_preorder_rest_in_tree(tree, id, k + 1);
        let head = preorder_seq(tree, c);
        let tail = preorder_seq_rest(tree, id, k + 1);
        assert forall|i: int| 0 <= i < preorder_seq_rest(tree, id, k).len() implies id
            < #[trigger] preorder_seq_rest(tree, id, k)[i] < tree.size() by {
            if i < head.len() {
                assert(preorder_seq_rest(tree, id, k)[i] == head[i]);
            } else {
                assert(preorder_seq_rest(tree, id, k)[i] == tail[i - head.len()]);
            }
        }
    }
}

/// Two trees of the same shape have the same preorder.
pub proof fn lemma_same_shape_same_order(a: Tree, b: Tree, id: NodeId)
    requires
        a.wf(),
        b.same_shape(a),
        id < a.size(),
    ensures
        preorder_seq(b, id) == preorder_seq(a, id),
    decreases a.size() - id, 1nat, 0nat,
{
    lemma_same_shape_same_rest(a, b, id, 0);
}

/// Two trees of the same shape list the same nodes below a node.
pub proof fn lemma_same_shape_same_rest(a: Tree, b: Tree, id: NodeId, k: nat)
    requires
        a.wf(),
        b.same_shape(a),
        id < a.size(),
    ensures
        preorder_seq_rest(b, id, k) == preorder_seq_rest(a, id, k),
    decreases a.size() - id, 0nat, a.children(id as int).len() - k,
{
    assert(b.children(id as int) == a.children(id as int));
    if k < a.children(id as int).len() {
        let c = a.children(id as int)[k as int];
        lemma_same_shape_same_order(a, b, c);
        lemma_same_shape_same_rest(a, b, id, k + 1);
    }
}

/// The nodes of the subtree at `id`, in preorder.
pub fn preorder_ids(tree: &Tree, id: NodeId) -> (v: Vec<NodeId>)
    requires
        tree.wf(),
        id < tree.size(),
    ensures
        v@ == preorder_seq(*tree, id),
    decreases tree.size() - id,
{
    let mut out: Vec<NodeId> = Vec::new();
    out.push(id);
    let n = tree.child_count(id);
    let mut k: usize = 0;
    while k < n
        invariant
            tree.wf(),
            id < tree.size(),
            n == tree.children(id as int).len(),
            k <= n,
            out@ + preorder_seq_rest(*tree, id, k as nat) == preorder_seq(*tree, id),
        decreases n - k,
    {
        let c = tree.child(id, k);
        let mut sub = preorder_ids(tree, c);
        proof {
            assert(out@ + (sub@ + preorder_seq_rest(*tree, id, (k + 1) as nat)) == (out@ + sub@)
                + preorder_seq_rest(*tree, id, (k + 1) as nat));
        }
        out.append(&mut sub);
        k = k + 1;
    }
    proof {
        assert(out@ + Seq::<NodeId>::empty() == out@);
    }
    out
}

/// The nodes of the subtree at `id`, in postorder.
pub fn postorder_ids(tree: &Tree, id: NodeId) -> (v: Vec<NodeId>)
    requires
        tree.wf(),
        id < tree.size(),
    ensures
        v@ == postorder_seq(*tree, id),
    decreases tree.size() - id,
{
    let mut out: Vec<NodeId> = Vec::new();
    let n = tree.child_count(id);
    let mut k: usize = 0;
    while k < n
        invariant
            tree.wf(),
            id < tree.size(),
            n == tree.children(id as int).len(),
            k <= n,
            out@ + postorder_seq_rest(*tree, id, k as nat) == postorder_seq_rest(*tree, id, 0),
        decreases n - k,
    {
        let c = tree.child(id, k);
        let mut sub = postorder_ids(tree, c);
        proof {
            assert(out@ + (sub@ + postorder_seq_rest(*tree, id, (k + 1) as nat)) == (out@ + sub@)
                + postorder_seq_rest(*tree, id, (k + 1) as nat));
        }
        out.append(&mut sub);
        k = k + 1;
    }
    proof {
        assert(out@ + Seq::<NodeId>::empty() == out@);
    }
    out.push(id);
    out
}

/// A visitor that keeps a list of the nodes it is shown, in the order in
/// which it is shown them, and asks to skip at nodes of one chosen name.
pub struct Recorder {
    /// The nodes seen so far.
    pub seen: Vec<NodeId>,
    /// The name of the nodes at which to skip.
    pub skip_name: String,
}

/// What a `Recorder` holds.
pub ghost struct Recorded {
    pub seen: Seq<NodeId>,
    pub skip_name: Seq<char>,
}

impl Recorder {
    /// A recorder that has seen nothing yet.
    pub fn new(skip_name: &str) -> (r: Recorder)
        ensures
            r.seen@ == Seq::<NodeId>::empty(),
            r.skip_name@ == skip_name@,
    {
        Recorder { seen: Vec::new(), skip_name: skip_name.to_owned() }
    }
}

impl Visitor<SkipWalker> for Recorder {
    type Model = Recorded;

    open spec fn model(&self) -> Recorded {
        Recorded { seen: self.seen@, skip_name: self.skip_name@ }
    }

    open spec fn step(m: Recorded, tree: Tree, id: NodeId) -> (Recorded, Result<SkipWalker, Error>) {
        (
            Recorded { seen: m.seen.push(id), skip_name: m.skip_name },
            Ok(SkipWalker { has_skip: tree.name(id as int) == m.skip_name }),
        )
    }

    fn visit(&mut self, tree: &Tree, id: NodeId) -> (r: Result<SkipWalker, Error>) {
        self.seen.push(id);
        Ok(SkipWalker { has_skip: tree.name_is(id, &self.skip_name) })
    }
}

/// Does no node of the tree have the given name?
pub open spec fn name_unused(tree: Tree, name: Seq<char>) -> bool {
    forall|i: int| 0 <= i < tree.size() ==> #[trigger] tree.name(i) != name
}

/// A preorder traversal that is never asked to skip shows its visitor the
/// nodes of the subtree in preorder, each once: every node before its
/// children, and the children in their declared order.
pub proof fn lemma_preorder_visits_in_order(m: Recorded, tree: Tree, id: NodeId)
    requires
        tree.wf(),
        id < tree.size(),
        name_unused(tree, m.skip_name),
    ensures
        preorder_spec::<SkipWalker, Recorder>(m, tree, id) == (
            Recorded { seen: m.seen + preorder_seq(tree, id), skip_name: m.skip_name },
            Ok::<SkipWalker, Error>(SkipWalker { has_skip: false }),
        ),
    decreases tree.size() - id, 1nat, 0nat,
{
    let m1 = Recorded { seen: m.seen.push(id), skip_name: m.skip_name };
    lemma_preorder_rest_visits_in_order(m1, tree, id, 0);
    assert(m.seen.push(id) + preorder_seq_rest(tree, id, 0) == m.seen + preorder_seq(tree, id));
}

/// The rest of a preorder traversal that is never asked to skip shows its
/// visitor the remaining subtrees in preorder.
pub proof fn lemma_preorder_rest_visits_in_order(m: Recorded, tree: Tree, id: NodeId, k: nat)
    requires
        tree.wf(),
        id < tree.size(),
        name_unused(tree, m.skip_name),
    ensures
        preorder_rest::<SkipWalker, Recorder>(m, tree, id, k, SkipWalker { has_skip: false }) == (
            Recorded { seen: m.seen + preorder_seq_rest(tree, id, k), skip_name: m.skip_name },
            Ok::<SkipWalker, Error>(SkipWalker { has_skip: false }),
        ),
    decreases tree.size() - id, 0nat, tree.children(id as int).len() - k,
{
    if k < tree.children(id as int).len() {
        let c = tree.children(id as int)[k as int];
        lemma_preorder_visits_in_order(m, tree, c);
        let m1 = Recorded { seen: m.seen + preorder_seq(tree, c), skip_name: m.skip_name };
        lemma_preorder_rest_visits_in_order(m1, tree, id, k + 1);
        assert((m.seen + preorder_seq(tree, c)) + preorder_seq_rest(tree, id, k + 1) == m.seen
            + preorder_seq_rest(tree, id, k));
    } else {
        assert(m.seen + Seq::<NodeId>::empty() == m.seen);
    }
}

/// A postorder traversal that is never asked to skip shows its visitor the
/// nodes of the subtree in postorder, each once: the children in their
/// declared order, and every node after its children.
pub proof fn lemma_postorder_visits_in_order(m: Recorded, tree: Tree, id: NodeId)
    requires
        tree.wf(),
        id < tree.size(),
        name_unused(tree, m.skip_name),
    ensures
        postorder_spec::<SkipWalker, Recorder>(m, tree, id) == (
            Recorded { seen: m.seen + postorder_seq(tree, id), skip_name: m.skip_name },
            Ok::<SkipWalker, Error>(SkipWalker { has_skip: false }),
        ),
    decreases tree.size() - id, 1nat, 0nat,
{
    lemma_postorder_rest_visits_in_order(m, tree, id, 0);
    assert((m.seen + postorder_seq_rest(tree, id, 0)).push(id) == m.seen + postorder_seq(
        tree,
        id,
    ));
}

/// The rest of a postorder traversal that is never asked to skip shows its
/// visitor the remaining subtrees in postorder.
pub proof fn lemma_postorder_rest_visits_in_order(m: Recorded, tree: Tree, id: NodeId, k: nat)
    requires
        tree.wf(),
        id < tree.size(),
        name_unused(tree, m.skip_name),
    ensures
        postorder_rest::<SkipWalker, Recorder>(m, tree, id, k, SkipWalker { has_skip: false })
            == (
            Recorded { seen: m.seen + postorder_seq_rest(tree, id, k), skip_name: m.skip_name },
            Ok::<SkipWalker, Error>(SkipWalker { has_skip: false }),
        ),
    decreases tree.size() - id, 0nat, tree.children(id as int).len() - k,
{
    if k < tree.children(id as int).len() {
        let c = tree.children(id as int)[k as int];
        lemma_postorder_visits_in_order(m, tree, c);
        let m1 = Recorded { seen: m.seen + postorder_seq(tree, c), skip_name: m.skip_name };
        lemma_postorder_rest_visits_in_order(m1, tree, id, k + 1);
        assert((m.seen + postorder_seq(tree, c)) + postorder_seq_rest(tree, id, k + 1) == m.seen
            + postorder_seq_rest(tree, id, k));
    } else {
        assert(m.seen + Seq::<NodeId>::empty() == m.seen);
    }
}

} // verus!
