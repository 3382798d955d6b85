use vstd::prelude::*;
use crate::geom::point::Point;
use crate::tree::{NodeId, Tree};

verus! {

/// What a search of the tree looks for.
#[derive(Clone, Copy, Debug, PartialEq, Eq, Structural)]
pub enum Probe {
    /// The visible node that was stamped with this value of the focus
    /// counter.
    Focus(u64),
    /// A visible node whose screen rectangle covers this point.
    Point(Point),
}

impl Probe {
    /// Is node `id` what the probe looks for? A hidden node never is.
    pub open spec fn hits(self, tree: Tree, id: int) -> bool {
        !tree.state(id).hidden && match self {
            Probe::Focus(g) => tree.state(id).focus_gen == g,
            Probe::Point(p) => tree.state(id).viewport.screen_area().covers(p),
        }
    }

    /// Is node `id` what the probe looks for?
    pub fn matches(&self, tree: &Tree, id: NodeId) -> (b: bool)
        requires
            tree.wf(),
            id < tree.size(),
        ensures
            b == self.hits(*tree, id as int),
    {
        let s = tree.node_state(id);
        if s.hidden {
            false
        } else {
            match self {
                Probe::Focus(g) => s.focus_gen == *g,
                Probe::Point(p) => s.viewport.screen_rect().contains_point(*p),
            }
        }
    }
}

/// The way from the first node in the postorder of the subtree at `id` that
/// the probe hits, up to `id`: that node first, then its parent, and so on,
/// with `id` last. Empty where the probe hits no node of the subtree.
pub open spec fn trail(tree: Tree, id: NodeId, probe: Probe) -> Seq<NodeId>
    decreases tree.size() - id, 1nat, 0nat,
{
    let below = trail_rest(tree, id, 0, probe);
    if below.len() > 0 {
        below.push(id)
    } else if probe.hits(tree, id as int) {
        seq![id]
    } else {
        Seq::empty()
    }
}

/// The trail within the first of the subtrees of `id`, from the `k`-th on,
/// that has one.
pub open spec fn trail_rest(tree: Tree, id: NodeId, k: nat, probe: Probe) -> Seq<NodeId>
    decreases tree.size() - id, 0nat, tree.children(id as int).len() - k,
{
    if id >= tree.size() || k >= tree.children(id as int).len() {
        Seq::empty()
    } else {
        let c = tree.children(id as int)[k as int];
        if c <= id || c >= tree.size() {
            Seq::empty()
        } else {
            let t = trail(tree, c, probe);
            if t.len() > 0 {
                t
            } else {
                trail_rest(tree, id, k + 1, probe)
            }
        }
    }
}

/// A trail starts at a node that the probe hits, ends at the node it was
/// sought from, and each of its nodes is a child of the next.
pub proof fn lemma_trail_shape(tree: Tree, id: NodeId, probe: Probe)
    requires
        tree.wf(),
        id < tree.size(),
    ensures
        ({
            let t = trail(tree, id, probe);
            t.len() > 0 ==> {
                &&& t.last() == id
                &&& probe.hits(tree, t[0] as int)
                &&& forall|i: int| 0 <= i < t.len() ==> id <= #[trigger] t[i] < tree.size()
                &&& forall|i: int|
                    0 <= i < t.len() - 1 ==> tree.children(t[i + 1] as int).contains(#[trigger] t[i])
            }
        }),
    decreases tree.size() - id, 1nat, 0nat,
{
    lemma_trail_rest_shape(tree, id, 0, probe);
    let below = trail_rest(tree, id, 0, probe);
    let t = trail(tree, id, probe);
    if below.len() > 0 {
        assert forall|i: int| 0 <= i < t.len() - 1 implies tree.children(t[i + 1] as int).contains(
            #[trigger] t[i],
        ) by {
            if i < below.len() - 1 {
                assert(t[i] == below[i] && t[i + 1] == below[i + 1]);
            } else {
                assert(t[i] == below.last());
            }
        }
    }
}

/// A trail found among the subtrees of `id` starts at a node that the probe
/// hits and ends at a child of `id`.
pub proof fn lemma_trail_rest_shape(tree: Tree, id: NodeId, k: nat, probe: Probe)
    requires
        tree.wf(),
        id < tree.size(),
    ensures
        ({
            let t = trail_rest(tree, id, k, probe);
            t.len() > 0 ==> {
                &&& tree.children(id as int).contains(t.last())
                &&& probe.hits(tree, t[0] as int)
                &&& forall|i: int| 0 <= i < t.len() ==> id < #[trigger] t[i] < tree.size()
                &&& forall|i: int|
                    0 <= i < t.len() - 1 ==> tree.children(t[i + 1] as int).contains(#[trigger] t[i])
            }
        }),
    decreases tree.size() - id, 0nat, tree.children(id as int).len() - k,
{
    if k < tree.children(id as int).len() {
        let c = tree.children(id as int)[k as int];
        lemma_trail_shape(tree, c, probe);
        lemma_trail_rest_shape(tree, id, k + 1, probe);
    }
}

/// Searches the subtree at `id` for the first node, children before
/// parents and in their declared order, that the probe hits, and returns the
/// way from that node up to `id`. The result is empty where there is no
/// such node.
pub fn trail_to(tree: &Tree, id: NodeId, probe: Probe) -> (t: Vec<NodeId>)
    requires
        tree.wf(),
        id < tree.size(),
    ensures
        t@ == trail(*tree, id, probe),
    decreases tree.size() - id,
{
    let n = tree.child_count(id);
    let mut k: usize = 0;
    while k < n
        invariant
            tree.wf(),
            id < tree.size(),
            n == tree.children(id as int).len(),
            k <= n,
            trail_rest(*tree, id, k as nat, probe) == trail_rest(*tree, id, 0, probe),
        decreases n - k,
    {
        let c = tree.child(id, k);
        let mut t = trail_to(tree, c, probe);
        if t.len() > 0 {
            t.push(id);
            return t;
        }
        k = k + 1;
    }
    let mut t: Vec<NodeId> = Vec::new();
    if probe.matches(tree, id) {
        t.push(id);
    }
    t
}

} // verus!
