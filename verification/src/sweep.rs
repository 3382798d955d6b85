use vstd::prelude::*;
use crate::canopy::{lemma_governs_kept, Canopy};
use crate::order::{lemma_preorder_in_tree, preorder_ids, preorder_seq};
use crate::outcome::Outcome;
use crate::state::NodeState;
use crate::trail::{trail, trail_to, Probe};
use crate::tree::{list_has, NodeId, Tree};

verus! {

/// The steps of a sweep, in the order in which it goes through them.
#[derive(Clone, Copy, Debug, PartialEq, Eq, Structural)]
pub enum Phase {
    /// Waiting for an event.
    Idle,
    /// Fitting the nodes and laying them out.
    FitLayout,
    /// Painting the nodes that are due.
    Render,
    /// Handing what was painted to the screen.
    Flush,
}

impl Phase {
    /// The step after this one.
    pub open spec fn successor(self) -> Phase {
        match self {
            Phase::Idle => Phase::FitLayout,
            Phase::FitLayout => Phase::Render,
            Phase::Render => Phase::Flush,
            Phase::Flush => Phase::Idle,
        }
    }

    /// The step after this one.
    pub fn next(self) -> (p: Phase)
        ensures
            p == self.successor(),
    {
        match self {
            Phase::Idle => Phase::FitLayout,
            Phase::FitLayout => Phase::Render,
            Phase::Render => Phase::Flush,
            Phase::Flush => Phase::Idle,
        }
    }
}

/// A sweep goes through all four steps and comes back to where it began.
pub proof fn lemma_phases_cycle(p: Phase)
    ensures
        p.successor().successor().successor().successor() == p,
        p.successor() != p,
        Phase::Idle.successor() == Phase::FitLayout,
        Phase::FitLayout.successor() == Phase::Render,
        Phase::Render.successor() == Phase::Flush,
        Phase::Flush.successor() == Phase::Idle,
{
}

/// Is `i` the identity of a node that the list holds?
pub open spec fn listed(s: Seq<NodeId>, i: int) -> bool {
    exists|w: int| 0 <= w < s.len() && s[w] == i
}

impl Canopy {
    /// Is node `id` on the focus path of the subtree at `root` as it is
    /// now, or as it was at the end of the last sweep?
    pub open spec fn on_focus_path(self, tree: Tree, root: NodeId, id: NodeId) -> bool {
        trail(tree, root, Probe::Focus(self.focus_gen)).contains(id) || trail(
            tree,
            root,
            Probe::Focus(self.last_render_focus_gen),
        ).contains(id)
    }

    /// Is node `id` due for painting in the sweep that is under way? It is
    /// where its own wish says so; or where it was marked for this sweep and
    /// its own wish does not say otherwise; or where focus has moved since
    /// the last sweep and the node is on the focus path as it was or as it
    /// is.
    pub open spec fn due(self, tree: Tree, root: NodeId, id: NodeId, wish: Option<bool>) -> bool {
        ||| wish == Some(true)
        ||| (tree.state(id as int).render_gen == self.render_gen && wish != Some(false))
        ||| (self.focus_gen != self.last_render_focus_gen && self.on_focus_path(tree, root, id))
    }

    /// Marks node `id` for painting in the next sweep, and notes that
    /// something has changed.
    pub fn taint(&mut self, tree: &mut Tree, id: NodeId)
        requires
            old(tree).wf(),
            id < old(tree).size(),
            old(self).render_gen < u64::MAX,
        ensures
            final(tree).wf(),
            final(tree).same_shape(*old(tree)),
            *final(self) == (Canopy { taint: true, ..*old(self) }),
            old(self).governs(*old(tree)) ==> final(self).governs(*final(tree)),
            final(tree).state(id as int) == (NodeState {
                render_gen: (old(self).render_gen + 1) as u64,
                ..old(tree).state(id as int)
            }),
            forall|i: int|
                0 <= i < old(tree).size() && i != id ==> #[trigger] final(tree).state(i) == old(
                    tree,
                ).state(i),
    {
        let s = tree.node_state(id);
        tree.set_node_state(
            id,
            NodeState {
                focus_gen: s.focus_gen,
                render_gen: self.render_gen + 1,
                hidden: s.hidden,
                viewport: s.viewport,
            },
        );
        self.taint = true;
        proof {
            if old(self).governs(*old(tree)) {
                lemma_governs_kept(*old(self), *old(tree), *self, *tree);
            }
        }
    }

    /// Is node `id` marked for painting in the next sweep?
    pub fn is_tainted(&self, tree: &Tree, id: NodeId) -> (b: bool)
        requires
            tree.wf(),
            id < tree.size(),
        ensures
            b == (tree.state(id as int).render_gen == self.render_gen + 1),
    {
        self.render_gen < u64::MAX && tree.node_state(id).render_gen == self.render_gen + 1
    }

    /// Starts a sweep: the render counter goes up by one, so that the nodes
    /// marked since the last sweep are now due, and the note that something
    /// has changed is taken down.
    pub fn begin_sweep(&mut self)
        requires
            old(self).render_gen < u64::MAX,
        ensures
            *final(self) == (Canopy {
                render_gen: (old(self).render_gen + 1) as u64,
                taint: false,
                ..*old(self)
            }),
    {
        self.render_gen = self.render_gen + 1;
        self.taint = false;
    }

    /// Ends a sweep: the focus counter is remembered, so that the next
    /// sweep can tell whether focus has moved.
    pub fn end_sweep(&mut self)
        ensures
            *final(self) == (Canopy { last_render_focus_gen: old(self).focus_gen, ..*old(self) }),
    {
        self.last_render_focus_gen = self.focus_gen;
    }

    /// Is another sweep called for after an event with the given outcome?
    /// It is where the event was handled or something has changed; an
    /// ignored event that changed nothing leaves the screen as it is.
    pub fn needs_sweep(&self, outcome: Outcome) -> (b: bool)
        ensures
            b == (outcome is Handle || self.taint),
    {
        outcome.is_handled() || self.taint
    }

    /// Is node `id` due for painting in the sweep that is under way, given
    /// the node's own wish in the matter?
    pub fn should_render(&self, tree: &Tree, root: NodeId, id: NodeId, wish: Option<bool>) -> (b:
        bool)
        requires
            tree.wf(),
            root < tree.size(),
            id < tree.size(),
        ensures
            b == self.due(*tree, root, id, wish),
    {
        match wish {
            Some(true) => {
                return true;
            },
            Some(false) => {},
            None => {
                if tree.node_state(id).render_gen == self.render_gen {
                    return true;
                }
            },
        }
        if self.focus_gen != self.last_render_focus_gen {
            let now = trail_to(tree, root, Probe::Focus(self.focus_gen));
            let then = trail_to(tree, root, Probe::Focus(self.last_render_focus_gen));
            list_has(&now, id) || list_has(&then, id)
        } else {
            false
        }
    }
}

/// What marking a subtree leaves behind: every node of the subtree at `id`
/// is marked for painting in the next sweep, nothing else about the tree has
/// changed, and the change is noted.
pub open spec fn tree_tainted(
    before: Canopy,
    tree_before: Tree,
    after: Canopy,
    tree_after: Tree,
    id: NodeId,
) -> bool {
    &&& after == (Canopy { taint: true, ..before })
    &&& tree_after.same_shape(tree_before)
    &&& forall|i: int|
        0 <= i < tree_before.size() ==> #[trigger] tree_after.state(i) == (if listed(
            preorder_seq(tree_before, id),
            i,
        ) {
            NodeState { render_gen: (before.render_gen + 1) as u64, ..tree_before.state(i) }
        } else {
            tree_before.state(i)
        })
}

/// The nodes that a sweep paints among those of the subtree at `id`, in
/// the order in which it paints them: a hidden node is left out with all its
/// subtree; of the others, those that are due, each before its children, the
/// children in their declared order.
pub open spec fn plan(
    core: Canopy,
    tree: Tree,
    root: NodeId,
    id: NodeId,
    wishes: Seq<Option<bool>>,
) -> Seq<NodeId>
    decreases tree.size() - id, 1nat, 0nat,
{
    if tree.state(id as int).hidden {
        Seq::empty()
    } else {
        (if core.due(tree, root, id, wishes[id as int]) {
            seq![id]
        } else {
            Seq::empty()
        }) + plan_rest(core, tree, root, id, 0, wishes)
    }
}

/// The nodes that a sweep paints in the subtrees of `id` from the `k`-th
/// on.
pub open spec fn plan_rest(
    core: Canopy,
    tree: Tree,
    root: NodeId,
    id: NodeId,
    k: nat,
    wishes: Seq<Option<bool>>,
) -> Seq<NodeId>
    decreases tree.size() - id, 0nat, tree.children(id as int).len() - k,
{
    if id >= tree.size() || k >= tree.children(id as int).len() {
        Seq::empty()
    } else {
        let c = tree.children(id as int)[k as int];
        if c <= id || c >= tree.size() {
            Seq::empty()
        } else {
            plan(core, tree, root, c, wishes) + plan_rest(core, tree, root, id, k + 1, wishes)
        }
    }
}

/// Lists the nodes to paint in the subtree at `id`, given the focus paths
/// as they are and as they were.
fn plan_from(
    core: &Canopy,
    tree: &Tree,
    root: NodeId,
    id: NodeId,
    wishes: &Vec<Option<bool>>,
    now: &Vec<NodeId>,
    then: &Vec<NodeId>,
) -> (out: Vec<NodeId>)
    requires
        tree.wf(),
        root < tree.size(),
        id < tree.size(),
        wishes@.len() == tree.size(),
        now@ == trail(*tree, root, Probe::Focus(core.focus_gen)),
        then@ == trail(*tree, root, Probe::Focus(core.last_render_focus_gen)),
    ensures
        out@ == plan(*core, *tree, root, id, wishes@),
    decreases tree.size() - id,
{
    let mut out: Vec<NodeId> = Vec::new();
    let s = tree.node_state(id);
    if s.hidden {
        return out;
    }
    let due = match wishes[id] {
        Some(true) => true,
        Some(false) => false,
        None => s.render_gen == core.render_gen,
    } || (core.focus_gen != core.last_render_focus_gen && (list_has(now, id) || list_has(then, id)));
    if due {
        out.push(id);
    }
    let n = tree.child_count(id);
    let mut k: usize = 0;
    while k < n
        invariant
            tree.wf(),
            root < tree.size(),
            id < tree.size(),
            wishes@.len() == tree.size(),
            now@ == trail(*tree, root, Probe::Focus(core.focus_gen)),
            then@ == trail(*tree, root, Probe::Focus(core.last_render_focus_gen)),
            n == tree.children(id as int).len(),
            k <= n,
            out@ + plan_rest(*core, *tree, root, id, k as nat, wishes@) == plan(
                *core,
                *tree,
                root,
                id,
                wishes@,
            ),
        decreases n - k,
    {
        let c = tree.child(id, k);
        let mut sub = plan_from(core, tree, root, c, wishes, now, then);
        proof {
            assert(out@ + (sub@ + plan_rest(*core, *tree, root, id, (k + 1) as nat, wishes@)) == (
            out@ + sub@) + plan_rest(*core, *tree, root, id, (k + 1) as nat, wishes@));
        }
        out.append(&mut sub);
        k = k + 1;
    }
    proof {
        assert(out@ + Seq::<NodeId>::empty() == out@);
    }
    out
}

impl Canopy {
    /// The nodes that the sweep under way has to paint, in the order in
    /// which to paint them. `wishes` holds, for every node of the tree, the
    /// node's own wish to be painted or not, if it has one.
    pub fn render_plan(&self, tree: &Tree, root: NodeId, wishes: &Vec<Option<bool>>) -> (out: Vec<
        NodeId,
    >)
        requires
            tree.wf(),
            root < tree.size(),
            wishes@.len() == tree.size(),
        ensures
            out@ == plan(*self, *tree, root, root, wishes@),
    {
        let now = trail_to(tree, root, Probe::Focus(self.focus_gen));
        let then = trail_to(tree, root, Probe::Focus(self.last_render_focus_gen));
        plan_from(self, tree, root, root, wishes, &now, &then)
    }

    /// Marks every node of the subtree at `id` for painting in the next
    /// sweep, and notes that something has changed.
    pub fn taint_tree(&mut self, tree: &mut Tree, id: NodeId)
        requires
            old(tree).wf(),
            id < old(tree).size(),
            old(self).render_gen < u64::MAX,
        ensures
            final(tree).wf(),
            final(tree).same_shape(*old(tree)),
            *final(self) == (Canopy { taint: true, ..*old(self) }),
            old(self).governs(*old(tree)) ==> final(self).governs(*final(tree)),
            tree_tainted(*old(self), *old(tree), *final(self), *final(tree), id),
    {
        let order = preorder_ids(tree, id);
        proof {
            lemma_preorder_in_tree(*tree, id);
        }
        self.taint = true;
        let mark = self.render_gen + 1;
        let mut k: usize = 0;
        while k < order.len()
            invariant
                tree.wf(),
                tree.same_shape(*old(tree)),
                k <= order@.len(),
                order@ == preorder_seq(*old(tree), id),
                forall|i: int| 0 <= i < order@.len() ==> #[trigger] order@[i] < old(tree).size(),
                mark == old(self).render_gen + 1,
                *self == (Canopy { taint: true, ..*old(self) }),
                forall|i: int|
                    0 <= i < old(tree).size() ==> #[trigger] tree.state(i) == (if listed(
                        order@.subrange(0, k as int),
                        i,
                    ) {
                        NodeState { render_gen: mark, ..old(tree).state(i) }
                    } else {
                        old(tree).state(i)
                    }),
            decreases order@.len() - k,
        {
            let n = order[k];
            let s = tree.node_state(n);
            let ghost before = *tree;
            tree.set_node_state(
                n,
                NodeState {
                    focus_gen: s.focus_gen,
                    render_gen: mark,
                    hidden: s.hidden,
                    viewport: s.viewport,
                },
            );
            proof {
                let done = order@.subrange(0, k as int);
                let more = order@.subrange(0, k + 1);
                assert(more[k as int] == n);
                assert forall|i: int| 0 <= i < old(tree).size() implies #[trigger] tree.state(i)
                    == (if listed(more, i) {
                    NodeState { render_gen: mark, ..old(tree).state(i) }
                } else {
                    old(tree).state(i)
                }) by {
                    if i != n {
                        assert(tree.state(i) == before.state(i));
                        if listed(done, i) {
                            let w = choose|w: int| 0 <= w < done.len() && done[w] == i;
                            assert(more[w] == i);
                        }
                        if listed(more, i) {
                            let w = choose|w: int| 0 <= w < more.len() && more[w] == i;
                            assert(done[w] == i);
                        }
                    }
                }
            }
            k = k + 1;
        }
        proof {
            assert(order@.subrange(0, order@.len() as int) == order@);
            if old(self).governs(*old(tree)) {
                lemma_governs_kept(*old(self), *old(tree), *self, *tree);
            }
        }
    }
}

} // verus!
