use vstd::prelude::*;
use crate::state::NodeState;
use crate::tree::{NodeId, Tree};

verus! {

/// The state that all nodes of an application share: the counters by which
/// focus and repainting are told, and the flag that says whether anything
/// changed since the last sweep.
#[derive(Clone, Copy, Debug, PartialEq, Eq, Structural)]
pub struct Canopy {
    /// Counts the changes of focus. The node that was stamped with the
    /// current value has focus.
    pub focus_gen: u64,
    /// The value of `focus_gen` at the end of the last render sweep.
    pub last_render_focus_gen: u64,
    /// Counts the render sweeps. A sweep paints the nodes that were stamped
    /// with its value of the counter.
    pub render_gen: u64,
    /// Has anything changed since the last sweep?
    pub taint: bool,
}

impl Canopy {
    /// Does node `id` have focus?
    pub open spec fn focused(self, tree: Tree, id: int) -> bool {
        tree.state(id).focus_gen == self.focus_gen
    }

    /// No node was stamped with a counter value that is yet to come, and at
    /// most one node has focus.
    pub open spec fn governs(self, tree: Tree) -> bool {
        &&& self.last_render_focus_gen <= self.focus_gen
        &&& forall|i: int|
            0 <= i < tree.size() ==> (#[trigger] tree.state(i)).focus_gen <= self.focus_gen
        &&& forall|i: int, j: int|
            0 <= i < tree.size() && 0 <= j < tree.size() && #[trigger] self.focused(tree, i)
                && #[trigger] self.focused(tree, j) ==> i == j
    }

    /// The node that has focus, if there is one.
    pub open spec fn holder(self, tree: Tree) -> Option<NodeId> {
        if exists|i: NodeId| i < tree.size() && self.focused(tree, i as int) {
            Some(choose|i: NodeId| i < tree.size() && self.focused(tree, i as int))
        } else {
            None
        }
    }

    /// The shared state at the start of an application: no node has focus,
    /// none is marked for painting, and nothing has changed.
    pub fn new() -> (c: Canopy)
        ensures
            c == (Canopy { focus_gen: 1, last_render_focus_gen: 1, render_gen: 1, taint: false }),
    {
        Canopy { focus_gen: 1, last_render_focus_gen: 1, render_gen: 1, taint: false }
    }

    /// Does node `id` have focus?
    pub fn is_focused(&self, tree: &Tree, id: NodeId) -> (b: bool)
        requires
            tree.wf(),
            id < tree.size(),
        ensures
            b == self.focused(*tree, id as int),
    {
        tree.node_state(id).focus_gen == self.focus_gen
    }

    /// Has the focus moved since the last render sweep?
    pub fn focus_changed(&self) -> (b: bool)
        ensures
            b == (self.focus_gen != self.last_render_focus_gen),
    {
        self.focus_gen != self.last_render_focus_gen
    }

    /// Gives focus to node `id`: the focus counter goes up by one and the
    /// node is stamped with its new value, so that this node and no other
    /// has focus afterwards.
    pub fn set_focus(&mut self, tree: &mut Tree, id: NodeId)
        requires
            old(tree).wf(),
            old(self).governs(*old(tree)),
            id < old(tree).size(),
            old(self).focus_gen < u64::MAX,
        ensures
            final(tree).wf(),
            final(tree).same_shape(*old(tree)),
            final(self).governs(*final(tree)),
            final(self).focus_gen == old(self).focus_gen + 1,
            final(self).last_render_focus_gen == old(self).last_render_focus_gen,
            final(self).render_gen == old(self).render_gen,
            final(self).taint == old(self).taint,
            final(tree).state(id as int) == (NodeState {
                focus_gen: final(self).focus_gen,
                ..old(tree).state(id as int)
            }),
            forall|i: int|
                0 <= i < old(tree).size() && i != id ==> #[trigger] final(tree).state(i) == old(
                    tree,
                ).state(i),
            forall|i: int|
                0 <= i < old(tree).size() ==> (#[trigger] final(self).focused(*final(tree), i) <==> i
                    == id),
            final(self).holder(*final(tree)) == Some(id),
    {
        self.focus_gen = self.focus_gen + 1;
        let s = tree.node_state(id);
        tree.set_node_state(
            id,
            NodeState {
                focus_gen: self.focus_gen,
                render_gen: s.render_gen,
                hidden: s.hidden,
                viewport: s.viewport,
            },
        );
        proof {
            assert forall|i: int| 0 <= i < tree.size() implies (#[trigger] self.focused(*tree, i)
                <==> i == id) by {
                if i != id {
                    assert(tree.state(i) == old(tree).state(i));
                }
            }
            assert(self.focused(*tree, id as int));
        }
    }
}

/// A change that leaves the focus counters and every focus stamp as they
/// were leaves the tree in step with the shared state.
pub proof fn lemma_governs_kept(core: Canopy, before: Tree, now: Canopy, after: Tree)
    requires
        core.governs(before),
        now.focus_gen == core.focus_gen,
        now.last_render_focus_gen == core.last_render_focus_gen,
        after.size() == before.size(),
        forall|i: int|
            0 <= i < before.size() ==> (#[trigger] after.state(i)).focus_gen == before.state(
                i,
            ).focus_gen,
    ensures
        now.governs(after),
{
    assert forall|i: int, j: int|
        0 <= i < after.size() && 0 <= j < after.size() && #[trigger] now.focused(after, i)
            && #[trigger] now.focused(after, j) implies i == j by {
        assert(core.focused(before, i));
        assert(core.focused(before, j));
    }
}

} // verus!
