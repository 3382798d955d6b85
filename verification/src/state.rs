use vstd::prelude::*;
use crate::viewport::ViewPort;

verus! {

/// The bookkeeping that every node carries.
#[derive(Clone, Copy, Debug, PartialEq, Eq)]
pub struct NodeState {
    /// The value of the focus counter at the time this node was last given
    /// focus; zero for a node that never had it.
    pub focus_gen: u64,
    /// The value of the render counter for the sweep that has to paint this
    /// node again; zero for a node that was never marked.
    pub render_gen: u64,
    /// A hidden node takes no part in focus and is not painted.
    pub hidden: bool,
    /// The node's window onto its content.
    pub viewport: ViewPort,
}

impl NodeState {
    /// The viewport is well formed.
    pub open spec fn wf(self) -> bool {
        self.viewport.wf()
    }

    /// The state of a node that was just created: never focused, never
    /// marked, visible, with an empty viewport.
    pub fn new() -> (s: NodeState)
        ensures
            s.wf(),
            s.focus_gen == 0,
            s.render_gen == 0,
            !s.hidden,
            s.viewport.canvas_size().w == 0 && s.viewport.canvas_size().h == 0,
            s.viewport.view_area().w == 0 && s.viewport.view_area().h == 0,
    {
        NodeState { focus_gen: 0, render_gen: 0, hidden: false, viewport: ViewPort::empty() }
    }
}

impl Default for NodeState {
    fn default() -> (s: NodeState)
        ensures
            s.wf(),
            s.focus_gen == 0,
            s.render_gen == 0,
            !s.hidden,
    {
        NodeState::new()
    }
}

} // verus!
