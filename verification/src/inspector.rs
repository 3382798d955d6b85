use vstd::prelude::*;
use vstd::view::View as _;
use crate::canopy::Canopy;
use crate::error::Error;
use crate::event::{Key, KeyCode};
use crate::geom::expanse::Expanse;
use crate::geom::rect::Rect;
use crate::node::Node;
use crate::outcome::{Handle, Ignore, Outcome};
use crate::tree::{NodeId, Tree};
use crate::widgets::tabs::Tabs;

verus! {

/// The part of the inspector that shows the log.
pub struct Logs {
    /// The node of the tree at which the log stands.
    pub id: NodeId,
}

impl Logs {
    /// A log view at the given node.
    pub fn new(id: NodeId) -> (l: Logs)
        ensures
            l.id == id,
    {
        Logs { id }
    }
}

/// The body of the inspector: a row of tabs above the part that the active
/// tab shows.
pub struct View {
    /// The node of the tree at which the body stands.
    pub id: NodeId,
    /// The tabs.
    pub tabs: Tabs,
    /// The log.
    pub logs: Logs,
}

/// The titles of the inspector's tabs.
pub open spec fn inspector_tabs() -> Seq<Seq<char>> {
    seq!["Nodes"@, "Events"@, "Logs"@]
}

impl View {
    /// The body and its parts are nodes of the tree, and it has its tabs.
    pub open spec fn wf(self, tree: Tree) -> bool {
        &&& tree.wf()
        &&& self.id < tree.size()
        &&& self.tabs.id < tree.size()
        &&& self.logs.id < tree.size()
        &&& self.tabs.tabs@.len() == 3
        &&& self.tabs.active < 3
    }

    /// The body of an inspector, with its three tabs, the first of them
    /// active.
    pub fn new(id: NodeId, tabs: NodeId, logs: NodeId) -> (v: View)
        ensures
            v.id == id,
            v.tabs.id == tabs,
            v.logs.id == logs,
            v.tabs.active == 0,
            v.tabs.tabs@.len() == 3,
            forall|i: int| 0 <= i < 3 ==> (#[trigger] v.tabs.tabs@[i])@ == inspector_tabs()[i],
    {
        let mut titles: Vec<String> = Vec::new();
        titles.push("Nodes".to_owned());
        titles.push("Events".to_owned());
        titles.push("Logs".to_owned());
        View { id, tabs: Tabs::new(tabs, titles), logs: Logs::new(logs) }
    }

    /// Lays the body out over the screen rectangle `r`: the tabs get its
    /// first row, and the log gets the rest.
    pub fn layout(&self, tree: &mut Tree, r: Rect)
        requires
            self.wf(*old(tree)),
        ensures
            self.wf(*final(tree)),
            final(tree).same_shape(*old(tree)),
            forall|i: int|
                0 <= i < old(tree).size() ==> (#[trigger] final(tree).state(i)).focus_gen == old(
                    tree,
                ).state(i).focus_gen,
            forall|i: int|
                0 <= i < old(tree).size() && i != self.tabs.id && i != self.logs.id
                    ==> #[trigger] final(tree).state(i) == old(tree).state(i),
            self.tabs.id != self.logs.id ==> final(tree).state(
                self.tabs.id as int,
            ).viewport.fills(r.carved_vstart(1).0),
            final(tree).state(self.logs.id as int).viewport.fills(r.carved_vstart(1).1),
    {
        let (top, rest) = r.carve_vstart(1);
        tree.place(self.tabs.id, top);
        tree.place(self.logs.id, rest);
    }

    /// Handles a key: the tabulator key makes the next tab active and marks
    /// the tabs for painting; every other key is ignored and changes nothing.
    pub fn handle_key(&mut self, core: &mut Canopy, tree: &mut Tree, k: Key) -> (r: Result<
        Outcome,
        Error,
    >)
        requires
            old(self).wf(*old(tree)),
            old(core).render_gen < u64::MAX,
        ensures
            final(self).wf(*final(tree)),
            final(self).id == old(self).id,
            final(self).logs.id == old(self).logs.id,
            final(self).tabs.id == old(self).tabs.id,
            final(self).tabs.tabs == old(self).tabs.tabs,
            old(core).governs(*old(tree)) ==> final(core).governs(*final(tree)),
            k.code == KeyCode::Tab ==> r == Ok::<Outcome, Error>(
                Outcome::Handle(Handle { skip: true }),
            ) && final(self).tabs.active == (old(self).tabs.active + 1) % 3 && *final(core) == (
            Canopy { taint: true, ..*old(core) }) && final(tree).same_shape(*old(tree))
                && final(tree).state(old(self).tabs.id as int).render_gen == old(core).render_gen
                + 1,
            k.code != KeyCode::Tab ==> r == Ok::<Outcome, Error>(
                Outcome::Ignore(Ignore { skip: false }),
            ) && final(self).tabs.active == old(self).tabs.active && *final(core) == *old(core)
                && *final(tree) == *old(tree),
    {
        match k.code {
            KeyCode::Tab => {
                self.tabs.next(core, tree);
                Ok(Outcome::handle())
            },
            _ => Ok(Outcome::ignore()),
        }
    }
}

impl Node for View {
    open spec fn node_id(&self) -> NodeId {
        self.id
    }

    /// The body takes whatever size it is offered.
    open spec fn fitted(&self, target: Expanse) -> Expanse {
        target
    }

    open spec fn settled(&self, target: Expanse) -> bool {
        true
    }

    fn id(&self) -> (id: NodeId) {
        self.id
    }

    /// The body takes focus, so that keys reach it.
    fn accept_focus(&self) -> (b: bool)
        ensures
            b,
    {
        true
    }

    fn fit(&mut self, target: Expanse) -> (r: Result<Expanse, Error>) {
        Ok(target)
    }
}

} // verus!
