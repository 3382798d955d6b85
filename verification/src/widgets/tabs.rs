use vstd::prelude::*;
use crate::canopy::Canopy;
use crate::error::Error;
use crate::geom::expanse::Expanse;
use crate::geom::rect::Rect;
use crate::node::Node;
use crate::tree::{NodeId, Tree};

verus! {

/// A row of titled tabs, one of which is active.
pub struct Tabs {
    /// The node of the tree at which the tabs stand.
    pub id: NodeId,
    /// The titles, from left to right.
    pub tabs: Vec<String>,
    /// The position of the active tab.
    pub active: usize,
}

/// The position before `active` among `len` tabs, as the tabs count it:
/// one less, and from the first position the remainder that the largest
/// position count leaves when divided by `len`.
pub open spec fn tab_before(active: usize, len: usize) -> int
    recommends
        len > 0,
{
    if active == 0 {
        (usize::MAX as int) % (len as int)
    } else {
        ((active - 1) as int) % (len as int)
    }
}

impl Tabs {
    /// Tabs with the given titles, the first of them active.
    pub fn new(id: NodeId, tabs: Vec<String>) -> (t: Tabs)
        ensures
            t.id == id,
            t.tabs == tabs,
            t.active == 0,
    {
        Tabs { id, active: 0, tabs }
    }

    /// Makes the tab to the right of the active one active, going round to
    /// the first from the last, and marks the node for painting.
    pub fn next(&mut self, core: &mut Canopy, tree: &mut Tree)
        requires
            old(self).tabs@.len() > 0,
            old(self).active < usize::MAX,
            old(tree).wf(),
            old(self).id < old(tree).size(),
            old(core).render_gen < u64::MAX,
        ensures
            final(self).id == old(self).id,
            final(self).tabs == old(self).tabs,
            final(self).active == (old(self).active + 1) % (old(self).tabs@.len() as int),
            final(self).active < final(self).tabs@.len(),
            final(tree).wf(),
            final(tree).same_shape(*old(tree)),
            *final(core) == (Canopy { taint: true, ..*old(core) }),
            old(core).governs(*old(tree)) ==> final(core).governs(*final(tree)),
            final(tree).state(old(self).id as int).render_gen == old(core).render_gen + 1,
    {
        self.active = (self.active + 1) % self.tabs.len();
        core.taint(tree, self.id);
    }

    /// Makes the tab to the left of the active one active, and marks the
    /// node for painting.
    pub fn prev(&mut self, core: &mut Canopy, tree: &mut Tree)
        requires
            old(self).tabs@.len() > 0,
            old(tree).wf(),
            old(self).id < old(tree).size(),
            old(core).render_gen < u64::MAX,
        ensures
            final(self).id == old(self).id,
            final(self).tabs == old(self).tabs,
            final(self).active == tab_before(old(self).active, old(self).tabs@.len() as usize),
            final(self).active < final(self).tabs@.len(),
            final(tree).wf(),
            final(tree).same_shape(*old(tree)),
            *final(core) == (Canopy { taint: true, ..*old(core) }),
            old(core).governs(*old(tree)) ==> final(core).governs(*final(tree)),
            final(tree).state(old(self).id as int).render_gen == old(core).render_gen + 1,
    {
        let before: usize = if self.active == 0 { usize::MAX } else { self.active - 1 };
        self.active = before % self.tabs.len();
        core.taint(tree, self.id);
    }
}

impl Tabs {
    /// Where the tabs are painted within `view`: for each tab, from left to
    /// right, the rectangle for its title and the rectangle of the one
    /// column that sets it off from the next. The tabs share the width of
    /// `view` as equally as can be. Fails where there are no tabs, or more
    /// than sixteen bits can count.
    pub fn cells(&self, view: Rect) -> (r: Result<Vec<(Rect, Rect)>, Error>)
        ensures
            0 < self.tabs@.len() <= u16::MAX <==> r is Ok,
            r is Err ==> r->Err_0 == Error::Geometry,
            r is Ok ==> r->Ok_0@.len() == self.tabs@.len() && forall|i: int|
                0 <= i < self.tabs@.len() ==> #[trigger] r->Ok_0@[i] == view.column(
                    self.tabs@.len() as u16,
                    i,
                ).carved_hend(1),
    {
        if self.tabs.len() == 0 || self.tabs.len() > 0xffff {
            return Err(Error::Geometry);
        }
        let n: u16 = self.tabs.len() as u16;
        let cols = match view.split_horizontal(n) {
            Ok(cols) => cols,
            Err(e) => {
                return Err(e);
            },
        };
        let mut out: Vec<(Rect, Rect)> = Vec::new();
        let mut i: usize = 0;
        while i < cols.len()
            invariant
                n == self.tabs@.len(),
                cols@.len() == n,
                i <= cols@.len(),
                out@.len() == i,
                forall|k: int| 0 <= k < n ==> #[trigger] cols@[k] == view.column(n, k),
                forall|k: int|
                    0 <= k < i ==> #[trigger] out@[k] == view.column(n, k).carved_hend(1),
            decreases cols@.len() - i,
        {
            out.push(cols[i].carve_hend(1));
            i = i + 1;
        }
        Ok(out)
    }
}

impl Node for Tabs {
    open spec fn node_id(&self) -> NodeId {
        self.id
    }

    /// The tabs take whatever size they are offered.
    open spec fn fitted(&self, target: Expanse) -> Expanse {
        target
    }

    open spec fn settled(&self, target: Expanse) -> bool {
        true
    }

    fn id(&self) -> (id: NodeId) {
        self.id
    }

    fn name(&self) -> (n: Option<String>)
        ensures
            n is Some && n->Some_0@ == "tabs"@,
    {
        Some("tabs".to_owned())
    }

    fn fit(&mut self, target: Expanse) -> (r: Result<Expanse, Error>) {
        Ok(target)
    }
}

} // verus!
