use vstd::prelude::*;
use crate::canopy::Canopy;
use crate::dispatch::{key, mouse, offer};
use crate::error::Error;
use crate::focus::focus_path;
use crate::geom::expanse::Expanse;
use crate::geom::point::Point;
use crate::node::{Node, Visitor};
use crate::outcome::{Handle, Ignore, Outcome};
use crate::trail::{trail, Probe};
use crate::tree::{NodeId, Tree};

verus! {

/// An application within an application: a node of the outer tree that
/// holds a tree of its own, with shared state of its own. Events that reach
/// the node are handed on to the inner tree.
pub struct Graft {
    /// The node of the outer tree at which the graft stands.
    pub id: NodeId,
    /// The shared state of the inner application.
    pub core: Canopy,
    /// The tree of the inner application.
    pub tree: Tree,
}

/// What the outer application is told of an outcome of the inner one:
/// whether the event was handled, and no more.
pub open spec fn relayed(o: Outcome) -> Outcome {
    match o {
        Outcome::Handle(_) => Outcome::Handle(Handle { skip: true }),
        Outcome::Ignore(_) => Outcome::Ignore(Ignore { skip: false }),
    }
}

/// Tells the outer application of an outcome of the inner one.
fn relay(r: Result<Outcome, Error>) -> (out: Result<Outcome, Error>)
    ensures
        out == match r {
            Ok(o) => Ok::<Outcome, Error>(relayed(o)),
            Err(e) => Err::<Outcome, Error>(e),
        },
{
    match r {
        Ok(Outcome::Handle(_)) => Ok(Outcome::handle()),
        Ok(Outcome::Ignore(_)) => Ok(Outcome::ignore()),
        Err(e) => Err(e),
    }
}

impl Graft {
    /// A graft of the given tree, with fresh shared state.
    pub fn new(id: NodeId, tree: Tree) -> (g: Graft)
        ensures
            g.id == id,
            g.tree == tree,
            g.core == (Canopy {
                focus_gen: 1,
                last_render_focus_gen: 1,
                render_gen: 1,
                taint: false,
            }),
    {
        Graft { id, core: Canopy::new(), tree }
    }

    /// Hands a key event on to the inner application, where it goes up the
    /// inner focus path; the visitor stands for the key handlers of the inner
    /// nodes. The result says whether the inner application handled the
    /// event.
    pub fn handle_key<V: Visitor<Outcome>>(&mut self, v: &mut V) -> (r: Result<Outcome, Error>)
        requires
            old(self).tree.wf(),
        ensures
            final(self).id == old(self).id,
            final(self).tree == old(self).tree,
            ({
                let (m, inner) = offer::<V>(
                    old(v).model(),
                    old(self).tree,
                    focus_path(old(self).core, old(self).tree, 0),
                    0,
                    Outcome::Ignore(Ignore { skip: false }),
                );
                &&& final(v).model() == m
                &&& r == match inner {
                    Ok(o) => Ok::<Outcome, Error>(relayed(o)),
                    Err(e) => Err::<Outcome, Error>(e),
                }
                &&& final(self).core == (Canopy {
                    taint: old(self).core.taint || (inner is Ok && inner->Ok_0 is Handle),
                    ..old(self).core
                })
            }),
    {
        let r = key(&mut self.core, &self.tree, 0, v);
        relay(r)
    }

    /// Hands a mouse event at the screen point `p` on to the inner
    /// application, where it goes to the deepest inner node under the point
    /// and up from there. The result says whether the inner application
    /// handled the event.
    pub fn handle_mouse<V: Visitor<Outcome>>(&mut self, p: Point, v: &mut V) -> (r: Result<
        Outcome,
        Error,
    >)
        requires
            old(self).tree.wf(),
        ensures
            final(self).id == old(self).id,
            final(self).tree == old(self).tree,
            ({
                let (m, inner) = offer::<V>(
                    old(v).model(),
                    old(self).tree,
                    trail(old(self).tree, 0, Probe::Point(p)),
                    0,
                    Outcome::Ignore(Ignore { skip: false }),
                );
                &&& final(v).model() == m
                &&& r == match inner {
                    Ok(o) => Ok::<Outcome, Error>(relayed(o)),
                    Err(e) => Err::<Outcome, Error>(e),
                }
                &&& final(self).core == (Canopy {
                    taint: old(self).core.taint || (inner is Ok && inner->Ok_0 is Handle),
                    ..old(self).core
                })
            }),
    {
        let r = mouse(&mut self.core, &self.tree, 0, p, v);
        relay(r)
    }
}

impl Node for Graft {
    open spec fn node_id(&self) -> NodeId {
        self.id
    }

    /// The graft takes whatever size it is offered.
    open spec fn fitted(&self, target: Expanse) -> Expanse {
        target
    }

    open spec fn settled(&self, target: Expanse) -> bool {
        true
    }

    fn id(&self) -> (id: NodeId) {
        self.id
    }

    fn name(&self) -> (n: Option<String>)
        ensures
            n is Some && n->Some_0@ == "graft"@,
    {
        Some("graft".to_owned())
    }

    /// Some node of the inner tree may take focus, so the graft must.
    fn accept_focus(&self) -> (b: bool)
        ensures
            b,
    {
        true
    }

    fn fit(&mut self, target: Expanse) -> (r: Result<Expanse, Error>) {
        Ok(target)
    }
}

} // verus!
