use vstd::prelude::*;
use crate::canopy::Canopy;
use crate::error::Error;
use crate::focus::{focus_path, walk};
use crate::geom::point::Point;
use crate::node::Visitor;
use crate::outcome::Outcome;
use crate::trail::{lemma_trail_shape, trail, trail_to, Probe};
use crate::tree::{NodeId, Tree};
use crate::walker::Walker;

verus! {

/// What comes of showing a visitor the nodes of `path` from position `k`
/// on, one after the other, and joining what it answers to `acc`. The first
/// error ends the round.
pub open spec fn visit_all<W: Walker, V: Visitor<W>>(
    v: V::Model,
    tree: Tree,
    path: Seq<NodeId>,
    k: int,
    acc: W,
) -> (V::Model, Result<W, Error>)
    decreases path.len() - k,
{
    if k < 0 || k >= path.len() {
        (v, Ok(acc))
    } else {
        let (v1, r) = V::step(v, tree, path[k]);
        match r {
            Err(e) => (v1, Err(e)),
            Ok(w) => visit_all::<W, V>(v1, tree, path, k + 1, acc.join_spec(w)),
        }
    }
}

/// Does this outcome end the offering of an event: was the event handled,
/// with the wish that it go no further?
pub open spec fn settles(o: Outcome) -> bool {
    o is Handle && o.skips()
}

/// What comes of offering an event to the nodes of `path` from position
/// `k` on, one after the other, until one settles it, and joining their
/// outcomes to `acc`. The first error ends the round.
pub open spec fn offer<V: Visitor<Outcome>>(
    v: V::Model,
    tree: Tree,
    path: Seq<NodeId>,
    k: int,
    acc: Outcome,
) -> (V::Model, Result<Outcome, Error>)
    decreases path.len() - k,
{
    if k < 0 || k >= path.len() {
        (v, Ok(acc))
    } else {
        let (v1, r) = V::step(v, tree, path[k]);
        match r {
            Err(e) => (v1, Err(e)),
            Ok(o) => if settles(o) {
                (v1, Ok(acc.joined(o)))
            } else {
                offer::<V>(v1, tree, path, k + 1, acc.joined(o))
            },
        }
    }
}

/// Shows the visitor the node that has focus and then each of its
/// ancestors up to `root`, and joins what it answers. Nothing is shown where
/// no visible node of the subtree has focus. The first error ends the walk.
pub fn walk_with<W: Walker, V: Visitor<W>>(core: &Canopy, tree: &Tree, root: NodeId, v: &mut V) -> (r:
    Result<W, Error>)
    requires
        tree.wf(),
        root < tree.size(),
    ensures
        (final(v).model(), r) == visit_all::<W, V>(
            old(v).model(),
            *tree,
            focus_path(*core, *tree, root),
            0,
            W::neutral_spec(),
        ),
{
    let path = walk(core, tree, root);
    proof {
        lemma_trail_shape(*tree, root, Probe::Focus(core.focus_gen));
    }
    let mut acc = W::neutral();
    let mut k: usize = 0;
    while k < path.len()
        invariant
            tree.wf(),
            k <= path@.len(),
            path@ == focus_path(*core, *tree, root),
            forall|i: int| 0 <= i < path@.len() ==> #[trigger] path@[i] < tree.size(),
            visit_all::<W, V>(v.model(), *tree, path@, k as int, acc) == visit_all::<W, V>(
                old(v).model(),
                *tree,
                path@,
                0,
                W::neutral_spec(),
            ),
        decreases path@.len() - k,
    {
        match v.visit(tree, path[k]) {
            Err(e) => {
                return Err(e);
            },
            Ok(w) => {
                acc = acc.join(w);
            },
        }
        k = k + 1;
    }
    Ok(acc)
}

/// Offers an event to the nodes of `path` in turn until one settles it.
fn offer_along<V: Visitor<Outcome>>(tree: &Tree, path: &Vec<NodeId>, v: &mut V) -> (r: Result<
    Outcome,
    Error,
>)
    requires
        tree.wf(),
        forall|i: int| 0 <= i < path@.len() ==> #[trigger] path@[i] < tree.size(),
    ensures
        (final(v).model(), r) == offer::<V>(
            old(v).model(),
            *tree,
            path@,
            0,
            Outcome::Ignore(crate::outcome::Ignore { skip: false }),
        ),
{
    let mut acc = Outcome::ignore();
    let mut k: usize = 0;
    while k < path.len()
        invariant
            tree.wf(),
            k <= path@.len(),
            forall|i: int| 0 <= i < path@.len() ==> #[trigger] path@[i] < tree.size(),
            offer::<V>(v.model(), *tree, path@, k as int, acc) == offer::<V>(
                old(v).model(),
                *tree,
                path@,
                0,
                Outcome::Ignore(crate::outcome::Ignore { skip: false }),
            ),
        decreases path@.len() - k,
    {
        match v.visit(tree, path[k]) {
            Err(e) => {
                return Err(e);
            },
            Ok(o) => {
                acc = acc.join(o);
                if o.is_handled() && o.has_skip() {
                    return Ok(acc);
                }
            },
        }
        k = k + 1;
    }
    Ok(acc)
}

/// Delivers a key event. The event is offered to the node that has focus
/// and then to each of its ancestors up to `root`; the visitor stands for
/// the nodes' key handlers. The first node that handles the event and asks
/// that it go no further ends the round. An event that no node handles is
/// dropped. The result joins the outcomes of the nodes that were asked; where
/// it says that the event was handled, the change is noted for the next
/// sweep.
pub fn key<V: Visitor<Outcome>>(core: &mut Canopy, tree: &Tree, root: NodeId, v: &mut V) -> (r:
    Result<Outcome, Error>)
    requires
        tree.wf(),
        root < tree.size(),
    ensures
        (final(v).model(), r) == offer::<V>(
            old(v).model(),
            *tree,
            focus_path(*old(core), *tree, root),
            0,
            Outcome::Ignore(crate::outcome::Ignore { skip: false }),
        ),
        *final(core) == (Canopy {
            taint: old(core).taint || (r is Ok && r->Ok_0 is Handle),
            ..*old(core)
        }),
{
    let path = walk(core, tree, root);
    proof {
        lemma_trail_shape(*tree, root, Probe::Focus(core.focus_gen));
    }
    let r = offer_along(tree, &path, v);
    match r {
        Ok(o) => {
            if o.is_handled() {
                core.taint = true;
            }
        },
        Err(_) => {},
    }
    r
}

/// Delivers a mouse event at the screen point `p`. The event is offered to
/// the deepest visible node whose screen rectangle covers `p`, then to each
/// of its ancestors up to `root`; the visitor stands for the nodes' mouse
/// handlers. The round ends, and the result is made up, as for a key event.
pub fn mouse<V: Visitor<Outcome>>(core: &mut Canopy, tree: &Tree, root: NodeId, p: Point, v: &mut V) -> (r:
    Result<Outcome, Error>)
    requires
        tree.wf(),
        root < tree.size(),
    ensures
        (final(v).model(), r) == offer::<V>(
            old(v).model(),
            *tree,
            trail(*tree, root, Probe::Point(p)),
            0,
            Outcome::Ignore(crate::outcome::Ignore { skip: false }),
        ),
        *final(core) == (Canopy {
            taint: old(core).taint || (r is Ok && r->Ok_0 is Handle),
            ..*old(core)
        }),
{
    let path = trail_to(tree, root, Probe::Point(p));
    proof {
        lemma_trail_shape(*tree, root, Probe::Point(p));
    }
    let r = offer_along(tree, &path, v);
    match r {
        Ok(o) => {
            if o.is_handled() {
                core.taint = true;
            }
        },
        Err(_) => {},
    }
    r
}

} // verus!
