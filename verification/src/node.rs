use vstd::prelude::*;
use crate::error::Error;
use crate::canopy::Canopy;
use crate::event::{Key, Mouse};
use crate::geom::expanse::Expanse;
use crate::geom::rect::Rect;
use crate::outcome::{Ignore, Outcome};
use crate::tree::{NodeId, Tree};
use crate::viewport::ViewPort;
use crate::walker::Walker;

verus! {

/// What a traversal does at each node. A visitor sees the tree and the node
/// it stands on, may change its own state, and answers with a result that
/// the traversal joins to what it has so far, or with an error that ends
/// the traversal.
pub trait Visitor<W: Walker>: Sized {
    /// What the visitor's state amounts to.
    type Model;

    /// The visitor's state.
    spec fn model(&self) -> Self::Model;

    /// What a visit of node `id` makes of the visitor's state, and what it
    /// answers.
    spec fn step(m: Self::Model, tree: Tree, id: NodeId) -> (Self::Model, Result<W, Error>);

    /// Visits node `id`.
    fn visit(&mut self, tree: &Tree, id: NodeId) -> (r: Result<W, Error>)
        requires
            tree.wf(),
            id < tree.size(),
        ensures
            (final(self).model(), r) == Self::step(old(self).model(), *tree, id),
    ;
}

/// A preorder traversal from node `id`: the node is visited first, then,
/// unless its result asks to skip, each of its subtrees in the declared
/// order of its children. The results are joined in the order of the
/// visits. The first error ends the traversal.
pub open spec fn preorder_spec<W: Walker, V: Visitor<W>>(v: V::Model, tree: Tree, id: NodeId) -> (
    V::Model,
    Result<W, Error>,
)
    decreases tree.size() - id, 1nat, 0nat,
{
    let (v1, r) = V::step(v, tree, id);
    match r {
        Err(e) => (v1, Err(e)),
        Ok(w) => if w.skip_spec() {
            (v1, Ok(w))
        } else {
            preorder_rest::<W, V>(v1, tree, id, 0, w)
        },
    }
}

/// The part of a preorder traversal of node `id` that is still to do when
/// its first `k` subtrees are done and the results so far are joined in
/// `acc`.
pub open spec fn preorder_rest<W: Walker, V: Visitor<W>>(
    v: V::Model,
    tree: Tree,
    id: NodeId,
    k: nat,
    acc: W,
) -> (V::Model, Result<W, Error>)
    decreases tree.size() - id, 0nat, tree.children(id as int).len() - k,
{
    if id >= tree.size() || k >= tree.children(id as int).len() {
        (v, Ok(acc))
    } else {
        let c = tree.children(id as int)[k as int];
        if c <= id || c >= tree.size() {
            (v, Ok(acc))
        } else {
            let (v1, r) = preorder_spec::<W, V>(v, tree, c);
            match r {
                Err(e) => (v1, Err(e)),
                Ok(w) => preorder_rest::<W, V>(v1, tree, id, k + 1, acc.join_spec(w)),
            }
        }
    }
}

/// A postorder traversal from node `id`: the subtrees are traversed in the
/// declared order of the children, then the node itself is visited. Once
/// the joined result asks to skip, the remaining subtrees are left out, but
/// the node itself is still visited. The first error ends the traversal.
pub open spec fn postorder_spec<W: Walker, V: Visitor<W>>(v: V::Model, tree: Tree, id: NodeId) -> (
    V::Model,
    Result<W, Error>,
)
    decreases tree.size() - id, 1nat, 0nat,
{
    let (v1, r) = postorder_rest::<W, V>(v, tree, id, 0, W::neutral_spec());
    match r {
        Err(e) => (v1, Err(e)),
        Ok(acc) => {
            let (v2, r2) = V::step(v1, tree, id);
            match r2 {
                Err(e) => (v2, Err(e)),
                Ok(w) => (v2, Ok(acc.join_spec(w))),
            }
        },
    }
}

/// The part of a postorder traversal of the subtrees of node `id` that is
/// still to do when the first `k` are done and the results so far are
/// joined in `acc`.
pub open spec fn postorder_rest<W: Walker, V: Visitor<W>>(
    v: V::Model,
    tree: Tree,
    id: NodeId,
    k: nat,
    acc: W,
) -> (V::Model, Result<W, Error>)
    decreases tree.size() - id, 0nat, tree.children(id as int).len() - k,
{
    if id >= tree.size() || k >= tree.children(id as int).len() {
        (v, Ok(acc))
    } else {
        let c = tree.children(id as int)[k as int];
        if c <= id || c >= tree.size() {
            (v, Ok(acc))
        } else if acc.skip_spec() {
            postorder_rest::<W, V>(v, tree, id, k + 1, acc)
        } else {
            let (v1, r) = postorder_spec::<W, V>(v, tree, c);
            match r {
                Err(e) => (v1, Err(e)),
                Ok(w) => postorder_rest::<W, V>(v1, tree, id, k + 1, acc.join_spec(w)),
            }
        }
    }
}

/// Walks the subtree at `id` in preorder: each node before its children,
/// the children in their declared order. A visit whose result asks to skip
/// prunes the children of the visited node; the traversal then goes on with
/// the node's next sibling. Returns the join of all results, or the first
/// error.
pub fn preorder<W: Walker, V: Visitor<W>>(tree: &Tree, id: NodeId, v: &mut V) -> (r: Result<W, Error>)
    requires
        tree.wf(),
        id < tree.size(),
    ensures
        (final(v).model(), r) == preorder_spec::<W, V>(old(v).model(), *tree, id),
    decreases tree.size() - id,
{
    let first = v.visit(tree, id);
    let mut acc = match first {
        Err(e) => {
            return Err(e);
        },
        Ok(w) => w,
    };
    if acc.skip() {
        return Ok(acc);
    }
    let n = tree.child_count(id);
    let mut k: usize = 0;
    while k < n
        invariant
            tree.wf(),
            id < tree.size(),
            n == tree.children(id as int).len(),
            k <= n,
            preorder_rest::<W, V>(v.model(), *tree, id, k as nat, acc) == preorder_spec::<W, V>(
                old(v).model(),
                *tree,
                id,
            ),
        decreases n - k,
    {
        let c = tree.child(id, k);
        match preorder(tree, c, v) {
            Err(e) => {
                return Err(e);
            },
            Ok(w) => {
                acc = acc.join(w);
            },
        }
        k = k + 1;
    }
    Ok(acc)
}

/// Walks the subtree at `id` in postorder: the children in their declared
/// order, each before its parent. Once a result asks to skip, the subtrees
/// not yet entered are left out, but every node on the way back up to `id`
/// is still visited. Returns the join of all results, or the first error.
pub fn postorder<W: Walker, V: Visitor<W>>(tree: &Tree, id: NodeId, v: &mut V) -> (r: Result<
    W,
    Error,
>)
    requires
        tree.wf(),
        id < tree.size(),
    ensures
        (final(v).model(), r) == postorder_spec::<W, V>(old(v).model(), *tree, id),
    decreases tree.size() - id,
{
    let mut acc = W::neutral();
    let n = tree.child_count(id);
    let mut k: usize = 0;
    while k < n
        invariant
            tree.wf(),
            id < tree.size(),
            n == tree.children(id as int).len(),
            k <= n,
            postorder_rest::<W, V>(v.model(), *tree, id, k as nat, acc) == postorder_rest::<W, V>(
                old(v).model(),
                *tree,
                id,
                0,
                W::neutral_spec(),
            ),
        decreases n - k,
    {
        if !acc.skip() {
            let c = tree.child(id, k);
            match postorder(tree, c, v) {
                Err(e) => {
                    return Err(e);
                },
                Ok(w) => {
                    acc = acc.join(w);
                },
            }
        }
        k = k + 1;
    }
    match v.visit(tree, id) {
        Err(e) => Err(e),
        Ok(w) => Ok(acc.join(w)),
    }
}

/// What every element of an application can do. An element stands at a
/// node of the tree; the tree holds its place, its bookkeeping and its
/// children, and the element holds what is its own.
pub trait Node: Sized {
    /// The node of the tree at which the element stands.
    spec fn node_id(&self) -> NodeId;

    /// The size that the element takes when it is offered `target`.
    spec fn fitted(&self, target: Expanse) -> Expanse;

    /// Was the element last fitted to `target`, so that fitting it to
    /// `target` again changes nothing?
    spec fn settled(&self, target: Expanse) -> bool;

    /// The node of the tree at which the element stands.
    fn id(&self) -> (id: NodeId)
        ensures
            id == self.node_id(),
    ;

    /// A name for the element, for the eyes of a developer.
    fn name(&self) -> (n: Option<String>)
        default_ensures
            n is None,
    {
        None
    }

    /// Is the element willing to take focus?
    fn accept_focus(&self) -> (b: bool)
        default_ensures
            !b,
    {
        false
    }

    /// Works out the size that the element takes when it is offered
    /// `target`, which may be smaller or larger than `target`, and keeps what
    /// it worked out. Fitting is idempotent: a second fit to the same target
    /// gives the same size and changes nothing.
    fn fit(&mut self, target: Expanse) -> (r: Result<Expanse, Error>)
        ensures
            final(self).node_id() == old(self).node_id(),
            r is Ok ==> r->Ok_0 == old(self).fitted(target),
            r is Ok ==> final(self).fitted(target) == old(self).fitted(target),
            r is Ok ==> final(self).settled(target),
            old(self).settled(target) ==> r is Ok && *final(self) == *old(self),
    ;

    /// The element's own wish to be painted or not in the sweep under way,
    /// where it has one; `None` leaves the matter to the marks and to focus.
    fn should_render(&self, core: &Canopy, tree: &Tree) -> (w: Option<bool>)
        requires
            tree.wf(),
        default_ensures
            w is None,
    {
        None
    }

    /// Handles a key event. Called only for elements on the focus path.
    fn handle_key(&mut self, core: &mut Canopy, tree: &mut Tree, k: Key) -> (r: Result<
        Outcome,
        Error,
    >)
        default_ensures
            r == Ok::<Outcome, Error>(Outcome::Ignore(Ignore { skip: false })),
            *final(self) == *old(self),
            *final(core) == *old(core),
            *final(tree) == *old(tree),
    {
        Ok(Outcome::ignore())
    }

    /// Handles a mouse event. Called only for elements whose screen
    /// rectangle covers the pointer.
    fn handle_mouse(&mut self, core: &mut Canopy, tree: &mut Tree, m: Mouse) -> (r: Result<
        Outcome,
        Error,
    >)
        default_ensures
            r == Ok::<Outcome, Error>(Outcome::Ignore(Ignore { skip: false })),
            *final(self) == *old(self),
            *final(core) == *old(core),
            *final(tree) == *old(tree),
    {
        Ok(Outcome::ignore())
    }

    /// Called now and then for elements that asked for it. The result is
    /// the time in milliseconds after which to call again, if at all; the
    /// element never waits itself.
    fn poll(&mut self, core: &mut Canopy, tree: &mut Tree) -> (again: Option<u64>)
        default_ensures
            again is None,
            *final(self) == *old(self),
            *final(core) == *old(core),
            *final(tree) == *old(tree),
    {
        None
    }
}

/// Fits the element to the canvas of the viewport that wraps it, and gives
/// its node the viewport that shows as much of the fitted content as the
/// wrapping view has room for, painted where the wrapping view is painted.
pub fn wrap<N: Node>(tree: &mut Tree, n: &mut N, parent_vp: ViewPort) -> (r: Result<(), Error>)
    requires
        old(tree).wf(),
        old(n).node_id() < old(tree).size(),
    ensures
        final(tree).wf(),
        final(n).node_id() == old(n).node_id(),
        r is Ok ==> final(n).settled(parent_vp.canvas_size()),
        old(n).settled(parent_vp.canvas_size()) ==> r is Ok && *final(n) == *old(n),
        match r {
            Ok(_) => {
                let fit = old(n).fitted(parent_vp.canvas_size());
                let vp = final(tree).state(old(n).node_id() as int).viewport;
                &&& final(tree).same_shape(*old(tree))
                &&& vp.canvas_size() == fit
                &&& vp.screen_pos() == parent_vp.screen_pos()
                &&& vp.view_area() == parent_vp.wrapped_view(fit)
                &&& final(tree).state(old(n).node_id() as int) == (crate::state::NodeState {
                    viewport: vp,
                    ..old(tree).state(old(n).node_id() as int)
                })
                &&& forall|i: int|
                    0 <= i < old(tree).size() && i != old(n).node_id()
                        ==> #[trigger] final(tree).state(i) == old(tree).state(i)
            },
            Err(_) => *final(tree) == *old(tree),
        },
{
    match n.fit(parent_vp.canvas()) {
        Ok(fit) => {
            tree.set_viewport(n.id(), parent_vp.wrap(fit));
            Ok(())
        },
        Err(e) => Err(e),
    }
}

/// Fits the element inside a border of the given width round the wrapping
/// view, and gives its node the screen rectangle inside such a border round
/// the wrapping screen rectangle. Returns that inner screen rectangle. The
/// fit decides whether this succeeds; it does where the element is settled
/// for the size inside the border, and then the element is left as it is.
pub fn frame<N: Node>(tree: &mut Tree, n: &mut N, parent_vp: ViewPort, border: u16) -> (r: Result<
    Rect,
    Error,
>)
    requires
        old(tree).wf(),
        old(n).node_id() < old(tree).size(),
    ensures
        final(tree).wf(),
        final(n).node_id() == old(n).node_id(),
        old(n).settled(inner_size(parent_vp.view_area(), border)) ==> r is Ok && *final(n) == *old(
            n,
        ),
        match r {
            Ok(screen) => {
                let target = inner_size(parent_vp.view_area(), border);
                let fit = old(n).fitted(target);
                let vp = final(tree).state(old(n).node_id() as int).viewport;
                &&& final(n).settled(target)
                &&& screen == inner_screen(parent_vp.screen_area(), border)
                &&& final(tree).same_shape(*old(tree))
                &&& vp.updated_from(
                    old(tree).state(old(n).node_id() as int).viewport,
                    fit,
                    screen,
                )
                &&& vp.screen_area().w <= screen.w
                &&& vp.screen_area().h <= screen.h
                &&& final(tree).state(old(n).node_id() as int) == (crate::state::NodeState {
                    viewport: vp,
                    ..old(tree).state(old(n).node_id() as int)
                })
                &&& forall|i: int|
                    0 <= i < old(tree).size() && i != old(n).node_id()
                        ==> #[trigger] final(tree).state(i) == old(tree).state(i)
            },
            Err(_) => *final(tree) == *old(tree),
        },
{
    let inside = parent_vp.view().inner(border);
    match n.fit(inside.expanse()) {
        Ok(fit) => {
            let screen = parent_vp.screen_rect().inner(border);
            let mut vp = tree.vp(n.id());
            vp.update(fit, screen);
            tree.set_viewport(n.id(), vp);
            Ok(screen)
        },
        Err(e) => Err(e),
    }
}

/// The size left inside a border of the given width.
pub open spec fn inner_size(r: Rect, border: u16) -> Expanse {
    let i = inner_screen(r, border);
    Expanse { w: i.w, h: i.h }
}

/// The rectangle left inside a border of the given width: empty, at the
/// old corner, where the border leaves nothing or the inner corner would
/// fall off the grid.
pub open spec fn inner_screen(r: Rect, border: u16) -> Rect {
    if r.tl.x + border <= u16::MAX && r.tl.y + border <= u16::MAX {
        r.inset(border)
    } else {
        Rect { tl: r.tl, w: 0, h: 0 }
    }
}

} // verus!
