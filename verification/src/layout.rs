use vstd::prelude::*;
use crate::canopy::Canopy;
use crate::error::Error;
use crate::geom::expanse::Expanse;
use crate::geom::rect::Rect;
use crate::node::Node;
use crate::state::NodeState;
use crate::sweep::tree_tainted;
use crate::tree::{NodeId, Tree};

verus! {

/// For elements that fill whatever screen rectangle they are given, such
/// as a frame, or a status bar of fixed height.
pub trait FillLayout: Node {
    /// Lays out the children, each by a call of its own `layout`. The
    /// element's own screen rectangle is set by then, and stays as it is: the
    /// method leaves the element's own node alone. The provided method is for
    /// an element without children: it does nothing.
    fn layout_children(&mut self, core: &mut Canopy, tree: &mut Tree) -> (r: Result<(), Error>)
        requires
            old(tree).wf(),
            old(self).node_id() < old(tree).size(),
        ensures
            final(tree).wf(),
            final(self).node_id() == old(self).node_id(),
            final(tree).size() == old(tree).size(),
            final(tree).state(old(self).node_id() as int) == old(tree).state(
                old(self).node_id() as int,
            ),
        default_ensures
            r is Ok,
            *final(self) == *old(self),
            *final(core) == *old(core),
            *final(tree) == *old(tree),
    {
        Ok(())
    }

    /// Gives the element the screen rectangle, with content of just that
    /// size, all of it in view, then lays out its children. The result is
    /// that of laying out the children, which is the element's to decide.
    /// Whatever it is, the element's own node has the rectangle afterwards,
    /// and is otherwise as it was.
    fn layout(&mut self, core: &mut Canopy, tree: &mut Tree, screen_rect: Rect) -> (r: Result<
        (),
        Error,
    >)
        requires
            old(tree).wf(),
            old(self).node_id() < old(tree).size(),
        ensures
            final(tree).wf(),
            final(self).node_id() == old(self).node_id(),
            final(tree).size() == old(tree).size(),
            final(tree).state(old(self).node_id() as int).viewport.fills(screen_rect),
            final(tree).state(old(self).node_id() as int) == (NodeState {
                viewport: final(tree).state(old(self).node_id() as int).viewport,
                ..old(tree).state(old(self).node_id() as int)
            }),
    {
        tree.place(self.id(), screen_rect);
        self.layout_children(core, tree)
    }
}

/// For elements whose extent follows from their width, such as a paragraph
/// of text: the element is first held to a width and says what extent it
/// takes, and then some part of that extent is shown on the screen.
pub trait ConstrainedWidthLayout: Node {
    /// The extent that the element takes when held to the given width: a
    /// rectangle at the origin, which may be wider or narrower than asked.
    fn constrain(&mut self, core: &mut Canopy, width: u16) -> (r: Result<Rect, Error>)
        ensures
            final(self).node_id() == old(self).node_id(),
            r is Ok ==> r->Ok_0.tl.x == 0 && r->Ok_0.tl.y == 0,
    ;

    /// Lays out the children. The element's own extent and screen
    /// rectangle are set by then, and stay as they are: the method leaves the
    /// element's own node alone. The provided method is for an element
    /// without children: it does nothing.
    fn layout_children(&mut self, core: &mut Canopy, tree: &mut Tree) -> (r: Result<(), Error>)
        requires
            old(tree).wf(),
            old(self).node_id() < old(tree).size(),
        ensures
            final(tree).wf(),
            final(self).node_id() == old(self).node_id(),
            final(tree).size() == old(tree).size(),
            final(tree).state(old(self).node_id() as int) == old(tree).state(
                old(self).node_id() as int,
            ),
        default_ensures
            r is Ok,
            *final(self) == *old(self),
            *final(core) == *old(core),
            *final(tree) == *old(tree),
    {
        Ok(())
    }

    /// Gives the element its extent and the screen rectangle in which to
    /// show it, then lays out its children. The result is that of laying out
    /// the children, which is the element's to decide. Whatever it is, the
    /// element's own node afterwards has content of the size of `virt_rect`,
    /// painted at the corner of `screen_rect`, with a view that is no larger
    /// than `screen_rect` and keeps its corner where the content allows;
    /// otherwise the node is as it was.
    fn layout(&mut self, core: &mut Canopy, tree: &mut Tree, virt_rect: Rect, screen_rect: Rect) -> (r:
        Result<(), Error>)
        requires
            old(tree).wf(),
            old(self).node_id() < old(tree).size(),
        ensures
            final(tree).wf(),
            final(self).node_id() == old(self).node_id(),
            final(tree).size() == old(tree).size(),
            final(tree).state(old(self).node_id() as int).viewport.updated_from(
                old(tree).state(old(self).node_id() as int).viewport,
                Expanse { w: virt_rect.w, h: virt_rect.h },
                screen_rect,
            ),
            final(tree).state(old(self).node_id() as int).viewport.screen_area().w <= screen_rect.w,
            final(tree).state(old(self).node_id() as int).viewport.screen_area().h <= screen_rect.h,
            final(tree).state(old(self).node_id() as int) == (NodeState {
                viewport: final(tree).state(old(self).node_id() as int).viewport,
                ..old(tree).state(old(self).node_id() as int)
            }),
    {
        let mut vp = tree.vp(self.id());
        vp.update(virt_rect.expanse(), screen_rect);
        tree.set_viewport(self.id(), vp);
        self.layout_children(core, tree)
    }
}

/// Gives the root of an application a screen of the given size: the root
/// gets the whole screen, with content of just that size, and every node of
/// the tree is marked for painting.
pub fn set_root_size(core: &mut Canopy, tree: &mut Tree, root: NodeId, size: Expanse) -> (r: Result<
    (),
    Error,
>)
    requires
        old(tree).wf(),
        root < old(tree).size(),
        old(core).render_gen < u64::MAX,
    ensures
        r is Ok,
        final(tree).wf(),
        final(tree).same_shape(*old(tree)),
        old(core).governs(*old(tree)) ==> final(core).governs(*final(tree)),
        final(tree).state(root as int).viewport.fills(size.bounds()),
        exists|mid: Tree|
            #![auto]
            mid.wf() && mid.same_shape(*old(tree)) && mid.state(root as int).viewport.fills(
                size.bounds(),
            ) && mid.state(root as int).focus_gen == old(tree).state(root as int).focus_gen
                && mid.state(root as int).hidden == old(tree).state(root as int).hidden && (forall|
                i: int,
            |
                0 <= i < old(tree).size() && i != root ==> mid.state(i) == old(tree).state(i))
                && tree_tainted(*old(core), mid, *final(core), *final(tree), root),
{
    tree.place(root, size.rect());
    proof {
        if old(core).governs(*old(tree)) {
            crate::canopy::lemma_governs_kept(*old(core), *old(tree), *core, *tree);
        }
        crate::order::lemma_preorder_in_tree(*tree, root);
        assert(crate::sweep::listed(crate::order::preorder_seq(*tree, root), root as int));
    }
    core.taint_tree(tree, root);
    Ok(())
}

} // verus!
