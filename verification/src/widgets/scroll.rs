use vstd::prelude::*;
use crate::canopy::Canopy;
use crate::error::Error;
use crate::geom::expanse::Expanse;
use crate::geom::point::Point;
use crate::geom::rect::Rect;
use crate::geom::view::{page_back, page_forward};
use crate::node::Node;
use crate::order::{lemma_same_shape_same_order, preorder_seq};
use crate::outcome::{Handle, Outcome};
use crate::sweep::listed;
use crate::tree::{NodeId, Tree};
use crate::viewport::ViewPort;

verus! {

/// Where a scrolled child stands: the screen rectangle it is painted to,
/// the full extent of its content, and the part of the content that shows.
#[derive(Clone, Copy, Debug, PartialEq, Eq, Structural)]
pub struct ScrollState {
    /// The rectangle painted to, on the screen.
    pub rect: Rect,
    /// The full extent of the child's content.
    pub virt: Rect,
    /// The part of the content that is painted to `rect`.
    pub window: Rect,
}

/// A window onto a child that may be larger than the screen space it is
/// given. The window can be moved about over the child's content.
pub struct Scroll {
    /// The node of the tree at which the scroller stands.
    pub id: NodeId,
    /// The node that is scrolled.
    pub child: NodeId,
    /// Where the child stands; `None` until the scroller is laid out.
    pub scrollstate: Option<ScrollState>,
}

/// The viewport that shows `window` of content of the extent `virt` at
/// `rect` on the screen, where these can make one: the content must start at
/// the origin and hold the window.
pub open spec fn child_port(ss: ScrollState, vp: ViewPort) -> bool {
    &&& vp.canvas_size() == (Expanse { w: ss.virt.w, h: ss.virt.h })
    &&& vp.view_area() == ss.window
    &&& vp.screen_pos() == ss.rect.tl
}

impl Scroll {
    /// The scroller and its child are nodes of the tree.
    pub open spec fn wf(self, tree: Tree) -> bool {
        tree.wf() && self.id < tree.size() && self.child < tree.size()
    }

    /// What a move of the window leaves behind: the scroller has the new
    /// window, the child shows it where that can be, every node below the
    /// scroller is marked for painting, and the change is noted.
    pub open spec fn moved(
        self,
        before: Scroll,
        core: Canopy,
        core_before: Canopy,
        tree: Tree,
        tree_before: Tree,
        window: Rect,
    ) -> bool {
        &&& self.id == before.id
        &&& self.child == before.child
        &&& before.scrollstate is Some
        &&& self.scrollstate == Some(ScrollState { window, ..before.scrollstate->Some_0 })
        &&& core == (Canopy { taint: true, ..core_before })
        &&& tree.wf()
        &&& tree.same_shape(tree_before)
        &&& forall|i: int|
            0 <= i < tree_before.size() && listed(preorder_seq(tree_before, self.id), i)
                ==> (#[trigger] tree.state(i)).render_gen == core_before.render_gen + 1
        &&& (Expanse { w: self.scrollstate->Some_0.virt.w, h: self.scrollstate->Some_0.virt.h })
            .bounds().encloses(window) ==> child_port(
            self.scrollstate->Some_0,
            tree.state(self.child as int).viewport,
        )
        &&& !(Expanse { w: self.scrollstate->Some_0.virt.w, h: self.scrollstate->Some_0.virt.h })
            .bounds().encloses(window) ==> tree.state(self.child as int).viewport
            == tree_before.state(self.child as int).viewport
        &&& forall|i: int|
            0 <= i < tree_before.size() ==> (#[trigger] tree.state(i)).focus_gen
                == tree_before.state(i).focus_gen && tree.state(i).hidden == tree_before.state(
                i,
            ).hidden
        &&& forall|i: int|
            0 <= i < tree_before.size() && i != self.child ==> (#[trigger] tree.state(
                i,
            )).viewport == tree_before.state(i).viewport
        &&& forall|i: int|
            0 <= i < tree_before.size() && !listed(preorder_seq(tree_before, self.id), i)
                ==> (#[trigger] tree.state(i)).render_gen == tree_before.state(i).render_gen
    }

    /// A scroller for `child`, not yet laid out.
    pub fn new(id: NodeId, child: NodeId) -> (s: Scroll)
        ensures
            s.id == id,
            s.child == child,
            s.scrollstate is None,
    {
        Scroll { id, child, scrollstate: None }
    }

    /// Puts the window where `ss` says and shows it in the child.
    fn apply(&mut self, core: &mut Canopy, tree: &mut Tree, ss: ScrollState)
        requires
            old(self).wf(*old(tree)),
            old(self).scrollstate is Some,
            ss.rect == old(self).scrollstate->Some_0.rect,
            ss.virt == old(self).scrollstate->Some_0.virt,
            old(core).render_gen < u64::MAX,
        ensures
            final(self).wf(*final(tree)),
            final(self).moved(
                *old(self),
                *final(core),
                *old(core),
                *final(tree),
                *old(tree),
                ss.window,
            ),
            old(core).governs(*old(tree)) ==> final(core).governs(*final(tree)),
    {
        self.scrollstate = Some(ss);
        match ViewPort::new(Expanse::new(ss.virt.w, ss.virt.h), ss.window, ss.rect.tl) {
            Ok(vp) => {
                let ghost before = *tree;
                tree.set_viewport(self.child, vp);
                proof {
                    if old(core).governs(before) {
                        crate::canopy::lemma_governs_kept(*old(core), before, *core, *tree);
                    }
                }
            },
            Err(_) => {},
        }
        let ghost mid = *tree;
        core.taint_tree(tree, self.id);
        proof {
            assert(tree.state(self.child as int).viewport == mid.state(
                self.child as int,
            ).viewport);
            lemma_same_shape_same_order(*old(tree), mid, self.id);
        }
    }

    /// Moves the window's corner to the given place in the content, or as
    /// near to it as the content allows. Does nothing before the scroller is
    /// laid out. Fails where the window is larger than the content.
    pub fn scroll_to(&mut self, core: &mut Canopy, tree: &mut Tree, x: u16, y: u16) -> (r: Result<
        Outcome,
        Error,
    >)
        requires
            old(self).wf(*old(tree)),
            old(core).render_gen < u64::MAX,
        ensures
            final(self).wf(*final(tree)),
            old(core).governs(*old(tree)) ==> final(core).governs(*final(tree)),
            match old(self).scrollstate {
                None => r == Ok::<Outcome, Error>(Outcome::Handle(Handle { skip: false }))
                    && *final(self) == *old(self) && *final(core) == *old(core) && *final(tree)
                    == *old(tree),
                Some(ss) => if ss.window.fits_in(ss.virt) {
                    r == Ok::<Outcome, Error>(Outcome::Handle(Handle { skip: false }))
                        && final(self).moved(
                        *old(self),
                        *final(core),
                        *old(core),
                        *final(tree),
                        *old(tree),
                        (Rect { tl: Point { x, y }, w: ss.window.w, h: ss.window.h }).clamped(
                            ss.virt,
                        ),
                    )
                } else {
                    r == Err::<Outcome, Error>(Error::Geometry) && *final(self) == *old(self)
                        && *final(core) == *old(core) && *final(tree) == *old(tree)
                },
            },
    {
        match self.scrollstate {
            Some(ss) => {
                let want = Rect { tl: Point { x, y }, w: ss.window.w, h: ss.window.h };
                match want.clamp(ss.virt) {
                    Ok(window) => {
                        self.apply(core, tree, ScrollState { rect: ss.rect, virt: ss.virt, window });
                    },
                    Err(e) => {
                        return Err(e);
                    },
                }
            },
            None => {},
        }
        Ok(Outcome::Handle(Handle { skip: false }))
    }

    /// Moves the window by the given offsets, as far as the content allows.
    /// Does nothing before the scroller is laid out.
    pub fn scroll_by(&mut self, core: &mut Canopy, tree: &mut Tree, x: i16, y: i16) -> (r: Result<
        Outcome,
        Error,
    >)
        requires
            old(self).wf(*old(tree)),
            old(core).render_gen < u64::MAX,
        ensures
            r == Ok::<Outcome, Error>(Outcome::Handle(Handle { skip: false })),
            final(self).wf(*final(tree)),
            old(core).governs(*old(tree)) ==> final(core).governs(*final(tree)),
            match old(self).scrollstate {
                None => *final(self) == *old(self) && *final(core) == *old(core) && *final(tree)
                    == *old(tree),
                Some(ss) => final(self).moved(
                    *old(self),
                    *final(core),
                    *old(core),
                    *final(tree),
                    *old(tree),
                    ss.window.shifted_within(x, y, ss.virt),
                ),
            },
    {
        match self.scrollstate {
            Some(ss) => {
                let window = ss.window.shift_within(x, y, ss.virt);
                self.apply(core, tree, ScrollState { rect: ss.rect, virt: ss.virt, window });
            },
            None => {},
        }
        Ok(Outcome::Handle(Handle { skip: false }))
    }

    /// The height of the window, or zero before the scroller is laid out.
    pub open spec fn page(self) -> u16 {
        match self.scrollstate {
            Some(ss) => ss.window.h,
            None => 0,
        }
    }

    /// Moves the window up by its own height.
    pub fn page_up(&mut self, core: &mut Canopy, tree: &mut Tree) -> (r: Result<Outcome, Error>)
        requires
            old(self).wf(*old(tree)),
            old(core).render_gen < u64::MAX,
        ensures
            r == Ok::<Outcome, Error>(Outcome::Handle(Handle { skip: false })),
            final(self).wf(*final(tree)),
            old(core).governs(*old(tree)) ==> final(core).governs(*final(tree)),
            match old(self).scrollstate {
                None => *final(self) == *old(self) && *final(core) == *old(core) && *final(tree)
                    == *old(tree),
                Some(ss) => final(self).moved(
                    *old(self),
                    *final(core),
                    *old(core),
                    *final(tree),
                    *old(tree),
                    ss.window.shifted_within(0, page_back(ss.window.h), ss.virt),
                ),
            },
    {
        let h: u16 = match self.scrollstate {
            Some(ss) => ss.window.h,
            None => 0,
        };
        let d: i16 = if h > 0x7fff { -0x7fff } else { -(h as i16) };
        self.scroll_by(core, tree, 0, d)
    }

    /// Moves the window down by its own height.
    pub fn page_down(&mut self, core: &mut Canopy, tree: &mut Tree) -> (r: Result<Outcome, Error>)
        requires
            old(self).wf(*old(tree)),
            old(core).render_gen < u64::MAX,
        ensures
            r == Ok::<Outcome, Error>(Outcome::Handle(Handle { skip: false })),
            final(self).wf(*final(tree)),
            old(core).governs(*old(tree)) ==> final(core).governs(*final(tree)),
            match old(self).scrollstate {
                None => *final(self) == *old(self) && *final(core) == *old(core) && *final(tree)
                    == *old(tree),
                Some(ss) => final(self).moved(
                    *old(self),
                    *final(core),
                    *old(core),
                    *final(tree),
                    *old(tree),
                    ss.window.shifted_within(0, page_forward(ss.window.h), ss.virt),
                ),
            },
    {
        let h: u16 = match self.scrollstate {
            Some(ss) => ss.window.h,
            None => 0,
        };
        let d: i16 = if h > 0x7fff { 0x7fff } else { h as i16 };
        self.scroll_by(core, tree, 0, d)
    }
}

impl Scroll {
    /// Moves the window up by one row.
    pub fn up(&mut self, core: &mut Canopy, tree: &mut Tree) -> (r: Result<Outcome, Error>)
        requires
            old(self).wf(*old(tree)),
            old(core).render_gen < u64::MAX,
        ensures
            r == Ok::<Outcome, Error>(Outcome::Handle(Handle { skip: false })),
            final(self).wf(*final(tree)),
            old(core).governs(*old(tree)) ==> final(core).governs(*final(tree)),
            match old(self).scrollstate {
                None => *final(self) == *old(self) && *final(core) == *old(core) && *final(tree)
                    == *old(tree),
                Some(ss) => final(self).moved(
                    *old(self),
                    *final(core),
                    *old(core),
                    *final(tree),
                    *old(tree),
                    ss.window.shifted_within(0, -1i16, ss.virt),
                ),
            },
    {
        self.scroll_by(core, tree, 0, -1)
    }

    /// Moves the window down by one row.
    pub fn down(&mut self, core: &mut Canopy, tree: &mut Tree) -> (r: Result<Outcome, Error>)
        requires
            old(self).wf(*old(tree)),
            old(core).render_gen < u64::MAX,
        ensures
            r == Ok::<Outcome, Error>(Outcome::Handle(Handle { skip: false })),
            final(self).wf(*final(tree)),
            old(core).governs(*old(tree)) ==> final(core).governs(*final(tree)),
            match old(self).scrollstate {
                None => *final(self) == *old(self) && *final(core) == *old(core) && *final(tree)
                    == *old(tree),
                Some(ss) => final(self).moved(
                    *old(self),
                    *final(core),
                    *old(core),
                    *final(tree),
                    *old(tree),
                    ss.window.shifted_within(0, 1, ss.virt),
                ),
            },
    {
        self.scroll_by(core, tree, 0, 1)
    }

    /// Moves the window left by one column.
    pub fn left(&mut self, core: &mut Canopy, tree: &mut Tree) -> (r: Result<Outcome, Error>)
        requires
            old(self).wf(*old(tree)),
            old(core).render_gen < u64::MAX,
        ensures
            r == Ok::<Outcome, Error>(Outcome::Handle(Handle { skip: false })),
            final(self).wf(*final(tree)),
            old(core).governs(*old(tree)) ==> final(core).governs(*final(tree)),
            match old(self).scrollstate {
                None => *final(self) == *old(self) && *final(core) == *old(core) && *final(tree)
                    == *old(tree),
                Some(ss) => final(self).moved(
                    *old(self),
                    *final(core),
                    *old(core),
                    *final(tree),
                    *old(tree),
                    ss.window.shifted_within(-1i16, 0, ss.virt),
                ),
            },
    {
        self.scroll_by(core, tree, -1, 0)
    }

    /// Moves the window right by one column.
    pub fn right(&mut self, core: &mut Canopy, tree: &mut Tree) -> (r: Result<Outcome, Error>)
        requires
            old(self).wf(*old(tree)),
            old(core).render_gen < u64::MAX,
        ensures
            r == Ok::<Outcome, Error>(Outcome::Handle(Handle { skip: false })),
            final(self).wf(*final(tree)),
            old(core).governs(*old(tree)) ==> final(core).governs(*final(tree)),
            match old(self).scrollstate {
                None => *final(self) == *old(self) && *final(core) == *old(core) && *final(tree)
                    == *old(tree),
                Some(ss) => final(self).moved(
                    *old(self),
                    *final(core),
                    *old(core),
                    *final(tree),
                    *old(tree),
                    ss.window.shifted_within(1, 0, ss.virt),
                ),
            },
    {
        self.scroll_by(core, tree, 1, 0)
    }

    /// Lays the scroller out. With a screen rectangle, the window starts at
    /// the content's origin with the size of the rectangle, `virt` being the
    /// extent that the child takes when held to the rectangle's width, and the
    /// child shows the window where the content holds it. Without one, the
    /// scroller goes back to not being laid out.
    pub fn layout(&mut self, tree: &mut Tree, rect: Option<Rect>, virt: Rect)
        requires
            old(self).wf(*old(tree)),
        ensures
            final(self).wf(*final(tree)),
            final(self).id == old(self).id,
            final(self).child == old(self).child,
            final(tree).same_shape(*old(tree)),
            forall|i: int|
                0 <= i < old(tree).size() && i != old(self).child ==> #[trigger] final(tree).state(
                    i,
                ) == old(tree).state(i),
            match rect {
                None => final(self).scrollstate is None && *final(tree) == *old(tree),
                Some(r) => {
                    let window = Rect { tl: Point { x: 0, y: 0 }, w: r.w, h: r.h };
                    &&& final(self).scrollstate == Some(ScrollState { rect: r, virt, window })
                    &&& (Expanse { w: virt.w, h: virt.h }).bounds().encloses(window) ==> child_port(
                        final(self).scrollstate->Some_0,
                        final(tree).state(old(self).child as int).viewport,
                    )
                    &&& !(Expanse { w: virt.w, h: virt.h }).bounds().encloses(window) ==> *final(tree)
                        == *old(tree)
                },
            },
    {
        match rect {
            Some(r) => {
                let window = Rect { tl: Point { x: 0, y: 0 }, w: r.w, h: r.h };
                self.scrollstate = Some(ScrollState { rect: r, virt, window });
                match ViewPort::new(Expanse::new(virt.w, virt.h), window, r.tl) {
                    Ok(vp) => {
                        tree.set_viewport(self.child, vp);
                    },
                    Err(_) => {},
                }
            },
            None => {
                self.scrollstate = None;
            },
        }
    }

    /// The window and the full extent of the content, once laid out.
    pub fn bounds(&self) -> (r: Option<(Rect, Rect)>)
        ensures
            r == match self.scrollstate {
                Some(ss) => Some((ss.window, ss.virt)),
                None => None,
            },
    {
        match self.scrollstate {
            Some(ss) => Some((ss.window, ss.virt)),
            None => None,
        }
    }
}

impl Node for Scroll {
    open spec fn node_id(&self) -> NodeId {
        self.id
    }

    /// The scroller takes whatever size it is offered.
    open spec fn fitted(&self, target: Expanse) -> Expanse {
        target
    }

    open spec fn settled(&self, target: Expanse) -> bool {
        true
    }

    fn id(&self) -> (id: NodeId) {
        self.id
    }

    fn name(&self) -> (n: Option<String>)
        ensures
            n is Some && n->Some_0@ == "scroll"@,
    {
        Some("scroll".to_owned())
    }

    fn fit(&mut self, target: Expanse) -> (r: Result<Expanse, Error>) {
        Ok(target)
    }

    /// The scroller is painted just when its child is due.
    fn should_render(&self, core: &Canopy, tree: &Tree) -> (w: Option<bool>)
        ensures
            self.child < tree.size() ==> w == Some(
                core.due(*tree, self.child, self.child, None),
            ),
            self.child >= tree.size() ==> w is None,
    {
        if self.child < tree.len() {
            Some(core.should_render(tree, self.child, self.child, None))
        } else {
            None
        }
    }
}

} // verus!
