use vstd::prelude::*;
use crate::error::Error;
use crate::geom::point::Point;
use crate::geom::rect::Rect;

verus! {

/// Two rectangles kept in step: an outer one, and a view that may move
/// about inside it but never leaves it.
#[derive(Clone, Copy, Debug)]
pub struct View {
    view: Rect,
    outer: Rect,
}

/// The negation of a height as a scroll offset, held to the range of `i16`.
pub open spec fn page_back(h: u16) -> i16 {
    if h > 0x7fff {
        -0x7fffi16
    } else {
        (-(h as int)) as i16
    }
}

/// A height as a scroll offset, held to the range of `i16`.
pub open spec fn page_forward(h: u16) -> i16 {
    if h > 0x7fff {
        0x7fffi16
    } else {
        h as i16
    }
}

impl View {
    /// The view rectangle.
    pub closed spec fn inner_rect(self) -> Rect {
        self.view
    }

    /// The outer rectangle.
    pub closed spec fn outer_rect(self) -> Rect {
        self.outer
    }

    /// The view lies within the outer rectangle.
    pub open spec fn wf(self) -> bool {
        self.outer_rect().encloses(self.inner_rect())
    }

    /// A view inside `outer`. Fails unless `view` lies within `outer`.
    pub fn new(outer: Rect, view: Rect) -> (r: Result<View, Error>)
        ensures
            outer.encloses(view) ==> r is Ok && r->Ok_0.inner_rect() == view
                && r->Ok_0.outer_rect() == outer && r->Ok_0.wf(),
            !outer.encloses(view) ==> r is Err && r->Err_0 == Error::Geometry,
    {
        if !outer.contains_rect(&view) {
            Err(Error::Geometry)
        } else {
            Ok(View { outer, view })
        }
    }

    /// Moves the view's corner to the given position, or as near to it as
    /// the outer rectangle allows.
    pub fn scroll_to(&mut self, x: u16, y: u16)
        requires
            old(self).wf(),
        ensures
            final(self).wf(),
            final(self).outer_rect() == old(self).outer_rect(),
            final(self).inner_rect() == (Rect {
                tl: Point { x, y },
                w: old(self).inner_rect().w,
                h: old(self).inner_rect().h,
            }).clamped(old(self).outer_rect()),
    {
        let r = Rect { tl: Point { x, y }, w: self.view.w, h: self.view.h };
        match r.clamp(self.outer) {
            Ok(v) => {
                self.view = v;
            },
            Err(_) => {},
        }
    }

    /// Moves the view by the given offsets, as far as the outer rectangle
    /// allows.
    pub fn scroll_by(&mut self, x: i16, y: i16)
        requires
            old(self).wf(),
        ensures
            final(self).wf(),
            final(self).outer_rect() == old(self).outer_rect(),
            final(self).inner_rect() == old(self).inner_rect().shifted_within(
                x,
                y,
                old(self).outer_rect(),
            ),
    {
        self.view = self.view.shift_within(x, y, self.outer);
    }

    /// Moves the view up by its own height.
    pub fn page_up(&mut self)
        requires
            old(self).wf(),
        ensures
            final(self).wf(),
            final(self).outer_rect() == old(self).outer_rect(),
            final(self).inner_rect() == old(self).inner_rect().shifted_within(
                0,
                page_back(old(self).inner_rect().h),
                old(self).outer_rect(),
            ),
    {
        let d: i16 = if self.view.h > 0x7fff { -0x7fff } else { -(self.view.h as i16) };
        self.scroll_by(0, d);
    }

    /// Moves the view down by its own height.
    pub fn page_down(&mut self)
        requires
            old(self).wf(),
        ensures
            final(self).wf(),
            final(self).outer_rect() == old(self).outer_rect(),
            final(self).inner_rect() == old(self).inner_rect().shifted_within(
                0,
                page_forward(old(self).inner_rect().h),
                old(self).outer_rect(),
            ),
    {
        let d: i16 = if self.view.h > 0x7fff { 0x7fff } else { self.view.h as i16 };
        self.scroll_by(0, d);
    }

    /// Moves the view up by one row.
    pub fn up(&mut self)
        requires
            old(self).wf(),
        ensures
            final(self).wf(),
            final(self).outer_rect() == old(self).outer_rect(),
            final(self).inner_rect() == old(self).inner_rect().shifted_within(
                0,
                -1i16,
                old(self).outer_rect(),
            ),
    {
        self.scroll_by(0, -1);
    }

    /// Moves the view down by one row.
    pub fn down(&mut self)
        requires
            old(self).wf(),
        ensures
            final(self).wf(),
            final(self).outer_rect() == old(self).outer_rect(),
            final(self).inner_rect() == old(self).inner_rect().shifted_within(
                0,
                1,
                old(self).outer_rect(),
            ),
    {
        self.scroll_by(0, 1);
    }

    /// Moves the view left by one column.
    pub fn left(&mut self)
        requires
            old(self).wf(),
        ensures
            final(self).wf(),
            final(self).outer_rect() == old(self).outer_rect(),
            final(self).inner_rect() == old(self).inner_rect().shifted_within(
                -1i16,
                0,
                old(self).outer_rect(),
            ),
    {
        self.scroll_by(-1, 0);
    }

    /// Moves the view right by one column.
    pub fn right(&mut self)
        requires
            old(self).wf(),
        ensures
            final(self).wf(),
            final(self).outer_rect() == old(self).outer_rect(),
            final(self).inner_rect() == old(self).inner_rect().shifted_within(
                1,
                0,
                old(self).outer_rect(),
            ),
    {
        self.scroll_by(1, 0);
    }

    /// The view rectangle.
    pub fn view(&self) -> (r: Rect)
        ensures
            r == self.inner_rect(),
    {
        self.view
    }

    /// The outer rectangle.
    pub fn outer(&self) -> (r: Rect)
        ensures
            r == self.outer_rect(),
    {
        self.outer
    }

    /// Replaces the outer rectangle. The view stays where it is if it can,
    /// and is moved back inside otherwise. A view that is wider or taller
    /// than the new outer rectangle becomes that rectangle.
    pub fn resize_outer(&mut self, outer: Rect)
        ensures
            final(self).wf(),
            final(self).outer_rect() == outer,
            old(self).inner_rect().fits_in(outer) ==> final(self).inner_rect() == old(
                self,
            ).inner_rect().clamped(outer),
            !old(self).inner_rect().fits_in(outer) ==> final(self).inner_rect() == outer,
    {
        let view = if outer.w < self.view.w || outer.h < self.view.h {
            outer
        } else {
            self.view
        };
        match view.clamp(outer) {
            Ok(v) => {
                self.view = v;
            },
            Err(_) => {},
        }
        self.outer = outer;
    }

    /// Replaces the view, moved as little as needed to lie inside the outer
    /// rectangle. Fails, leaving the view as it was, where `inner` is wider
    /// or taller than the outer rectangle.
    pub fn set_inner(&mut self, inner: Rect) -> (r: Result<(), Error>)
        requires
            old(self).wf(),
        ensures
            final(self).wf(),
            final(self).outer_rect() == old(self).outer_rect(),
            inner.fits_in(old(self).outer_rect()) ==> r is Ok && final(self).inner_rect()
                == inner.clamped(old(self).outer_rect()),
            !inner.fits_in(old(self).outer_rect()) ==> r == Err::<(), Error>(Error::Geometry)
                && final(self).inner_rect() == old(self).inner_rect(),
    {
        match inner.clamp(self.outer) {
            Ok(v) => {
                self.view = v;
                Ok(())
            },
            Err(e) => Err(e),
        }
    }
}

} // verus!
