use vstd::prelude::*;
use crate::error::Error;
use crate::geom::expanse::Expanse;
use crate::geom::point::Point;
use crate::geom::rect::Rect;
use crate::geom::view::{page_back, page_forward};

verus! {

/// The window through which a node's content is seen: the content's full
/// size (the canvas), the part of it that is visible (the view), and the
/// place on the screen where that part is painted.
#[derive(Clone, Copy, Debug, PartialEq, Eq, Structural)]
pub struct ViewPort {
    canvas: Expanse,
    view: Rect,
    position: Point,
}

impl ViewPort {
    /// The full size of the content.
    pub closed spec fn canvas_size(self) -> Expanse {
        self.canvas
    }

    /// The visible part of the content, in the content's coordinates.
    pub closed spec fn view_area(self) -> Rect {
        self.view
    }

    /// The screen location at which the view is painted.
    pub closed spec fn screen_pos(self) -> Point {
        self.position
    }

    /// The screen rectangle that the view is painted to: the view's size at
    /// the screen location.
    pub open spec fn screen_area(self) -> Rect {
        Rect { tl: self.screen_pos(), w: self.view_area().w, h: self.view_area().h }
    }

    /// The view lies within the canvas.
    pub open spec fn wf(self) -> bool {
        self.canvas_size().bounds().encloses(self.view_area())
    }

    /// Does the viewport show content of just the size of the screen
    /// rectangle `r`, all of it, at `r`?
    pub open spec fn fills(self, r: Rect) -> bool {
        &&& self.canvas_size() == (Expanse { w: r.w, h: r.h })
        &&& self.view_area() == (Rect { tl: Point { x: 0, y: 0 }, w: r.w, h: r.h })
        &&& self.screen_pos() == r.tl
    }

    /// The screen point at which the content point `p` is painted, if it is
    /// visible and the screen point lies on the grid.
    pub open spec fn projected_point(self, p: Point) -> Option<Point> {
        if self.view_area().covers(p) && self.screen_pos().x + (p.x - self.view_area().tl.x)
            <= u16::MAX && self.screen_pos().y + (p.y - self.view_area().tl.y) <= u16::MAX {
            Some(
                Point {
                    x: (self.screen_pos().x + (p.x - self.view_area().tl.x)) as u16,
                    y: (self.screen_pos().y + (p.y - self.view_area().tl.y)) as u16,
                },
            )
        } else {
            None
        }
    }

    /// The screen rectangle to which the visible part of the content
    /// rectangle `r` is painted, if any of it is visible and its corner lies
    /// on the grid.
    pub open spec fn projected_rect(self, r: Rect) -> Option<Rect> {
        match self.view_area().common(r) {
            Some(c) => match self.projected_point(c.tl) {
                Some(tl) => Some(Rect { tl, w: c.w, h: c.h }),
                None => None,
            },
            None => None,
        }
    }

    /// The view that a child with content of size `fit` gets inside this
    /// viewport: as much of the content as this view has room for, starting
    /// as near to this view's corner as the content allows.
    pub open spec fn wrapped_view(self, fit: Expanse) -> Rect {
        (Rect {
            tl: self.view_area().tl,
            w: if fit.w < self.view_area().w {
                fit.w
            } else {
                self.view_area().w
            },
            h: if fit.h < self.view_area().h {
                fit.h
            } else {
                self.view_area().h
            },
        }).clamped(fit.bounds())
    }

    /// Is this what `update` makes of the viewport `before`, for content of
    /// the size `canvas` painted into `screen`? The content has the new
    /// size; the view is painted at the corner of `screen`; and the view has
    /// the size of `screen` or of the content, whichever is smaller, with its
    /// corner where it was or as near to that as the content allows.
    pub open spec fn updated_from(self, before: ViewPort, canvas: Expanse, screen: Rect) -> bool {
        &&& self.canvas_size() == canvas
        &&& self.screen_pos() == screen.tl
        &&& self.view_area() == (Rect {
            tl: before.view_area().tl,
            w: if canvas.w < screen.w {
                canvas.w
            } else {
                screen.w
            },
            h: if canvas.h < screen.h {
                canvas.h
            } else {
                screen.h
            },
        }).clamped(canvas.bounds())
    }

    /// The viewport with nothing in it, at the origin.
    pub fn empty() -> (vp: ViewPort)
        ensures
            vp.wf(),
            vp.canvas_size() == (Expanse { w: 0, h: 0 }),
            vp.view_area() == (Rect { tl: Point { x: 0, y: 0 }, w: 0, h: 0 }),
            vp.screen_pos() == (Point { x: 0, y: 0 }),
    {
        ViewPort {
            canvas: Expanse { w: 0, h: 0 },
            view: Rect { tl: Point { x: 0, y: 0 }, w: 0, h: 0 },
            position: Point { x: 0, y: 0 },
        }
    }

    /// A viewport from its three parts. Fails unless the view lies within
    /// the canvas.
    pub fn new(canvas: Expanse, view: Rect, position: Point) -> (r: Result<ViewPort, Error>)
        ensures
            canvas.bounds().encloses(view) ==> r is Ok && r->Ok_0.wf() && r->Ok_0.canvas_size()
                == canvas && r->Ok_0.view_area() == view && r->Ok_0.screen_pos() == position,
            !canvas.bounds().encloses(view) ==> r == Err::<ViewPort, Error>(Error::Geometry),
    {
        if !canvas.rect().contains_rect(&view) {
            Err(Error::Geometry)
        } else {
            Ok(ViewPort { canvas, view, position })
        }
    }

    /// The full size of the content.
    pub fn canvas(&self) -> (e: Expanse)
        ensures
            e == self.canvas_size(),
    {
        self.canvas
    }

    /// The visible part of the content.
    pub fn view(&self) -> (r: Rect)
        ensures
            r == self.view_area(),
    {
        self.view
    }

    /// The screen location at which the view is painted.
    pub fn position(&self) -> (p: Point)
        ensures
            p == self.screen_pos(),
    {
        self.position
    }

    /// The screen rectangle that the view is painted to.
    pub fn screen_rect(&self) -> (r: Rect)
        ensures
            r == self.screen_area(),
    {
        Rect { tl: self.position, w: self.view.w, h: self.view.h }
    }

    /// Moves the view's corner to the given content position, or as near to
    /// it as the canvas allows.
    pub fn scroll_to(&mut self, x: u16, y: u16)
        requires
            old(self).wf(),
        ensures
            final(self).wf(),
            final(self).canvas_size() == old(self).canvas_size(),
            final(self).screen_pos() == old(self).screen_pos(),
            final(self).view_area() == (Rect {
                tl: Point { x, y },
                w: old(self).view_area().w,
                h: old(self).view_area().h,
            }).clamped(old(self).canvas_size().bounds()),
    {
        let r = Rect { tl: Point { x, y }, w: self.view.w, h: self.view.h };
        match r.clamp(self.canvas.rect()) {
            Ok(v) => {
                self.view = v;
            },
            Err(_) => {},
        }
    }

    /// Moves the view by the given offsets, as far as the canvas allows.
    pub fn scroll_by(&mut self, x: i16, y: i16)
        requires
            old(self).wf(),
        ensures
            final(self).wf(),
            final(self).canvas_size() == old(self).canvas_size(),
            final(self).screen_pos() == old(self).screen_pos(),
            final(self).view_area() == old(self).view_area().shifted_within(
                x,
                y,
                old(self).canvas_size().bounds(),
            ),
    {
        self.view = self.view.shift_within(x, y, self.canvas.rect());
    }

    /// Moves the view up by its own height.
    pub fn page_up(&mut self)
        requires
            old(self).wf(),
        ensures
            final(self).wf(),
            final(self).canvas_size() == old(self).canvas_size(),
            final(self).screen_pos() == old(self).screen_pos(),
            final(self).view_area() == old(self).view_area().shifted_within(
                0,
                page_back(old(self).view_area().h),
                old(self).canvas_size().bounds(),
            ),
    {
        let d: i16 = if self.view.h > 0x7fff { -0x7fff } else { -(self.view.h as i16) };
        self.scroll_by(0, d);
    }

    /// Moves the view down by its own height.
    pub fn page_down(&mut self)
        requires
            old(self).wf(),
        ensures
            final(self).wf(),
            final(self).canvas_size() == old(self).canvas_size(),
            final(self).screen_pos() == old(self).screen_pos(),
            final(self).view_area() == old(self).view_area().shifted_within(
                0,
                page_forward(old(self).view_area().h),
                old(self).canvas_size().bounds(),
            ),
    {
        let d: i16 = if self.view.h > 0x7fff { 0x7fff } else { self.view.h as i16 };
        self.scroll_by(0, d);
    }

    /// Moves the view up by one row.
    pub fn up(&mut self)
        requires
            old(self).wf(),
        ensures
            final(self).wf(),
            final(self).canvas_size() == old(self).canvas_size(),
            final(self).screen_pos() == old(self).screen_pos(),
            final(self).view_area() == old(self).view_area().shifted_within(
                0,
                -1i16,
                old(self).canvas_size().bounds(),
            ),
    {
        self.scroll_by(0, -1);
    }

    /// Moves the view down by one row.
    pub fn down(&mut self)
        requires
            old(self).wf(),
        ensures
            final(self).wf(),
            final(self).canvas_size() == old(self).canvas_size(),
            final(self).screen_pos() == old(self).screen_pos(),
            final(self).view_area() == old(self).view_area().shifted_within(
                0,
                1,
                old(self).canvas_size().bounds(),
            ),
    {
        self.scroll_by(0, 1);
    }

    /// Moves the view left by one column.
    pub fn left(&mut self)
        requires
            old(self).wf(),
        ensures
            final(self).wf(),
            final(self).canvas_size() == old(self).canvas_size(),
            final(self).screen_pos() == old(self).screen_pos(),
            final(self).view_area() == old(self).view_area().shifted_within(
                -1i16,
                0,
                old(self).canvas_size().bounds(),
            ),
    {
        self.scroll_by(-1, 0);
    }

    /// Moves the view right by one column.
    pub fn right(&mut self)
        requires
            old(self).wf(),
        ensures
            final(self).wf(),
            final(self).canvas_size() == old(self).canvas_size(),
            final(self).screen_pos() == old(self).screen_pos(),
            final(self).view_area() == old(self).view_area().shifted_within(
                1,
                0,
                old(self).canvas_size().bounds(),
            ),
    {
        self.scroll_by(1, 0);
    }
}

impl ViewPort {
    /// Replaces the view, moved as little as needed to lie inside the
    /// canvas. Fails, changing nothing, where `view` is larger than the
    /// canvas.
    pub fn set_view(&mut self, view: Rect) -> (r: Result<(), Error>)
        requires
            old(self).wf(),
        ensures
            final(self).wf(),
            final(self).canvas_size() == old(self).canvas_size(),
            final(self).screen_pos() == old(self).screen_pos(),
            view.fits_in(old(self).canvas_size().bounds()) ==> r is Ok && final(self).view_area()
                == view.clamped(old(self).canvas_size().bounds()),
            !view.fits_in(old(self).canvas_size().bounds()) ==> r == Err::<(), Error>(
                Error::Geometry,
            ) && final(self).view_area() == old(self).view_area(),
    {
        match view.clamp(self.canvas.rect()) {
            Ok(v) => {
                self.view = v;
                Ok(())
            },
            Err(e) => Err(e),
        }
    }

    /// Moves the place on the screen at which the view is painted.
    pub fn set_position(&mut self, position: Point)
        ensures
            final(self).canvas_size() == old(self).canvas_size(),
            final(self).view_area() == old(self).view_area(),
            final(self).screen_pos() == position,
    {
        self.position = position;
    }

    /// Gives the content a new size. The view stays where it is if it can
    /// and is moved back inside otherwise; a view that is larger than the new
    /// canvas becomes all of the canvas.
    pub fn set_canvas(&mut self, canvas: Expanse)
        ensures
            final(self).wf(),
            final(self).canvas_size() == canvas,
            final(self).screen_pos() == old(self).screen_pos(),
            old(self).view_area().fits_in(canvas.bounds()) ==> final(self).view_area() == old(
                self,
            ).view_area().clamped(canvas.bounds()),
            !old(self).view_area().fits_in(canvas.bounds()) ==> final(self).view_area()
                == canvas.bounds(),
    {
        let outer = canvas.rect();
        let view = if outer.w < self.view.w || outer.h < self.view.h {
            outer
        } else {
            self.view
        };
        match view.clamp(outer) {
            Ok(v) => {
                self.view = v;
            },
            Err(_) => {},
        }
        self.canvas = canvas;
    }

    /// The viewport of a child whose content has size `fit` and which this
    /// viewport wraps: the child is painted where this viewport is, and shows
    /// as much of its content as this view has room for.
    pub fn wrap(&self, fit: Expanse) -> (vp: ViewPort)
        ensures
            vp.wf(),
            vp.canvas_size() == fit,
            vp.screen_pos() == self.screen_pos(),
            vp.view_area() == self.wrapped_view(fit),
            vp.view_area().w <= self.view_area().w,
            vp.view_area().h <= self.view_area().h,
    {
        let want = Rect {
            tl: self.view.tl,
            w: if fit.w < self.view.w { fit.w } else { self.view.w },
            h: if fit.h < self.view.h { fit.h } else { self.view.h },
        };
        let view = match want.clamp(fit.rect()) {
            Ok(v) => v,
            Err(_) => want,
        };
        ViewPort { canvas: fit, view, position: self.position }
    }

    /// Sets the content's size and paints into `screen`: the view keeps its
    /// corner where the new canvas allows, and takes the size of `screen` or
    /// of the canvas, whichever is smaller.
    pub fn update(&mut self, canvas: Expanse, screen: Rect)
        ensures
            final(self).wf(),
            final(self).updated_from(*old(self), canvas, screen),
            final(self).screen_area().w <= screen.w,
            final(self).screen_area().h <= screen.h,
    {
        let want = Rect {
            tl: self.view.tl,
            w: if canvas.w < screen.w { canvas.w } else { screen.w },
            h: if canvas.h < screen.h { canvas.h } else { screen.h },
        };
        let view = match want.clamp(canvas.rect()) {
            Ok(v) => v,
            Err(_) => want,
        };
        self.canvas = canvas;
        self.view = view;
        self.position = screen.tl;
    }

    /// The screen point at which the content point `p` is painted, or `None`
    /// where `p` is not visible.
    pub fn project_point(&self, p: Point) -> (r: Option<Point>)
        ensures
            r == self.projected_point(p),
            r is Some ==> self.screen_area().covers(r->Some_0),
    {
        if self.view.contains_point(p) {
            let x: u32 = self.position.x as u32 + (p.x - self.view.tl.x) as u32;
            let y: u32 = self.position.y as u32 + (p.y - self.view.tl.y) as u32;
            if x <= 0xffff && y <= 0xffff {
                Some(Point { x: x as u16, y: y as u16 })
            } else {
                None
            }
        } else {
            None
        }
    }

    /// The screen rectangle to which the visible part of the content
    /// rectangle `r` is painted, or `None` where no part of it is visible.
    pub fn project_rect(&self, r: Rect) -> (o: Option<Rect>)
        ensures
            o == self.projected_rect(r),
            o is Some ==> self.screen_area().encloses(o->Some_0),
    {
        match self.view.intersect(&r) {
            Some(c) => match self.project_point(c.tl) {
                Some(tl) => Some(Rect { tl, w: c.w, h: c.h }),
                None => None,
            },
            None => None,
        }
    }
}

} // verus!
