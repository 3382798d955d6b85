use vstd::prelude::*;
use crate::geom::point::Point;
use crate::geom::rect::Rect;

verus! {

/// A size without a location.
#[derive(Clone, Copy, Debug, PartialEq, Eq, Hash, Structural)]
pub struct Expanse {
    pub w: u16,
    pub h: u16,
}

impl Expanse {
    /// The rectangle of this size at the origin.
    pub open spec fn bounds(self) -> Rect {
        Rect { tl: Point { x: 0, y: 0 }, w: self.w, h: self.h }
    }

    /// A size from its width and height.
    pub fn new(w: u16, h: u16) -> (e: Expanse)
        ensures
            e == (Expanse { w, h }),
    {
        Expanse { w, h }
    }

    /// The rectangle of this size at the origin.
    pub fn rect(&self) -> (r: Rect)
        ensures
            r == self.bounds(),
    {
        Rect { tl: Point { x: 0, y: 0 }, w: self.w, h: self.h }
    }

    /// The number of cells of this size.
    pub fn area(&self) -> (a: u32)
        ensures
            a == self.w * self.h,
    {
        assert(self.w * self.h <= 0xffff * 0xffff) by (nonlinear_arith)
            requires
                self.w <= 0xffff,
                self.h <= 0xffff,
        ;
        self.w as u32 * self.h as u32
    }
}

impl Rect {
    /// The size of the rectangle.
    pub fn expanse(&self) -> (e: Expanse)
        ensures
            e == (Expanse { w: self.w, h: self.h }),
    {
        Expanse { w: self.w, h: self.h }
    }
}

} // verus!
