use vstd::prelude::*;
use crate::geom::point::Point;
use crate::geom::rect::Rect;

verus! {

impl Rect {
    /// The two parts into which a strip of the given width at the left edge
    /// divides the rectangle: the strip, then the rest. Where the rectangle
    /// is narrower than the strip, the strip is empty and the rest is all of
    /// the rectangle.
    pub open spec fn carved_hstart(self, width: u16) -> (Rect, Rect) {
        if self.w < width || self.tl.x + width > u16::MAX {
            (Rect { tl: self.tl, w: 0, h: self.h }, self)
        } else {
            (
                Rect { tl: self.tl, w: width, h: self.h },
                Rect {
                    tl: Point { x: (self.tl.x + width) as u16, y: self.tl.y },
                    w: (self.w - width) as u16,
                    h: self.h,
                },
            )
        }
    }

    /// The two parts into which a strip of the given width at the right edge
    /// divides the rectangle: the rest, then the strip. Where the rectangle
    /// is narrower than the strip, or the strip would start off the grid, the
    /// rest is all of the rectangle and the strip is empty at its corner.
    pub open spec fn carved_hend(self, width: u16) -> (Rect, Rect) {
        if self.w < width || self.right() - width > u16::MAX {
            (self, Rect { tl: self.tl, w: 0, h: self.h })
        } else {
            (
                Rect { tl: self.tl, w: (self.w - width) as u16, h: self.h },
                Rect {
                    tl: Point { x: (self.right() - width) as u16, y: self.tl.y },
                    w: width,
                    h: self.h,
                },
            )
        }
    }

    /// As `carved_hstart`, for a strip of the given height at the top edge.
    pub open spec fn carved_vstart(self, height: u16) -> (Rect, Rect) {
        if self.h < height || self.tl.y + height > u16::MAX {
            (Rect { tl: self.tl, w: self.w, h: 0 }, self)
        } else {
            (
                Rect { tl: self.tl, w: self.w, h: height },
                Rect {
                    tl: Point { x: self.tl.x, y: (self.tl.y + height) as u16 },
                    w: self.w,
                    h: (self.h - height) as u16,
                },
            )
        }
    }

    /// As `carved_hend`, for a strip of the given height at the bottom edge.
    pub open spec fn carved_vend(self, height: u16) -> (Rect, Rect) {
        if self.h < height || self.bottom() - height > u16::MAX {
            (self, Rect { tl: self.tl, w: self.w, h: 0 })
        } else {
            (
                Rect { tl: self.tl, w: self.w, h: (self.h - height) as u16 },
                Rect {
                    tl: Point { x: self.tl.x, y: (self.bottom() - height) as u16 },
                    w: self.w,
                    h: height,
                },
            )
        }
    }

    /// Cuts a strip of exactly `width` columns off the left edge and returns
    /// it with the remainder. The strip is empty where it cannot be had.
    pub fn carve_hstart(&self, width: u16) -> (r: (Rect, Rect))
        ensures
            r == self.carved_hstart(width),
            self.encloses(r.0),
            self.encloses(r.1),
            r.0.w + r.1.w == self.w,
    {
        let cut: u32 = self.tl.x as u32 + width as u32;
        if self.w < width || cut > 0xffff {
            (Rect { tl: self.tl, w: 0, h: self.h }, *self)
        } else {
            (
                Rect { tl: self.tl, w: width, h: self.h },
                Rect { tl: Point { x: cut as u16, y: self.tl.y }, w: self.w - width, h: self.h },
            )
        }
    }

    /// Cuts a strip of exactly `width` columns off the right edge and returns
    /// the remainder with it. The strip is empty where it cannot be had.
    pub fn carve_hend(&self, width: u16) -> (r: (Rect, Rect))
        ensures
            r == self.carved_hend(width),
            self.encloses(r.0),
            self.encloses(r.1),
            r.0.w + r.1.w == self.w,
    {
        let right: u32 = self.tl.x as u32 + self.w as u32;
        if self.w < width || right - width as u32 > 0xffff {
            (*self, Rect { tl: self.tl, w: 0, h: self.h })
        } else {
            (
                Rect { tl: self.tl, w: self.w - width, h: self.h },
                Rect {
                    tl: Point { x: (right - width as u32) as u16, y: self.tl.y },
                    w: width,
                    h: self.h,
                },
            )
        }
    }

    /// Cuts a strip of exactly `height` rows off the top edge and returns it
    /// with the remainder. The strip is empty where it cannot be had.
    pub fn carve_vstart(&self, height: u16) -> (r: (Rect, Rect))
        ensures
            r == self.carved_vstart(height),
            self.encloses(r.0),
            self.encloses(r.1),
            r.0.h + r.1.h == self.h,
    {
        let cut: u32 = self.tl.y as u32 + height as u32;
        if self.h < height || cut > 0xffff {
            (Rect { tl: self.tl, w: self.w, h: 0 }, *self)
        } else {
            (
                Rect { tl: self.tl, w: self.w, h: height },
                Rect { tl: Point { x: self.tl.x, y: cut as u16 }, w: self.w, h: self.h - height },
            )
        }
    }

    /// Cuts a strip of exactly `height` rows off the bottom edge and returns
    /// the remainder with it. The strip is empty where it cannot be had.
    pub fn carve_vend(&self, height: u16) -> (r: (Rect, Rect))
        ensures
            r == self.carved_vend(height),
            self.encloses(r.0),
            self.encloses(r.1),
            r.0.h + r.1.h == self.h,
    {
        let bottom: u32 = self.tl.y as u32 + self.h as u32;
        if self.h < height || bottom - height as u32 > 0xffff {
            (*self, Rect { tl: self.tl, w: self.w, h: 0 })
        } else {
            (
                Rect { tl: self.tl, w: self.w, h: self.h - height },
                Rect {
                    tl: Point { x: self.tl.x, y: (bottom - height as u32) as u16 },
                    w: self.w,
                    h: height,
                },
            )
        }
    }
}

} // verus!
