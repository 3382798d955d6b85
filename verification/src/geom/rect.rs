use vstd::prelude::*;
use crate::error::Error;
use crate::geom::point::{offset_coord, saturating_offset, Point};

verus! {

/// An axis-aligned rectangle on the terminal grid. Either side may be zero,
/// in which case the rectangle covers no cell.
#[derive(Clone, Copy, Debug, PartialEq, Eq, Hash, Structural)]
pub struct Rect {
    /// The top-left corner.
    pub tl: Point,
    /// The width, in cells.
    pub w: u16,
    /// The height, in cells.
    pub h: u16,
}

/// `v` moved by the least amount that puts it inside `lo ..= hi`.
pub open spec fn clamp_int(v: int, lo: int, hi: int) -> int {
    if v < lo {
        lo
    } else if v > hi {
        hi
    } else {
        v
    }
}

impl Rect {
    /// The column just past the right edge.
    pub open spec fn right(self) -> int {
        self.tl.x + self.w
    }

    /// The row just past the bottom edge.
    pub open spec fn bottom(self) -> int {
        self.tl.y + self.h
    }

    /// Does the rectangle cover the cell at `p`?
    pub open spec fn covers(self, p: Point) -> bool {
        self.tl.x <= p.x < self.right() && self.tl.y <= p.y < self.bottom()
    }

    /// Does `other` lie within the bounds of this rectangle?
    pub open spec fn encloses(self, other: Rect) -> bool {
        &&& self.tl.x <= other.tl.x
        &&& other.right() <= self.right()
        &&& self.tl.y <= other.tl.y
        &&& other.bottom() <= self.bottom()
    }

    /// Can a rectangle of the size of `self` be placed inside `enclosure`?
    pub open spec fn fits_in(self, enclosure: Rect) -> bool {
        self.w <= enclosure.w && self.h <= enclosure.h
    }

    /// The rectangle of the size of `self` that lies inside `enclosure` and
    /// is nearest to `self`.
    pub open spec fn clamped(self, enclosure: Rect) -> Rect {
        Rect {
            tl: Point {
                x: clamp_int(
                    self.tl.x as int,
                    enclosure.tl.x as int,
                    enclosure.right() - self.w,
                ) as u16,
                y: clamp_int(
                    self.tl.y as int,
                    enclosure.tl.y as int,
                    enclosure.bottom() - self.h,
                ) as u16,
            },
            w: self.w,
            h: self.h,
        }
    }

    /// The rectangle moved by the given offsets, the corner stopping at the
    /// ends of the grid.
    pub open spec fn shifted(self, x: i16, y: i16) -> Rect {
        Rect {
            tl: Point { x: saturating_offset(self.tl.x, x), y: saturating_offset(self.tl.y, y) },
            w: self.w,
            h: self.h,
        }
    }

    /// The rectangle moved by the given offsets and then brought back inside
    /// `enclosure`; unchanged where it does not fit there at all.
    pub open spec fn shifted_within(self, x: i16, y: i16, enclosure: Rect) -> Rect {
        if self.fits_in(enclosure) {
            self.shifted(x, y).clamped(enclosure)
        } else {
            self
        }
    }

    /// A rectangle from its corner and size.
    pub fn new(x: u16, y: u16, w: u16, h: u16) -> (r: Rect)
        ensures
            r == (Rect { tl: Point { x, y }, w, h }),
    {
        Rect { tl: Point { x, y }, w, h }
    }

    /// Does the rectangle cover no cell?
    pub fn is_empty(&self) -> (b: bool)
        ensures
            b == (self.w == 0 || self.h == 0),
    {
        self.w == 0 || self.h == 0
    }

    /// The same size at another corner.
    pub fn at(&self, p: Point) -> (r: Rect)
        ensures
            r == (Rect { tl: p, w: self.w, h: self.h }),
    {
        Rect { tl: p, w: self.w, h: self.h }
    }

    /// Does the rectangle cover the cell at `p`?
    pub fn contains_point(&self, p: Point) -> (b: bool)
        ensures
            b == self.covers(p),
    {
        let right: u32 = self.tl.x as u32 + self.w as u32;
        let bottom: u32 = self.tl.y as u32 + self.h as u32;
        self.tl.x <= p.x && (p.x as u32) < right && self.tl.y <= p.y && (p.y as u32) < bottom
    }

    /// Does `other` lie within the bounds of this rectangle?
    pub fn contains_rect(&self, other: &Rect) -> (b: bool)
        ensures
            b == self.encloses(*other),
    {
        let right: u32 = self.tl.x as u32 + self.w as u32;
        let bottom: u32 = self.tl.y as u32 + self.h as u32;
        let other_right: u32 = other.tl.x as u32 + other.w as u32;
        let other_bottom: u32 = other.tl.y as u32 + other.h as u32;
        self.tl.x <= other.tl.x && other_right <= right && self.tl.y <= other.tl.y
            && other_bottom <= bottom
    }

    /// Moves the rectangle by the least amount that puts it inside
    /// `enclosure`, keeping its size. Fails where it is wider or taller than
    /// `enclosure`.
    pub fn clamp(&self, enclosure: Rect) -> (r: Result<Rect, Error>)
        ensures
            self.fits_in(enclosure) ==> r == Ok::<Rect, Error>(self.clamped(enclosure)),
            !self.fits_in(enclosure) ==> r == Err::<Rect, Error>(Error::Geometry),
            r is Ok ==> enclosure.encloses(r->Ok_0),
    {
        if enclosure.w < self.w || enclosure.h < self.h {
            Err(Error::Geometry)
        } else {
            let x = clamp_coord(self.tl.x, enclosure.tl.x, enclosure.w - self.w);
            let y = clamp_coord(self.tl.y, enclosure.tl.y, enclosure.h - self.h);
            Ok(Rect { tl: Point { x, y }, w: self.w, h: self.h })
        }
    }

    /// The rectangle moved by the given offsets. The corner stops at the ends
    /// of the grid instead of wrapping.
    pub fn shift(&self, x: i16, y: i16) -> (r: Rect)
        ensures
            r == self.shifted(x, y),
    {
        Rect { tl: Point { x: offset_coord(self.tl.x, x), y: offset_coord(self.tl.y, y) }, w: self.w, h: self.h }
    }

    /// The rectangle moved by the given offsets, then brought back inside
    /// `enclosure`. Its size is kept; where it is larger than `enclosure` it
    /// is returned as it is.
    pub fn shift_within(&self, x: i16, y: i16, enclosure: Rect) -> (r: Rect)
        ensures
            r == self.shifted_within(x, y, enclosure),
            self.fits_in(enclosure) ==> enclosure.encloses(r),
    {
        if enclosure.w < self.w || enclosure.h < self.h {
            *self
        } else {
            match self.shift(x, y).clamp(enclosure) {
                Ok(r) => r,
                Err(_) => *self,
            }
        }
    }
}

impl Rect {
    /// The part that two rectangles have in common, where they share a cell.
    pub open spec fn common(self, other: Rect) -> Option<Rect> {
        let x0 = if self.tl.x >= other.tl.x { self.tl.x } else { other.tl.x };
        let y0 = if self.tl.y >= other.tl.y { self.tl.y } else { other.tl.y };
        let x1 = if self.right() <= other.right() { self.right() } else { other.right() };
        let y1 = if self.bottom() <= other.bottom() { self.bottom() } else { other.bottom() };
        if x0 < x1 && y0 < y1 {
            Some(Rect { tl: Point { x: x0, y: y0 }, w: (x1 - x0) as u16, h: (y1 - y0) as u16 })
        } else {
            None
        }
    }

    /// The rectangle left after a border of the given width is taken off all
    /// four sides; empty at the old corner where the border uses it all up.
    pub open spec fn inset(self, border: u16) -> Rect {
        if self.w < 2 * border || self.h < 2 * border {
            Rect { tl: self.tl, w: 0, h: 0 }
        } else {
            Rect {
                tl: Point { x: (self.tl.x + border) as u16, y: (self.tl.y + border) as u16 },
                w: (self.w - 2 * border) as u16,
                h: (self.h - 2 * border) as u16,
            }
        }
    }

    /// The part that this rectangle and `other` have in common, or `None`
    /// where they share no cell.
    pub fn intersect(&self, other: &Rect) -> (r: Option<Rect>)
        ensures
            r == self.common(*other),
            r is Some ==> self.encloses(r->Some_0) && other.encloses(r->Some_0),
    {
        let x0: u32 = if self.tl.x >= other.tl.x { self.tl.x as u32 } else { other.tl.x as u32 };
        let y0: u32 = if self.tl.y >= other.tl.y { self.tl.y as u32 } else { other.tl.y as u32 };
        let sr: u32 = self.tl.x as u32 + self.w as u32;
        let sb: u32 = self.tl.y as u32 + self.h as u32;
        let or: u32 = other.tl.x as u32 + other.w as u32;
        let ob: u32 = other.tl.y as u32 + other.h as u32;
        let x1: u32 = if sr <= or { sr } else { or };
        let y1: u32 = if sb <= ob { sb } else { ob };
        if x0 < x1 && y0 < y1 {
            Some(Rect { tl: Point { x: x0 as u16, y: y0 as u16 }, w: (x1 - x0) as u16, h: (y1 - y0) as u16 })
        } else {
            None
        }
    }

    /// The rectangle inside a border of the given width. Where the border
    /// leaves nothing, or the inner corner would fall off the grid, the result
    /// is empty and stays at the old corner.
    pub fn inner(&self, border: u16) -> (r: Rect)
        ensures
            self.tl.x + border <= u16::MAX && self.tl.y + border <= u16::MAX ==> r == self.inset(border),
            !(self.tl.x + border <= u16::MAX && self.tl.y + border <= u16::MAX) ==> r == (Rect {
                tl: self.tl,
                w: 0,
                h: 0,
            }),
            self.encloses(r),
    {
        let twice: u32 = 2 * (border as u32);
        let x: u32 = self.tl.x as u32 + border as u32;
        let y: u32 = self.tl.y as u32 + border as u32;
        if (self.w as u32) < twice || (self.h as u32) < twice || x > 0xffff || y > 0xffff {
            Rect { tl: self.tl, w: 0, h: 0 }
        } else {
            Rect {
                tl: Point { x: x as u16, y: y as u16 },
                w: (self.w as u32 - twice) as u16,
                h: (self.h as u32 - twice) as u16,
            }
        }
    }

    /// The first row of the rectangle, as a rectangle of height one; empty
    /// where the rectangle has no rows.
    pub fn first_line(&self) -> (r: Rect)
        ensures
            r == (Rect { tl: self.tl, w: self.w, h: if self.h == 0 { 0u16 } else { 1u16 } }),
    {
        Rect { tl: self.tl, w: self.w, h: if self.h == 0 { 0 } else { 1 } }
    }
}

/// Brings `v` into the span that starts at `lo` and allows `room` further
/// positions.
fn clamp_coord(v: u16, lo: u16, room: u16) -> (r: u16)
    ensures
        r == clamp_int(v as int, lo as int, lo + room),
{
    let hi: u32 = lo as u32 + room as u32;
    if v < lo {
        lo
    } else if (v as u32) > hi {
        hi as u16
    } else {
        v
    }
}

/// The distance between two coordinates.
pub open spec fn distance(a: int, b: int) -> int {
    if a >= b {
        a - b
    } else {
        b - a
    }
}

/// Clamping keeps the size, puts the rectangle inside the enclosure, and
/// moves it no further than any other placement inside the enclosure would.
pub proof fn lemma_clamp_nearest(b: Rect, a: Rect, other: Rect)
    requires
        b.fits_in(a),
        other.w == b.w,
        other.h == b.h,
        a.encloses(other),
    ensures
        b.clamped(a).w == b.w,
        b.clamped(a).h == b.h,
        a.encloses(b.clamped(a)),
        distance(b.clamped(a).tl.x as int, b.tl.x as int) <= distance(
            other.tl.x as int,
            b.tl.x as int,
        ),
        distance(b.clamped(a).tl.y as int, b.tl.y as int) <= distance(
            other.tl.y as int,
            b.tl.y as int,
        ),
        a.encloses(b) ==> b.clamped(a) == b,
{
}

/// A move down that stays on the grid and inside the enclosure is undone by
/// the same move up, and likewise a move right by the same move left.
pub proof fn lemma_shift_round_trip(v: Rect, outer: Rect, dx: i16, dy: i16)
    requires
        outer.encloses(v),
        0 <= dx,
        0 <= dy,
        v.tl.x + dx <= u16::MAX,
        v.tl.y + dy <= u16::MAX,
        v.right() + dx <= outer.right(),
        v.bottom() + dy <= outer.bottom(),
    ensures
        v.shifted_within(dx, dy, outer) == v.shifted(dx, dy),
        v.shifted_within(dx, dy, outer).shifted_within((-dx) as i16, (-dy) as i16, outer) == v,
{
}

/// Moving a rectangle within an enclosure that holds it leaves it inside,
/// whatever the offsets, and keeps its size.
pub proof fn lemma_shift_within_stays(v: Rect, outer: Rect, dx: i16, dy: i16)
    requires
        v.fits_in(outer),
    ensures
        outer.encloses(v.shifted_within(dx, dy, outer)),
        v.shifted_within(dx, dy, outer).w == v.w,
        v.shifted_within(dx, dy, outer).h == v.h,
{
}

} // verus!
