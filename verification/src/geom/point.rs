use vstd::prelude::*;

verus! {

/// A location on the terminal grid.
#[derive(Clone, Copy, Debug, PartialEq, Eq, Hash, Structural)]
pub struct Point {
    pub x: u16,
    pub y: u16,
}

/// `a + d`, held within the range of `u16`.
pub open spec fn saturating_offset(a: u16, d: i16) -> u16 {
    if a + d < 0 {
        0u16
    } else if a + d > u16::MAX {
        u16::MAX
    } else {
        (a + d) as u16
    }
}

/// Adds a signed offset to a coordinate, stopping at the ends of the grid.
pub fn offset_coord(a: u16, d: i16) -> (r: u16)
    ensures
        r == saturating_offset(a, d),
{
    let wide: i32 = a as i32 + d as i32;
    if wide < 0 {
        0
    } else if wide > 0xffff {
        u16::MAX
    } else {
        wide as u16
    }
}

impl Point {
    /// The origin of the grid.
    pub fn zero() -> (p: Point)
        ensures
            p.x == 0,
            p.y == 0,
    {
        Point { x: 0, y: 0 }
    }

    /// Is this point the origin?
    pub fn is_zero(&self) -> (b: bool)
        ensures
            b == (self.x == 0 && self.y == 0),
    {
        self.x == 0 && self.y == 0
    }

    /// The point moved by the given offsets; each coordinate stops at the
    /// ends of the grid instead of wrapping.
    pub fn scroll(&self, x: i16, y: i16) -> (p: Point)
        ensures
            p.x == saturating_offset(self.x, x),
            p.y == saturating_offset(self.y, y),
    {
        Point { x: offset_coord(self.x, x), y: offset_coord(self.y, y) }
    }
}

} // verus!
