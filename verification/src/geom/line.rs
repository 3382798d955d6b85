use vstd::prelude::*;
use crate::geom::point::Point;
use crate::geom::rect::Rect;

verus! {

/// A horizontal run of cells, one cell high.
#[derive(Clone, Copy, Debug, PartialEq, Eq, Hash, Structural)]
pub struct Line {
    /// The leftmost cell.
    pub tl: Point,
    /// The number of cells.
    pub w: u16,
}

impl Default for Line {
    /// The empty line at the origin.
    fn default() -> (l: Line)
        ensures
            l == (Line { tl: Point { x: 0, y: 0 }, w: 0 }),
    {
        Line { tl: Point { x: 0, y: 0 }, w: 0 }
    }
}

impl Line {
    /// A line from its leftmost cell and width.
    pub fn new(x: u16, y: u16, w: u16) -> (l: Line)
        ensures
            l == (Line { tl: Point { x, y }, w }),
    {
        Line { tl: Point { x, y }, w }
    }

    /// The rectangle of height one that the line covers.
    pub fn rect(&self) -> (r: Rect)
        ensures
            r == (Rect { tl: self.tl, w: self.w, h: 1 }),
    {
        Rect { tl: self.tl, w: self.w, h: 1 }
    }
}

} // verus!
