use vstd::prelude::*;
use crate::geom::point::Point;
use crate::geom::rect::Rect;

verus! {

/// One of the four ways to move over the grid.
#[derive(Clone, Copy, Debug, PartialEq, Eq, Hash, Structural)]
pub enum Direction {
    Up,
    Down,
    Left,
    Right,
}

impl Rect {
    /// The candidate that a search from this rectangle in direction `dir`
    /// reaches `step` cells beyond the edge, in lane `lane` along the edge;
    /// `None` where that lies outside the edge's extent or off the grid.
    ///
    /// A search visits the candidates step by step outward, and within one
    /// step lane by lane from the top (for a sideways search) or from the
    /// left (for an upward or downward one).
    pub open spec fn candidate(self, dir: Direction, step: u16, lane: u16) -> Option<Point> {
        match dir {
            Direction::Right => if lane < self.h && self.right() + step <= u16::MAX && self.tl.y
                + lane <= u16::MAX {
                Some(Point { x: (self.right() + step) as u16, y: (self.tl.y + lane) as u16 })
            } else {
                None
            },
            Direction::Left => if lane < self.h && step < self.tl.x && self.tl.y + lane
                <= u16::MAX {
                Some(Point { x: (self.tl.x - 1 - step) as u16, y: (self.tl.y + lane) as u16 })
            } else {
                None
            },
            Direction::Down => if lane < self.w && self.bottom() + step <= u16::MAX && self.tl.x
                + lane <= u16::MAX {
                Some(Point { x: (self.tl.x + lane) as u16, y: (self.bottom() + step) as u16 })
            } else {
                None
            },
            Direction::Up => if lane < self.w && step < self.tl.y && self.tl.x + lane
                <= u16::MAX {
                Some(Point { x: (self.tl.x + lane) as u16, y: (self.tl.y - 1 - step) as u16 })
            } else {
                None
            },
        }
    }

    /// The number of lanes that a search in direction `dir` sweeps at each
    /// step: the height for a sideways search, the width otherwise.
    pub fn search_lanes(&self, dir: Direction) -> (n: u16)
        ensures
            n == match dir {
                Direction::Left | Direction::Right => self.h,
                Direction::Up | Direction::Down => self.w,
            },
    {
        match dir {
            Direction::Left | Direction::Right => self.h,
            Direction::Up | Direction::Down => self.w,
        }
    }

    /// The point that a search in direction `dir` tries at the given step
    /// and lane, if there is one.
    pub fn search_at(&self, dir: Direction, step: u16, lane: u16) -> (p: Option<Point>)
        ensures
            p == self.candidate(dir, step, lane),
            p is Some ==> !self.covers(p->Some_0),
    {
        let right: u32 = self.tl.x as u32 + self.w as u32;
        let bottom: u32 = self.tl.y as u32 + self.h as u32;
        match dir {
            Direction::Right => {
                let x: u32 = right + step as u32;
                let y: u32 = self.tl.y as u32 + lane as u32;
                if lane < self.h && x <= 0xffff && y <= 0xffff {
                    Some(Point { x: x as u16, y: y as u16 })
                } else {
                    None
                }
            },
            Direction::Left => {
                let y: u32 = self.tl.y as u32 + lane as u32;
                if lane < self.h && step < self.tl.x && y <= 0xffff {
                    Some(Point { x: self.tl.x - 1 - step, y: y as u16 })
                } else {
                    None
                }
            },
            Direction::Down => {
                let x: u32 = self.tl.x as u32 + lane as u32;
                let y: u32 = bottom + step as u32;
                if lane < self.w && y <= 0xffff && x <= 0xffff {
                    Some(Point { x: x as u16, y: y as u16 })
                } else {
                    None
                }
            },
            Direction::Up => {
                let x: u32 = self.tl.x as u32 + lane as u32;
                if lane < self.w && step < self.tl.y && x <= 0xffff {
                    Some(Point { x: x as u16, y: self.tl.y - 1 - step })
                } else {
                    None
                }
            },
        }
    }
}

} // verus!
