use vstd::prelude::*;
use crate::error::Error;
use crate::geom::point::Point;
use crate::geom::rect::Rect;

verus! {

/// The length of piece `i` when `len` cells are dealt out to `n` pieces as
/// evenly as possible, the earlier pieces taking what is left over.
pub open spec fn piece_len(len: u16, n: u16, i: int) -> int
    recommends
        n > 0,
{
    (len as int) / (n as int) + if i < (len as int) % (n as int) {
        1int
    } else {
        0int
    }
}

/// The offset at which piece `i` starts.
pub open spec fn piece_off(len: u16, n: u16, i: int) -> int
    recommends
        n > 0,
{
    i * ((len as int) / (n as int)) + if i < (len as int) % (n as int) {
        i
    } else {
        (len as int) % (n as int)
    }
}

/// `v`, stopped at the last coordinate of the grid.
pub open spec fn grid_coord(v: int) -> u16 {
    if v > u16::MAX {
        u16::MAX
    } else {
        v as u16
    }
}

/// The pieces lie one after the other and together make up the whole length.
pub proof fn lemma_pieces_tile(len: u16, n: u16, i: int)
    requires
        n > 0,
        0 <= i < n,
    ensures
        piece_off(len, n, 0) == 0,
        piece_off(len, n, i + 1) == piece_off(len, n, i) + piece_len(len, n, i),
        piece_off(len, n, n as int) == len,
        0 <= piece_len(len, n, i) <= len,
        0 <= piece_off(len, n, i) <= piece_off(len, n, i + 1) <= len,
{
    let q = (len as int) / (n as int);
    let r = (len as int) % (n as int);
    assert(len == q * n + r && 0 <= r < n && 0 <= q <= len) by (nonlinear_arith)
        requires
            q == (len as int) / (n as int),
            r == (len as int) % (n as int),
            n > 0,
            len >= 0,
    ;
    assert((i + 1) * q == i * q + q && 0 <= i * q && (i + 1) * q <= n * q && n * q == q * n)
        by (nonlinear_arith)
        requires
            0 <= i < n,
            0 <= q,
    ;
}

impl Rect {
    /// Column `i` of the `n` columns into which the rectangle is split.
    pub open spec fn column(self, n: u16, i: int) -> Rect {
        Rect {
            tl: Point { x: grid_coord(self.tl.x + piece_off(self.w, n, i)), y: self.tl.y },
            w: piece_len(self.w, n, i) as u16,
            h: self.h,
        }
    }

    /// Row `i` of the `n` rows into which the rectangle is split.
    pub open spec fn row(self, n: u16, i: int) -> Rect {
        Rect {
            tl: Point { x: self.tl.x, y: grid_coord(self.tl.y + piece_off(self.h, n, i)) },
            w: self.w,
            h: piece_len(self.h, n, i) as u16,
        }
    }

    /// Splits the rectangle into `n` columns side by side, as equal in width
    /// as can be, the left ones taking the extra cells. Fails for `n == 0`.
    pub fn split_horizontal(&self, n: u16) -> (r: Result<Vec<Rect>, Error>)
        ensures
            n == 0 ==> r == Err::<Vec<Rect>, Error>(Error::Geometry),
            n > 0 ==> r is Ok && r->Ok_0@.len() == n && forall|i: int|
                0 <= i < n ==> #[trigger] r->Ok_0@[i] == self.column(n, i),
    {
        if n == 0 {
            return Err(Error::Geometry);
        }
        let q: u16 = self.w / n;
        let rem: u16 = self.w % n;
        let mut out: Vec<Rect> = Vec::new();
        let mut off: u32 = 0;
        let mut i: u16 = 0;
        while i < n
            invariant
                n > 0,
                i <= n,
                q == self.w / n,
                rem == self.w % n,
                off == piece_off(self.w, n, i as int),
                off <= self.w,
                out@.len() == i,
                forall|k: int| 0 <= k < i ==> #[trigger] out@[k] == self.column(n, k),
            decreases n - i,
        {
            proof {
                lemma_pieces_tile(self.w, n, i as int);
            }
            let len: u16 = if i < rem { q + 1 } else { q };
            let x: u32 = self.tl.x as u32 + off;
            let x16: u16 = if x > 0xffff { u16::MAX } else { x as u16 };
            out.push(Rect { tl: Point { x: x16, y: self.tl.y }, w: len, h: self.h });
            off = off + len as u32;
            i = i + 1;
        }
        Ok(out)
    }

    /// Splits the rectangle into `n` rows one above the other, as equal in
    /// height as can be, the upper ones taking the extra cells. Fails for
    /// `n == 0`.
    pub fn split_vertical(&self, n: u16) -> (r: Result<Vec<Rect>, Error>)
        ensures
            n == 0 ==> r == Err::<Vec<Rect>, Error>(Error::Geometry),
            n > 0 ==> r is Ok && r->Ok_0@.len() == n && forall|i: int|
                0 <= i < n ==> #[trigger] r->Ok_0@[i] == self.row(n, i),
    {
        if n == 0 {
            return Err(Error::Geometry);
        }
        let q: u16 = self.h / n;
        let rem: u16 = self.h % n;
        let mut out: Vec<Rect> = Vec::new();
        let mut off: u32 = 0;
        let mut i: u16 = 0;
        while i < n
            invariant
                n > 0,
                i <= n,
                q == self.h / n,
                rem == self.h % n,
                off == piece_off(self.h, n, i as int),
                off <= self.h,
                out@.len() == i,
                forall|k: int| 0 <= k < i ==> #[trigger] out@[k] == self.row(n, k),
            decreases n - i,
        {
            proof {
                lemma_pieces_tile(self.h, n, i as int);
            }
            let len: u16 = if i < rem { q + 1 } else { q };
            let y: u32 = self.tl.y as u32 + off;
            let y16: u16 = if y > 0xffff { u16::MAX } else { y as u16 };
            out.push(Rect { tl: Point { x: self.tl.x, y: y16 }, w: self.w, h: len });
            off = off + len as u32;
            i = i + 1;
        }
        Ok(out)
    }
}

/// Is `shape` a grid that a rectangle can be split into: at least one
/// column, no more columns than the grid is wide, and no empty column?
pub open spec fn grid_shape(shape: Seq<u16>) -> bool {
    &&& 0 < shape.len() <= u16::MAX
    &&& forall|c: int| 0 <= c < shape.len() ==> #[trigger] shape[c] > 0
}

impl Rect {
    /// The cell in column `c` and row `r` of the grid that `shape` describes.
    pub open spec fn pane(self, shape: Seq<u16>, c: int, r: int) -> Rect {
        self.column(shape.len() as u16, c).row(shape[c], r)
    }

    /// Splits the rectangle into a grid of panes: one column for each entry
    /// of `shape`, and in each column as many rows as its entry says. Fails
    /// where `shape` has no column, more than the grid can count, or a column
    /// without rows.
    pub fn split_panes(&self, shape: &Vec<u16>) -> (r: Result<Vec<Vec<Rect>>, Error>)
        ensures
            !grid_shape(shape@) ==> r == Err::<Vec<Vec<Rect>>, Error>(Error::Geometry),
            grid_shape(shape@) ==> r is Ok && r->Ok_0@.len() == shape@.len() && forall|c: int|
                0 <= c < shape@.len() ==> (#[trigger] r->Ok_0@[c])@.len() == shape@[c] && forall|
                    k: int,
                |
                    0 <= k < shape@[c] ==> #[trigger] r->Ok_0@[c]@[k] == self.pane(shape@, c, k),
    {
        if shape.len() == 0 || shape.len() > 0xffff {
            return Err(Error::Geometry);
        }
        let n: u16 = shape.len() as u16;
        let cols = match self.split_horizontal(n) {
            Ok(cols) => cols,
            Err(e) => {
                return Err(e);
            },
        };
        let mut out: Vec<Vec<Rect>> = Vec::new();
        let mut c: usize = 0;
        while c < shape.len()
            invariant
                n == shape@.len(),
                n > 0,
                c <= shape@.len(),
                cols@.len() == n,
                forall|i: int| 0 <= i < n ==> #[trigger] cols@[i] == self.column(n, i),
                forall|i: int| 0 <= i < c ==> #[trigger] shape@[i] > 0,
                out@.len() == c,
                forall|i: int|
                    0 <= i < c ==> (#[trigger] out@[i])@.len() == shape@[i] && forall|k: int|
                        0 <= k < shape@[i] ==> #[trigger] out@[i]@[k] == self.pane(shape@, i, k),
            decreases shape@.len() - c,
        {
            let rows = match cols[c].split_vertical(shape[c]) {
                Ok(rows) => rows,
                Err(e) => {
                    assert(shape@[c as int] == 0);
                    return Err(e);
                },
            };
            out.push(rows);
            c = c + 1;
        }
        Ok(out)
    }
}

} // verus!
