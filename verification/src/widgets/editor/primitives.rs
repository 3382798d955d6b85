use vstd::prelude::*;
use crate::widgets::editor::state::State;

verus! {

/// `offset + n`, held within the range of `usize`.
pub open spec fn shifted_offset(offset: usize, n: isize) -> usize {
    if offset + n < 0 {
        0usize
    } else if offset + n > usize::MAX {
        usize::MAX
    } else {
        (offset + n) as usize
    }
}

/// Adds a signed number to an offset, stopping at the ends of the range.
pub fn shift_offset(offset: usize, n: isize) -> (r: usize)
    ensures
        r == shifted_offset(offset, n),
{
    if n >= 0 {
        let m: usize = n as usize;
        if offset > usize::MAX - m {
            usize::MAX
        } else {
            offset + m
        }
    } else {
        let m: usize = (-(n + 1)) as usize;
        if offset <= m {
            0
        } else {
            offset - m - 1
        }
    }
}

/// A position in the text of an editor that can be brought within the
/// bounds of the text.
pub trait Pos: Sized {
    /// The chunk and the offset within the chunk.
    spec fn place(&self) -> (usize, usize);

    /// Can a position be brought within the bounds of the text `s`?
    spec fn can_cap(chunk: usize, offset: usize, s: State) -> bool;

    /// The nearest place to the given one that lies within the text `s`.
    spec fn capped(chunk: usize, offset: usize, s: State) -> (usize, usize);

    /// The position within the text `s` that is nearest to the given
    /// place.
    fn new(s: &State, chunk: usize, offset: usize) -> (p: Self)
        requires
            Self::can_cap(chunk, offset, *s),
        ensures
            p.place() == Self::capped(chunk, offset, *s),
    ;

    /// The position within the text `s` that is nearest to this one.
    fn cap(&self, s: &State) -> (p: Self)
        requires
            Self::can_cap(self.place().0, self.place().1, *s),
        ensures
            p.place() == Self::capped(self.place().0, self.place().1, *s),
    ;

    /// The chunk and the offset within the chunk.
    fn chunk_offset(&self) -> (r: (usize, usize))
        ensures
            r == self.place(),
    ;

    /// The position moved by `n` within its chunk. Where that leaves the
    /// chunk, the result is the nearest position within it.
    fn shift(&self, s: &State, n: isize) -> (p: Self)
        requires
            Self::can_cap(self.place().0, shifted_offset(self.place().1, n), *s),
        ensures
            p.place() == Self::capped(self.place().0, shifted_offset(self.place().1, n), *s),
    {
        let (chunk, offset) = self.chunk_offset();
        Self::new(s, chunk, shift_offset(offset, n))
    }
}

/// A place between two characters, or before the first or after the last:
/// offset `0` is before the first character of the chunk, and the offset
/// that equals the chunk's length is after the last.
#[derive(Debug, Copy, Clone, PartialEq, Eq, Hash, PartialOrd, Ord, Structural)]
pub struct InsertPos {
    /// The chunk's position in the text.
    pub chunk: usize,
    /// The offset within the chunk.
    pub offset: usize,
}

/// The place of a character: offset `0` is the first character of the
/// chunk, and the offset one below the chunk's length is the last.
#[derive(Debug, Copy, Clone, PartialEq, Eq, Hash, PartialOrd, Ord, Structural)]
pub struct CharPos {
    /// The chunk's position in the text.
    pub chunk: usize,
    /// The offset within the chunk.
    pub offset: usize,
}

impl Pos for InsertPos {
    open spec fn place(&self) -> (usize, usize) {
        (self.chunk, self.offset)
    }

    open spec fn can_cap(chunk: usize, offset: usize, s: State) -> bool {
        s.wf()
    }

    /// Beyond the last chunk, the end of the last chunk; beyond the end of
    /// a chunk, the end of that chunk.
    open spec fn capped(chunk: usize, offset: usize, s: State) -> (usize, usize) {
        let last = (s.count() - 1) as usize;
        if chunk > last {
            (last, s.chunk_size(last as int))
        } else if s.chunk_size(chunk as int) <= offset {
            (chunk, s.chunk_size(chunk as int))
        } else {
            (chunk, offset)
        }
    }

    fn new(s: &State, chunk: usize, offset: usize) -> (p: InsertPos) {
        (InsertPos { chunk, offset }).cap(s)
    }

    fn chunk_offset(&self) -> (r: (usize, usize)) {
        (self.chunk, self.offset)
    }

    fn cap(&self, s: &State) -> (p: InsertPos) {
        let ep = s.last();
        if self.chunk > ep.chunk {
            InsertPos { chunk: ep.chunk, offset: s.chunks[ep.chunk].len() }
        } else if s.chunks[self.chunk].len() <= self.offset {
            InsertPos { chunk: self.chunk, offset: s.chunks[self.chunk].len() }
        } else {
            *self
        }
    }
}

impl Pos for CharPos {
    open spec fn place(&self) -> (usize, usize) {
        (self.chunk, self.offset)
    }

    /// The chunk that the place is held to must have a character.
    open spec fn can_cap(chunk: usize, offset: usize, s: State) -> bool {
        &&& s.wf()
        &&& chunk > s.count() - 1 ==> s.chunk_size(s.count() - 1) > 0
        &&& chunk <= s.count() - 1 ==> s.chunk_size(chunk as int) > 0
    }

    /// Beyond the last chunk, the last character of the last chunk; beyond
    /// the last character of a chunk, that last character.
    open spec fn capped(chunk: usize, offset: usize, s: State) -> (usize, usize) {
        let last = (s.count() - 1) as usize;
        if chunk > last {
            (last, (s.chunk_size(last as int) - 1) as usize)
        } else if s.chunk_size(chunk as int) <= offset {
            (chunk, (s.chunk_size(chunk as int) - 1) as usize)
        } else {
            (chunk, offset)
        }
    }

    fn new(s: &State, chunk: usize, offset: usize) -> (p: CharPos) {
        (CharPos { chunk, offset }).cap(s)
    }

    fn chunk_offset(&self) -> (r: (usize, usize)) {
        (self.chunk, self.offset)
    }

    fn cap(&self, s: &State) -> (p: CharPos) {
        let ep = s.last();
        if self.chunk > ep.chunk {
            CharPos { chunk: ep.chunk, offset: s.chunks[ep.chunk].len() - 1 }
        } else if s.chunks[self.chunk].len() <= self.offset {
            CharPos { chunk: self.chunk, offset: s.chunks[self.chunk].len() - 1 }
        } else {
            *self
        }
    }
}

/// A cursor, which stands either between characters or on one.
#[derive(Debug, Copy, Clone, PartialEq, Eq, Hash, PartialOrd, Ord, Structural)]
pub enum Cursor {
    Insert(InsertPos),
    Char(CharPos),
}

impl Cursor {
    /// Can the cursor be moved by `n` within the text `s`?
    pub open spec fn can_shift(self, s: State, n: isize) -> bool {
        match self {
            Cursor::Insert(p) => InsertPos::can_cap(p.chunk, shifted_offset(p.offset, n), s),
            Cursor::Char(p) => CharPos::can_cap(p.chunk, shifted_offset(p.offset, n), s),
        }
    }

    /// The cursor moved by `n` within its chunk, held to the chunk.
    pub fn shift(&self, s: &State, n: isize) -> (c: Cursor)
        requires
            self.can_shift(*s, n),
        ensures
            match *self {
                Cursor::Insert(p) => c matches Cursor::Insert(q) && q.place()
                    == InsertPos::capped(p.chunk, shifted_offset(p.offset, n), *s),
                Cursor::Char(p) => c matches Cursor::Char(q) && q.place() == CharPos::capped(
                    p.chunk,
                    shifted_offset(p.offset, n),
                    *s,
                ),
            },
    {
        match self {
            Cursor::Insert(p) => Cursor::Insert(p.shift(s, n)),
            Cursor::Char(p) => Cursor::Char(p.shift(s, n)),
        }
    }

    /// The place at which typing puts text in: the cursor's own place where
    /// it stands between characters, the place before its character where it
    /// stands on one.
    pub fn insert(&self) -> (p: InsertPos)
        ensures
            p == match *self {
                Cursor::Insert(q) => q,
                Cursor::Char(q) => InsertPos { chunk: q.chunk, offset: q.offset },
            },
    {
        match self {
            Cursor::Insert(p) => *p,
            Cursor::Char(p) => InsertPos::from(*p),
        }
    }
}

/// A wrapped line: a chunk, and the number of a wrapped line within it.
#[derive(Debug, Copy, Clone, PartialEq, Eq, Hash, PartialOrd, Ord, Structural)]
pub struct Line {
    pub chunk: usize,
    pub offset: usize,
}

/// The wrapped line `n` lines after `l` in the text `s`, if the text goes
/// that far. The line after the last wrapped line of a chunk is the first
/// of the next chunk.
pub open spec fn line_after(s: State, l: Line, n: nat) -> Option<Line>
    decreases n,
{
    if n == 0 {
        Some(l)
    } else if l.offset + 1 < s.chunk_lines(l.chunk as int) {
        line_after(s, Line { chunk: l.chunk, offset: (l.offset + 1) as usize }, (n - 1) as nat)
    } else if l.chunk + 1 < s.count() {
        line_after(s, Line { chunk: (l.chunk + 1) as usize, offset: 0 }, (n - 1) as nat)
    } else {
        None
    }
}

impl Line {
    /// The wrapped line `n` lines after this one, or `None` where the text
    /// ends before it. The line must be in a chunk of the text.
    pub fn add(&self, s: &State, n: usize) -> (r: Option<Line>)
        requires
            self.chunk < s.count(),
        ensures
            r == line_after(*s, *self, n as nat),
            r is Some ==> r->Some_0.chunk < s.count(),
    {
        let mut chunk = self.chunk;
        let mut offset = self.offset;
        let mut i: usize = 0;
        while i < n
            invariant
                i <= n,
                chunk < s.count(),
                line_after(*s, Line { chunk, offset }, (n - i) as nat) == line_after(
                    *s,
                    *self,
                    n as nat,
                ),
            decreases n - i,
        {
            let rows = s.chunks[chunk].wraps.len();
            let total = s.chunks.len();
            if offset < usize::MAX && offset + 1 < rows {
                offset += 1;
            } else if total - chunk > 1 {
                chunk += 1;
                offset = 0;
            } else {
                return None;
            }
            i += 1;
        }
        Some(Line { chunk, offset })
    }
}

/// A run of wrapped lines: the first of them, and how many.
#[derive(Debug, Copy, Clone, PartialEq, Eq, Hash, PartialOrd, Ord, Structural)]
pub struct Window {
    pub line: Line,
    pub height: usize,
}

impl Window {
    /// The lines of the window, from the top: as many as its height, with
    /// `None` for those that lie beyond the end of the text.
    pub fn lines(&self, s: &State) -> (r: Vec<Option<Line>>)
        requires
            self.line.chunk < s.count(),
        ensures
            r@.len() == self.height,
            forall|i: int|
                0 <= i < self.height ==> #[trigger] r@[i] == line_after(*s, self.line, i as nat),
    {
        let mut lines: Vec<Option<Line>> = Vec::new();
        let mut line = Some(self.line);
        let mut k: usize = 0;
        while k < self.height
            invariant
                k <= self.height,
                self.line.chunk < s.count(),
                lines@.len() == k,
                line == line_after(*s, self.line, k as nat),
                line is Some ==> line->Some_0.chunk < s.count(),
                forall|i: int|
                    0 <= i < k ==> #[trigger] lines@[i] == line_after(*s, self.line, i as nat),
            decreases self.height - k,
        {
            lines.push(line);
            proof {
                lemma_line_after_step(*s, self.line, k as nat);
            }
            line = match line {
                Some(l) => l.add(s, 1),
                None => None,
            };
            k += 1;
        }
        lines
    }
}

/// The line `n + 1` lines on is the line after the line `n` lines on, and
/// there is none where the text has ended before.
pub proof fn lemma_line_after_step(s: State, l: Line, n: nat)
    ensures
        line_after(s, l, n + 1) == match line_after(s, l, n) {
            Some(m) => line_after(s, m, 1),
            None => None,
        },
    decreases n,
{
    if n > 0 {
        if l.offset + 1 < s.chunk_lines(l.chunk as int) {
            lemma_line_after_step(
                s,
                Line { chunk: l.chunk, offset: (l.offset + 1) as usize },
                (n - 1) as nat,
            );
        } else if l.chunk + 1 < s.count() {
            lemma_line_after_step(
                s,
                Line { chunk: (l.chunk + 1) as usize, offset: 0 },
                (n - 1) as nat,
            );
        }
    } else {
        reveal_with_fuel(line_after, 2);
    }
}

impl From<(usize, usize)> for InsertPos {
    fn from(p: (usize, usize)) -> (r: InsertPos) {
        InsertPos { chunk: p.0, offset: p.1 }
    }
}

impl vstd::std_specs::convert::FromSpecImpl<(usize, usize)> for InsertPos {
    open spec fn obeys_from_spec() -> bool {
        true
    }

    open spec fn from_spec(p: (usize, usize)) -> InsertPos {
        InsertPos { chunk: p.0, offset: p.1 }
    }
}

impl From<(usize, usize)> for CharPos {
    fn from(p: (usize, usize)) -> (r: CharPos) {
        CharPos { chunk: p.0, offset: p.1 }
    }
}

impl vstd::std_specs::convert::FromSpecImpl<(usize, usize)> for CharPos {
    open spec fn obeys_from_spec() -> bool {
        true
    }

    open spec fn from_spec(p: (usize, usize)) -> CharPos {
        CharPos { chunk: p.0, offset: p.1 }
    }
}

impl From<(usize, usize)> for Line {
    fn from(p: (usize, usize)) -> (r: Line) {
        Line { chunk: p.0, offset: p.1 }
    }
}

impl vstd::std_specs::convert::FromSpecImpl<(usize, usize)> for Line {
    open spec fn obeys_from_spec() -> bool {
        true
    }

    open spec fn from_spec(p: (usize, usize)) -> Line {
        Line { chunk: p.0, offset: p.1 }
    }
}

impl From<CharPos> for InsertPos {
    fn from(cp: CharPos) -> (r: InsertPos) {
        InsertPos { chunk: cp.chunk, offset: cp.offset }
    }
}

impl vstd::std_specs::convert::FromSpecImpl<CharPos> for InsertPos {
    open spec fn obeys_from_spec() -> bool {
        true
    }

    open spec fn from_spec(cp: CharPos) -> InsertPos {
        InsertPos { chunk: cp.chunk, offset: cp.offset }
    }
}

impl From<InsertPos> for CharPos {
    fn from(ip: InsertPos) -> (r: CharPos) {
        CharPos { chunk: ip.chunk, offset: if ip.offset == 0 { 0 } else { ip.offset - 1 } }
    }
}

impl vstd::std_specs::convert::FromSpecImpl<InsertPos> for CharPos {
    open spec fn obeys_from_spec() -> bool {
        true
    }

    open spec fn from_spec(ip: InsertPos) -> CharPos {
        CharPos {
            chunk: ip.chunk,
            offset: if ip.offset == 0 {
                0usize
            } else {
                (ip.offset - 1) as usize
            },
        }
    }
}

} // verus!
