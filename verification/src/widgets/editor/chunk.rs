use vstd::prelude::*;
use vstd::string::{StringExecFns, StringSliceAdditionalSpecFns};
use vstd::utf8::{encode_utf8, is_char_boundary};

verus! {

/// Puts `s` into `text` at the byte position `idx`.
///
/// Stands for `String::insert_str`, which panics unless `idx` lies on a
/// character boundary of the text, its end included. The contract says that
/// the bytes before `idx` stay, the bytes of `s` follow, and the bytes from
/// `idx` on come after them.
#[verifier::external_body]
fn insert_text(text: &mut String, idx: usize, s: &str)
    requires
        idx <= encode_utf8(old(text)@).len(),
        is_char_boundary(encode_utf8(old(text)@), idx as int),
    ensures
        encode_utf8(final(text)@) == encode_utf8(old(text)@).subrange(
            0,
            idx as int,
        ) + s.spec_bytes() + encode_utf8(old(text)@).subrange(
            idx as int,
            encode_utf8(old(text)@).len() as int,
        ),
{
    text.insert_str(idx, s)
}

/// Replaces the bytes of `text` from `start` up to `end` by `s`.
///
/// Stands for `String::replace_range`, which panics unless both ends lie on
/// character boundaries within the text. The contract says that the bytes
/// before `start` stay, the bytes of `s` follow, and the bytes from `end` on
/// come after them.
#[verifier::external_body]
fn replace_text(text: &mut String, start: usize, end: usize, s: &str)
    requires
        range_in(encode_utf8(old(text)@), (start, end)),
    ensures
        encode_utf8(final(text)@) == encode_utf8(old(text)@).subrange(
            0,
            start as int,
        ) + s.spec_bytes() + encode_utf8(old(text)@).subrange(
            end as int,
            encode_utf8(old(text)@).len() as int,
        ),
{
    text.replace_range(start..end, s)
}

/// The part of `text` from the byte position `start` up to `end`.
///
/// Stands for `str::get` with a range, which returns `None` where indexing
/// with the range would panic: where the range is out of bounds or an end
/// does not lie on a character boundary.
#[verifier::external_body]
fn slice_text(text: &str, start: usize, end: usize) -> (r: Option<&str>)
    ensures
        r is Some <==> range_in(text.spec_bytes(), (start, end)),
        r is Some ==> r->Some_0.spec_bytes() == text.spec_bytes().subrange(
            start as int,
            end as int,
        ),
{
    text.get(start..end)
}

/// A piece of text without line breaks, such as a paragraph, together with
/// the lines into which it was last wrapped for display.
#[derive(Debug)]
pub struct Chunk {
    /// The text.
    pub text: String,
    /// The byte positions at which each wrapped line starts and ends.
    pub wraps: Vec<(usize, usize)>,
    /// The width to which the chunk was wrapped.
    pub wrap_width: usize,
}

/// Does the range lie within text of the given bytes, on character
/// boundaries?
pub open spec fn range_in(bytes: Seq<u8>, range: (usize, usize)) -> bool {
    &&& range.0 <= range.1 <= bytes.len()
    &&& is_char_boundary(bytes, range.0 as int)
    &&& is_char_boundary(bytes, range.1 as int)
}

impl Chunk {
    /// The bytes of the text.
    pub open spec fn bytes(self) -> Seq<u8> {
        encode_utf8(self.text@)
    }

    /// The characters of the text.
    pub open spec fn chars(self) -> Seq<char> {
        self.text@
    }

    /// The length of the text, in bytes.
    pub open spec fn size(self) -> usize {
        self.bytes().len() as usize
    }

    /// A chunk of the given text, wrapped to the given width into the lines
    /// at `wraps`.
    pub fn new(s: &str, wrap: usize, wraps: Vec<(usize, usize)>) -> (c: Chunk)
        ensures
            c.chars() == s@,
            c.bytes() == s.spec_bytes(),
            c.wraps == wraps,
            c.wrap_width == wrap,
    {
        Chunk { text: s.to_owned(), wraps, wrap_width: wrap }
    }

    /// The text.
    pub fn as_str(&self) -> (s: &str)
        ensures
            s@ == self.chars(),
            s.spec_bytes() == self.bytes(),
    {
        self.text.as_str()
    }

    /// The length of the text, in bytes.
    pub fn len(&self) -> (n: usize)
        ensures
            n == self.size(),
    {
        self.text.as_str().len()
    }

    /// Wraps the chunk anew: it takes the lines at `wraps`, which are those
    /// of its text at the given width, and the result is their number.
    pub fn wrap(&mut self, width: usize, wraps: Vec<(usize, usize)>) -> (n: usize)
        ensures
            final(self).bytes() == old(self).bytes(),
            final(self).chars() == old(self).chars(),
            final(self).wraps == wraps,
            final(self).wrap_width == width,
            n == wraps@.len(),
    {
        self.wraps = wraps;
        self.wrap_width = width;
        self.wraps.len()
    }

    /// Adds `s` at the end of the text; `wraps` are the lines of the new
    /// text at the chunk's width.
    pub fn push_str(&mut self, s: &str, wraps: Vec<(usize, usize)>)
        ensures
            final(self).chars() == old(self).chars() + s@,
            final(self).wraps == wraps,
            final(self).wrap_width == old(self).wrap_width,
    {
        self.text.append(s);
        self.wraps = wraps;
    }

    /// Puts `s` into the text at the byte position `offset`, which must lie
    /// on a character boundary of the text; `wraps` are the lines of the new
    /// text at the chunk's width.
    pub fn insert(&mut self, offset: usize, s: &str, wraps: Vec<(usize, usize)>)
        requires
            offset <= old(self).bytes().len(),
            is_char_boundary(old(self).bytes(), offset as int),
        ensures
            final(self).bytes() == old(self).bytes().subrange(0, offset as int) + s.spec_bytes()
                + old(self).bytes().subrange(offset as int, old(self).bytes().len() as int),
            final(self).wraps == wraps,
            final(self).wrap_width == old(self).wrap_width,
    {
        insert_text(&mut self.text, offset, s);
        self.wraps = wraps;
    }

    /// Replaces the text from the byte position `start` up to `end` by `s`.
    /// Both positions must lie on character boundaries of the text; `wraps`
    /// are the lines of the new text at the chunk's width.
    pub fn replace_range(&mut self, start: usize, end: usize, s: &str, wraps: Vec<(usize, usize)>)
        requires
            range_in(old(self).bytes(), (start, end)),
        ensures
            final(self).bytes() == old(self).bytes().subrange(0, start as int) + s.spec_bytes()
                + old(self).bytes().subrange(end as int, old(self).bytes().len() as int),
            final(self).wraps == wraps,
            final(self).wrap_width == old(self).wrap_width,
    {
        replace_text(&mut self.text, start, end, s);
        self.wraps = wraps;
    }

    /// The text of the wrapped line `off`. There must be such a line, and it
    /// must lie within the text on character boundaries.
    pub fn wrapped_line(&self, off: usize) -> (s: &str)
        requires
            off < self.wraps@.len(),
            range_in(self.bytes(), self.wraps@[off as int]),
        ensures
            s.spec_bytes() == self.bytes().subrange(
                self.wraps@[off as int].0 as int,
                self.wraps@[off as int].1 as int,
            ),
    {
        let (start, end) = self.wraps[off];
        match slice_text(self.text.as_str(), start, end) {
            Some(line) => line,
            None => self.text.as_str(),
        }
    }
}

} // verus!
