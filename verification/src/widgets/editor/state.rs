use vstd::prelude::*;
use crate::widgets::editor::chunk::Chunk;
use crate::widgets::editor::primitives::InsertPos;

verus! {

/// The text of an editor: one chunk for each line of the text as it was
/// typed.
pub struct State {
    /// The chunks, from the first line to the last.
    pub chunks: Vec<Chunk>,
}

impl State {
    /// The number of chunks.
    pub open spec fn count(self) -> nat {
        self.chunks@.len()
    }

    /// The length of chunk `i`, in bytes.
    pub open spec fn chunk_size(self, i: int) -> usize {
        self.chunks@[i].size()
    }

    /// The number of wrapped lines of chunk `i`.
    pub open spec fn chunk_lines(self, i: int) -> nat {
        self.chunks@[i].wraps@.len()
    }

    /// There is at least one chunk.
    pub open spec fn wf(self) -> bool {
        self.count() > 0
    }

    /// The state that holds the given chunks; a state without text where
    /// there are none, which is one empty chunk of a single empty line.
    pub fn from_chunks(chunks: Vec<Chunk>) -> (s: State)
        ensures
            s.wf(),
            chunks@.len() > 0 ==> s.chunks == chunks,
            chunks@.len() == 0 ==> s.count() == 1 && s.chunk_size(0) == 0 && s.chunks@[0].wraps@
                == seq![(0usize, 0usize)],
    {
        if chunks.len() > 0 {
            State { chunks }
        } else {
            let mut wraps: Vec<(usize, usize)> = Vec::new();
            wraps.push((0, 0));
            let mut one: Vec<Chunk> = Vec::new();
            let c = Chunk::new("", 0, wraps);
            proof {
                reveal_strlit("");
                assert(""@ =~= Seq::<char>::empty());
                assert(vstd::utf8::encode_utf8(Seq::<char>::empty()).len() == 0);
            }
            one.push(c);
            State { chunks: one }
        }
    }

    /// The last place at which text can be put in: the end of the last
    /// chunk.
    pub fn last(&self) -> (p: InsertPos)
        requires
            self.wf(),
        ensures
            p.chunk == self.count() - 1,
            p.offset == self.chunk_size(self.count() - 1),
    {
        let chunk = self.chunks.len() - 1;
        InsertPos { chunk, offset: self.chunks[chunk].len() }
    }
}

} // verus!
