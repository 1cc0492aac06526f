//! Fixed-size chunk assembly for the capture callback: one-channel samples
//! are collected until a full chunk is ready to be handed downstream.

use vstd::prelude::*;
use crate::CHUNK_SIZE;

verus! {

/// Collects samples (as raw bit patterns) into chunks of `CHUNK_SIZE`.
pub struct ChunkAssembler {
    buf: Vec<u32>,
    filled: usize,
}

impl ChunkAssembler {
    /// Structural invariant: full backing storage, fill level strictly below
    /// one chunk (a full chunk is emitted at once, never kept).
    pub closed spec fn inv(&self) -> bool {
        &&& self.buf@.len() == CHUNK_SIZE
        &&& self.filled < CHUNK_SIZE
    }

    /// The samples collected since the last emitted chunk, oldest first.
    pub closed spec fn pending(&self) -> Seq<u32> {
        self.buf@.take(self.filled as int)
    }

    /// An empty assembler.
    pub fn new() -> (r: ChunkAssembler)
        ensures
            r.inv(),
            r.pending() == Seq::<u32>::empty(),
    {
        let r = ChunkAssembler { buf: vec![0u32; CHUNK_SIZE], filled: 0 };
        proof {
            assert(r.pending() =~= Seq::<u32>::empty());
        }
        r
    }

    /// Accepts one sample; once it completes a chunk, the whole chunk is
    /// emitted and collection starts over.
    pub fn push(&mut self, sample: u32) -> (out: Option<Vec<u32>>)
        requires
            old(self).inv(),
        ensures
            final(self).inv(),
            match out {
                Some(chunk) => {
                    &&& chunk@ == old(self).pending().push(sample)
                    &&& chunk@.len() == CHUNK_SIZE
                    &&& final(self).pending() == Seq::<u32>::empty()
                },
                None => {
                    &&& final(self).pending() == old(self).pending().push(sample)
                    &&& old(self).pending().len() + 1 < CHUNK_SIZE
                },
            },
    {
        self.buf[self.filled] = sample;
        self.filled = self.filled + 1;
        proof {
            assert(self.buf@.take(self.filled as int) =~= old(self).pending().push(sample));
        }
        if self.filled == CHUNK_SIZE {
            self.filled = 0;
            let mut chunk: Vec<u32> = Vec::with_capacity(CHUNK_SIZE);
            let mut i: usize = 0;
            while i < CHUNK_SIZE
                invariant
                    i <= CHUNK_SIZE,
                    self.buf@.len() == CHUNK_SIZE,
                    chunk@ == self.buf@.take(i as int),
                decreases CHUNK_SIZE - i,
            {
                let v: u32 = self.buf[i];
                chunk.push(v);
                proof {
                    assert(chunk@ =~= self.buf@.take(i + 1));
                }
                i = i + 1;
            }
            proof {
                assert(chunk@ =~= self.buf@);
                assert(self.pending() =~= Seq::<u32>::empty());
            }
            Some(chunk)
        } else {
            None
        }
    }
}

} // verus!
