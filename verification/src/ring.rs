//! Rate-adaptation ring buffer: bridges the chunked producer cadence and the
//! playback device's variable-size block requests.
//!
//! Samples are stored as the raw bit patterns of the device's
//! single-precision samples; the buffer itself never interprets them.

use vstd::prelude::*;
use vstd::arithmetic::div_mod::{
    lemma_add_mod_noop, lemma_mod_bound, lemma_mod_equivalence, lemma_small_mod,
};
use crate::CHUNK_SIZE;

verus! {

/// Capacity of the ring buffer: exactly twice the replenishment unit, so at
/// most one outstanding top-up chunk is ever buffered ahead of consumption.
pub const RING_CAPACITY: usize = 2 * CHUNK_SIZE;

/// Fixed-capacity circular store with one producer and one consumer. The
/// head is the oldest queued sample, the tail the next slot to be written;
/// the queued region never exceeds the capacity, so the read cursor never
/// passes the write cursor.
pub struct RingBuffer {
    buffer: Vec<u32>,
    head: usize,
    tail: usize,
    size: usize,
}

/// Shifting a sum into the window before taking the remainder changes
/// nothing: `((x % m) + y) % m == (x + y) % m` for offsets `y` below `m`.
proof fn lemma_mod_shift(x: int, y: int, m: int)
    requires
        m > 0,
        0 <= y < m,
    ensures
        ((x % m) + y) % m == (x + y) % m,
{
    lemma_small_mod(y as nat, m as nat);
    lemma_add_mod_noop(x, y, m);
}

/// Two distinct offsets within one capacity-sized window land on distinct
/// slots of the circular store.
proof fn lemma_mod_distinct(h: int, a: int, b: int, m: int)
    requires
        m > 0,
        0 <= a < b < m,
    ensures
        (h + a) % m != (h + b) % m,
{
    lemma_mod_equivalence(h + b, h + a, m);
    lemma_small_mod((b - a) as nat, m as nat);
}

impl RingBuffer {
    /// Structural invariant: full backing storage, cursors in range, and the
    /// write cursor sitting exactly `size` slots past the read cursor.
    pub closed spec fn inv(&self) -> bool {
        &&& self.buffer@.len() == RING_CAPACITY
        &&& self.head < RING_CAPACITY
        &&& self.size <= RING_CAPACITY
        &&& self.tail as int == (self.head as int + self.size as int) % (RING_CAPACITY as int)
    }

    /// The queued samples, oldest first.
    pub closed spec fn contents(&self) -> Seq<u32> {
        Seq::new(
            self.size as nat,
            |i: int| self.buffer@[(self.head as int + i) % (RING_CAPACITY as int)],
        )
    }

    /// An empty buffer.
    pub fn new() -> (r: RingBuffer)
        ensures
            r.inv(),
            r.contents() == Seq::<u32>::empty(),
    {
        let r = RingBuffer { buffer: vec![0u32; RING_CAPACITY], head: 0, tail: 0, size: 0 };
        proof {
            assert(r.contents() =~= Seq::<u32>::empty());
        }
        r
    }

    /// Appends every sample of `values`, oldest first, advancing the write
    /// cursor; the samples already queued stay untouched.
    pub fn push_slice(&mut self, values: &[u32])
        requires
            old(self).inv(),
            old(self).contents().len() + values@.len() <= RING_CAPACITY,
        ensures
            final(self).inv(),
            final(self).contents() == old(self).contents() + values@,
    {
        let ghost stream: Seq<u32> = old(self).contents() + values@;
        let ghost h = old(self).head as int;
        let ghost s = old(self).size as int;
        let ghost m = RING_CAPACITY as int;
        let mut i: usize = 0;
        while i < values.len()
            invariant
                old(self).inv(),
                h == old(self).head as int,
                s == old(self).size as int,
                m == RING_CAPACITY as int,
                s + values@.len() <= m,
                i <= values@.len(),
                stream == old(self).contents() + values@,
                self.buffer@.len() == RING_CAPACITY,
                self.head == old(self).head,
                self.size == old(self).size,
                self.tail as int == (h + s + i) % m,
                forall|k: int| 0 <= k < s + i ==> self.buffer@[(h + k) % m] == stream[k],
            decreases values@.len() - i,
        {
            proof {
                lemma_mod_bound(h + s + i, m);
            }
            let v: u32 = values[i];
            let ghost prev_buf = self.buffer@;
            self.buffer[self.tail] = v;
            proof {
                assert forall|k: int| 0 <= k < s + i + 1 implies self.buffer@[(h + k) % m]
                    == stream[k] by {
                    if k < s + i {
                        lemma_mod_distinct(h, k, s + i, m);
                        assert(self.buffer@[(h + k) % m] == prev_buf[(h + k) % m]);
                    } else {
                        assert(stream[s + i] == values@[i as int]);
                    }
                }
                lemma_mod_shift(h + s + i, 1, m);
            }
            self.tail = (self.tail + 1) % RING_CAPACITY;
            i = i + 1;
        }
        self.size = self.size + values.len();
        proof {
            assert(self.contents() =~= stream);
        }
    }

    /// Removes and returns the oldest queued sample; on an empty buffer it
    /// signals emptiness and leaves the queued contents untouched, never
    /// handing out stale data.
    pub fn pop(&mut self) -> (r: Option<u32>)
        requires
            old(self).inv(),
        ensures
            final(self).inv(),
            match r {
                Some(v) => {
                    &&& old(self).contents().len() > 0
                    &&& v == old(self).contents()[0]
                    &&& final(self).contents() == old(self).contents().skip(1)
                },
                None => {
                    &&& old(self).contents().len() == 0
                    &&& final(self).contents() == old(self).contents()
                },
            },
    {
        let ghost h = self.head as int;
        let ghost s = self.size as int;
        let ghost m = RING_CAPACITY as int;
        if self.size != 0 {
            let v: u32 = self.buffer[self.head];
            self.head = (self.head + 1) % RING_CAPACITY;
            self.size = self.size - 1;
            proof {
                lemma_mod_bound(h + 1, m);
                lemma_small_mod(0, m as nat);
                assert(v == old(self).contents()[0]);
                assert forall|j: int| 0 <= j < s - 1 implies self.contents()[j] == old(
                    self,
                ).contents().skip(1)[j] by {
                    lemma_mod_shift(h + 1, j, m);
                }
                assert(self.contents() =~= old(self).contents().skip(1));
                lemma_mod_shift(h + 1, s - 1, m);
            }
            Some(v)
        } else {
            proof {
                assert(self.contents() =~= old(self).contents());
            }
            None
        }
    }

    /// Number of samples currently queued.
    pub fn available_data(&self) -> (r: usize)
        requires
            self.inv(),
        ensures
            r == self.contents().len(),
    {
        self.size
    }
}

/// Decides whether the playback callback must pull another chunk upstream:
/// the queued mono samples, replicated across every output channel, do not
/// yet cover the requested block.
pub fn need_topup(available: usize, channels: usize, requested: usize) -> (r: bool)
    requires
        available <= RING_CAPACITY,
        channels <= 0xFFFF,
    ensures
        r == (available * channels < requested),
{
    proof {
        assert(available * channels <= RING_CAPACITY * 0xFFFF) by (nonlinear_arith)
            requires
                available <= RING_CAPACITY,
                channels <= 0xFFFF,
        ;
    }
    available * channels < requested
}

/// `chunk` repeated `n` times, the stream written by `n` equal pushes.
pub open spec fn repeat_chunk(chunk: Seq<u32>, n: nat) -> Seq<u32>
    decreases n,
{
    if n == 0 {
        Seq::empty()
    } else {
        repeat_chunk(chunk, (n - 1) as nat) + chunk
    }
}

/// Length of the repeated stream.
proof fn lemma_repeat_chunk_len(chunk: Seq<u32>, n: nat)
    ensures
        repeat_chunk(chunk, n).len() == n * chunk.len(),
    decreases n,
{
    let len = chunk.len();
    if n == 0 {
        assert(n * len == 0) by (nonlinear_arith)
            requires
                n == 0,
        ;
    } else {
        lemma_repeat_chunk_len(chunk, (n - 1) as nat);
        assert(repeat_chunk(chunk, n).len() == (n - 1) * len + len);
        assert((n - 1) * len + len == n * len) by (nonlinear_arith);
    }
}

/// Accounting law for the ring buffer: starting from an empty buffer, `n`
/// calls of `push_slice` with one `k`-sample chunk queue the stream
/// `repeat_chunk(chunk, n)` (by the `push_slice` contract), and `m`
/// successful `pop` calls remove exactly the first `m` samples of that
/// stream (by the `pop` contract), so `n * k - m` samples remain queued.
pub proof fn lemma_ring_buffer_accounting(chunk: Seq<u32>, n: nat, m: nat)
    requires
        m <= n * chunk.len(),
    ensures
        repeat_chunk(chunk, n).len() == n * chunk.len(),
        repeat_chunk(chunk, n).skip(m as int).len() == n * chunk.len() - m,
{
    lemma_repeat_chunk_len(chunk, n);
}

} // verus!
