//! Byte framing for the telemetry sinks: 32-bit sample patterns serialized
//! four bytes each, least significant byte first (the byte order of the
//! supported targets).

use vstd::prelude::*;

verus! {

/// The four bytes of `x`, least significant first.
pub open spec fn le_bytes_of(x: u32) -> Seq<u8> {
    seq![
        (x & 0xff) as u8,
        ((x >> 8) & 0xff) as u8,
        ((x >> 16) & 0xff) as u8,
        ((x >> 24) & 0xff) as u8,
    ]
}

/// Serializes one sample pattern, as the level-metric sink expects it.
pub fn sample_to_bytes(x: u32) -> (r: Vec<u8>)
    ensures
        r@ == le_bytes_of(x),
        r@.len() == 4,
{
    proof {
        assert(x & 0xff <= 0xff) by (bit_vector);
        assert((x >> 8) & 0xff <= 0xff) by (bit_vector);
        assert((x >> 16) & 0xff <= 0xff) by (bit_vector);
        assert((x >> 24) & 0xff <= 0xff) by (bit_vector);
    }
    let mut r: Vec<u8> = Vec::with_capacity(4);
    r.push((x & 0xff) as u8);
    r.push(((x >> 8) & 0xff) as u8);
    r.push(((x >> 16) & 0xff) as u8);
    r.push(((x >> 24) & 0xff) as u8);
    proof {
        assert(r@ =~= le_bytes_of(x));
    }
    r
}

/// Serializes a whole chunk for the raw-sample sink: the four-byte frames of
/// every sample, concatenated in order.
pub fn encode_chunk(samples: &Vec<u32>) -> (r: Vec<u8>)
    requires
        samples@.len() <= 0x1000_0000,
    ensures
        r@.len() == 4 * samples@.len(),
        forall|i: int|
            0 <= i < samples@.len() ==> r@.subrange(4 * i, 4 * i + 4) == le_bytes_of(samples@[i]),
{
    let mut r: Vec<u8> = Vec::new();
    let mut i: usize = 0;
    while i < samples.len()
        invariant
            i <= samples@.len(),
            samples@.len() <= 0x1000_0000,
            r@.len() == 4 * i,
            forall|k: int|
                0 <= k < i ==> r@.subrange(4 * k, 4 * k + 4) == le_bytes_of(samples@[k]),
        decreases samples@.len() - i,
    {
        let ghost prev = r@;
        let mut frame = sample_to_bytes(samples[i]);
        r.append(&mut frame);
        proof {
            assert forall|k: int| 0 <= k < i + 1 implies r@.subrange(4 * k, 4 * k + 4)
                == le_bytes_of(samples@[k]) by {
                if k < i {
                    assert(r@.subrange(4 * k, 4 * k + 4) =~= prev.subrange(4 * k, 4 * k + 4));
                } else {
                    assert(r@.subrange(4 * k, 4 * k + 4) =~= le_bytes_of(samples@[k]));
                }
            }
        }
        i = i + 1;
    }
    r
}

} // verus!
