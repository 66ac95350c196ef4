//! Little-endian integers as byte sequences.
//!
//! Every multi-byte field of a RIFF/WAVE container is little-endian. The
//! functions here say which integer a run of bytes stands for and which bytes
//! an integer is written as, in plain arithmetic, and prove that reading
//! back what was written gives the integer that was written.

use vstd::prelude::*;

verus! {

/// The unsigned 16-bit integer whose little-endian bytes are `s[at]` and
/// `s[at + 1]`.
pub open spec fn u16_at(s: Seq<u8>, at: int) -> u16 {
    (s[at] as int + 0x100 * (s[at + 1] as int)) as u16
}

/// The unsigned 32-bit integer whose little-endian bytes are `s[at]` to
/// `s[at + 3]`.
pub open spec fn u32_at(s: Seq<u8>, at: int) -> u32 {
    (s[at] as int + 0x100 * (s[at + 1] as int) + 0x1_0000 * (s[at + 2] as int) + 0x100_0000 * (s[at
        + 3] as int)) as u32
}

/// The two bytes of `x`, least significant first.
pub open spec fn u16_bytes(x: u16) -> Seq<u8> {
    seq![(x % 0x100) as u8, (x / 0x100) as u8]
}

/// The four bytes of `x`, least significant first.
pub open spec fn u32_bytes(x: u32) -> Seq<u8> {
    seq![
        (x % 0x100) as u8,
        ((x / 0x100) % 0x100) as u8,
        ((x / 0x1_0000) % 0x100) as u8,
        (x / 0x100_0000) as u8,
    ]
}

/// The bit pattern of a signed sample, read as an unsigned integer (two's
/// complement).
pub open spec fn i16_bits(x: i16) -> u16 {
    if x >= 0 {
        x as u16
    } else {
        (x + 0x1_0000) as u16
    }
}

/// The two bytes of a signed sample, least significant first.
pub open spec fn i16_bytes(x: i16) -> Seq<u8> {
    u16_bytes(i16_bits(x))
}

/// A run of samples as raw bytes: two bytes per sample, in order.
pub open spec fn samples_bytes(samples: Seq<i16>) -> Seq<u8> {
    Seq::new(2 * samples.len(), |i: int| i16_bytes(samples[i / 2])[i % 2])
}

/// Reading back the bytes of a 16-bit integer gives the integer.
pub proof fn lemma_u16_round_trip(x: u16)
    ensures
        u16_bytes(x).len() == 2,
        u16_at(u16_bytes(x), 0) == x,
{
}

/// Reading back the bytes of a 32-bit integer gives the integer.
pub proof fn lemma_u32_round_trip(x: u32)
    ensures
        u32_bytes(x).len() == 4,
        u32_at(u32_bytes(x), 0) == x,
{
}

/// Two signed samples with the same bytes are the same sample.
pub proof fn lemma_i16_bytes_injective(x: i16, y: i16)
    requires
        i16_bytes(x) == i16_bytes(y),
    ensures
        x == y,
{
    lemma_u16_round_trip(i16_bits(x));
    lemma_u16_round_trip(i16_bits(y));
}

} // verus!
