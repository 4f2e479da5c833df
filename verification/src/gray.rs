//! The reflected-binary (Gray code) transform applied to every channel value
//! before a bit plane is read, and inverted when a plane is written back.
//!
//! In a Gray-coded value, adjacent intensities differ in exactly one bit, so
//! bit-plane content tracks visual texture instead of binary-counting
//! artifacts.

use vstd::prelude::*;

verus! {

/// `v XOR (v >> 1)`: the Gray code of a channel value.
pub open spec fn spec_gray_encode(v: u8) -> u8 {
    v ^ (v >> 1u8)
}

/// The inverse transform, as the closed-form XOR of all right shifts.
pub open spec fn spec_gray_decode(g: u8) -> u8 {
    g ^ (g >> 1u8) ^ (g >> 2u8) ^ (g >> 3u8) ^ (g >> 4u8) ^ (g >> 5u8) ^ (g >> 6u8)
        ^ (g >> 7u8)
}

/// Gray-encode one channel value.
pub fn encode(v: u8) -> (r: u8)
    ensures
        r == spec_gray_encode(v),
{
    v ^ (v >> 1u8)
}

/// Recover a channel value from its Gray code by folding in every right
/// shift until the shift reaches zero.
pub fn decode(g: u8) -> (r: u8)
    ensures
        r == spec_gray_decode(g),
{
    let mut bin: u8 = g;
    let mut shift: u8 = 1;
    while shift < 8
        invariant
            1 <= shift <= 8,
            bin == spec_gray_partial(g, shift as int),
        decreases 8 - shift,
    {
        bin = bin ^ (g >> shift);
        shift = shift + 1;
    }
    assert(bin == spec_gray_decode(g)) by {
        reveal_with_fuel(spec_gray_partial, 9);
    }
    bin
}

/// The XOR of `g` with its first `k - 1` right shifts; `decode` builds this
/// up one shift at a time.
pub open spec fn spec_gray_partial(g: u8, k: int) -> u8
    decreases k,
{
    if k <= 1 {
        g
    } else {
        spec_gray_partial(g, k - 1) ^ (g >> ((k - 1) as u8))
    }
}

/// Decoding inverts encoding, and encoding inverts decoding, on every byte.
pub proof fn lemma_gray_round_trip()
    by (bit_vector)
    ensures
        forall|v: u8| #[trigger] spec_gray_decode(spec_gray_encode(v)) == v,
        forall|g: u8| #[trigger] spec_gray_encode(spec_gray_decode(g)) == g,
{
}

} // verus!
