//! The payload bitstream: a 32-bit big-endian length prefix followed by the
//! payload bytes, most significant bit first, consumed left-to-right by a
//! single monotonic cursor during embedding.

use vstd::arithmetic::power2::{lemma2_to64, lemma_pow2_strictly_increases, pow2};
use vstd::prelude::*;

verus! {

/// The value of a bit string read as a big-endian number.
pub open spec fn spec_be_val(bits: Seq<bool>) -> int
    decreases bits.len(),
{
    if bits.len() == 0 {
        0
    } else {
        2 * spec_be_val(bits.drop_last()) + if bits.last() {
            1int
        } else {
            0int
        }
    }
}

/// The 32 bits of a length word, most significant first.
pub open spec fn spec_u32_bits(v: u32) -> Seq<bool> {
    Seq::new(32, |i: int| (v >> ((31 - i) as u32)) & 1 == 1)
}

/// The 8 bits of a byte, most significant first.
pub open spec fn spec_byte_bits(b: u8) -> Seq<bool> {
    Seq::new(8, |i: int| (b >> ((7 - i) as u8)) & 1 == 1)
}

/// All bits of a byte string, each byte most significant bit first.
pub open spec fn spec_bytes_bits(p: Seq<u8>) -> Seq<bool> {
    Seq::new(8 * p.len(), |i: int| spec_byte_bits(p[i / 8])[i % 8])
}

/// The framed bitstream that is hidden in a carrier: the payload length as
/// 32 big-endian bits, then the payload bits.
pub open spec fn spec_frame_bits(p: Seq<u8>) -> Seq<bool> {
    spec_u32_bits(p.len() as u32) + spec_bytes_bits(p)
}

/// The bytes read back from a bit string, eight bits at a time; a trailing
/// partial group is dropped.
pub open spec fn spec_bits_to_bytes(bits: Seq<bool>) -> Seq<u8> {
    Seq::new(bits.len() / 8, |i: int| spec_be_val(bits.subrange(8 * i, 8 * i + 8)) as u8)
}

/// A big-endian reading is bounded by two to the number of bits.
pub proof fn lemma_be_val_bound(bits: Seq<bool>)
    ensures
        0 <= spec_be_val(bits) < pow2(bits.len() as nat),
    decreases bits.len(),
{
    if bits.len() == 0 {
        lemma2_to64();
    } else {
        lemma_be_val_bound(bits.drop_last());
        assert(pow2(bits.len() as nat) == 2 * pow2((bits.len() - 1) as nat)) by {
            vstd::arithmetic::power2::lemma_pow2_unfold(bits.len() as nat);
        }
    }
}

/// Reading the most-significant-first bits of a bounded value gives the
/// value back.
proof fn lemma_be_val_of_bits(v: u32, n: int)
    requires
        0 <= n <= 32,
        v < pow2(n as nat),
    ensures
        spec_be_val(Seq::new(n as nat, |i: int| (v >> ((n - 1 - i) as u32)) & 1 == 1)) == v,
    decreases n,
{
    let bits = Seq::new(n as nat, |i: int| (v >> ((n - 1 - i) as u32)) & 1 == 1);
    if n == 0 {
        assert(pow2(0) == 1) by {
            lemma2_to64();
        }
    } else {
        let half = v >> 1u32;
        assert(v >> 1u32 == v / 2 && (v & 1 == 1) == (v % 2 == 1)) by (bit_vector);
        assert(pow2(n as nat) == 2 * pow2((n - 1) as nat)) by {
            vstd::arithmetic::power2::lemma_pow2_unfold(n as nat);
        }
        assert(half < pow2((n - 1) as nat));
        lemma_be_val_of_bits(half, n - 1);
        let prev = Seq::new((n - 1) as nat, |i: int| (half >> ((n - 2 - i) as u32)) & 1 == 1);
        assert(forall|k: u32| k < 32 ==> ((v >> 1u32) >> k) & 1 == (v >> ((k + 1) as u32)) & 1)
            by (bit_vector);
        assert(bits.drop_last() =~= prev);
        assert(bits.last() == ((v >> 0u32) & 1 == 1));
        assert((v >> 0u32) & 1 == v % 2) by (bit_vector);
        assert(spec_be_val(bits) == 2 * spec_be_val(prev) + v % 2);
    }
}

/// The 32-bit length prefix reads back as the length it encodes.
pub proof fn lemma_be_val_u32(v: u32)
    ensures
        spec_be_val(spec_u32_bits(v)) == v,
{
    assert(v < pow2(32)) by {
        lemma2_to64();
    }
    lemma_be_val_of_bits(v, 32);
    assert(spec_u32_bits(v) =~= Seq::new(32, |i: int| (v >> ((31 - i) as u32)) & 1 == 1));
}

/// A byte's bits read back as the byte.
pub proof fn lemma_be_val_byte(b: u8)
    ensures
        spec_be_val(spec_byte_bits(b)) == b,
{
    let v = b as u32;
    assert(v < pow2(8)) by {
        lemma2_to64();
    }
    lemma_be_val_of_bits(v, 8);
    let vb = Seq::new(8, |i: int| (v >> ((7 - i) as u32)) & 1 == 1);
    assert(forall|k: u32|
        #![trigger (b >> (k as u8))]
        k < 8 ==> (((b as u32) >> k) & 1 == 1) == ((b >> (k as u8)) & 1 == 1)) by (bit_vector);
    assert(spec_byte_bits(b) =~= vb);
}

/// Index arithmetic for eight-bit groups.
proof fn lemma_group8(i: int, j: int)
    by (nonlinear_arith)
    requires
        0 <= j < 8,
        0 <= i,
    ensures
        (8 * i + j) / 8 == i,
        (8 * i + j) % 8 == j,
{
}

/// The bits of a byte string, taken eight at a time, give the bytes back.
pub proof fn lemma_bytes_bits_round_trip(p: Seq<u8>)
    ensures
        spec_bits_to_bytes(spec_bytes_bits(p)) == p,
{
    let bits = spec_bytes_bits(p);
    assert(bits.len() == 8 * p.len());
    assert(bits.len() / 8 == p.len()) by {
        lemma_group8(p.len() as int, 0);
    }
    assert forall|i: int| 0 <= i < p.len() implies spec_be_val(
        bits.subrange(8 * i, 8 * i + 8),
    ) as u8 == p[i] by {
        assert forall|j: int| 0 <= j < 8 implies bits[8 * i + j] == spec_byte_bits(p[i])[j] by {
            lemma_group8(i, j);
        }
        assert(bits.subrange(8 * i, 8 * i + 8) =~= spec_byte_bits(p[i]));
        lemma_be_val_byte(p[i]);
    }
    assert(spec_bits_to_bytes(bits) =~= p);
}

/// Pack a bit string into bytes, eight bits at a time, most significant
/// first; a trailing group of fewer than eight bits is dropped.
pub fn bits_to_bytes(bits: &Vec<bool>) -> (r: Vec<u8>)
    ensures
        r@ == spec_bits_to_bytes(bits@),
{
    let mut out: Vec<u8> = Vec::new();
    let n_bytes: usize = bits.len() / 8;
    let mut i: usize = 0;
    while i < n_bytes
        invariant
            n_bytes == bits@.len() / 8,
            bits@.len() <= usize::MAX,
            i <= n_bytes,
            out@.len() == i,
            forall|k: int| 0 <= k < i ==> out@[k] == spec_bits_to_bytes(bits@)[k],
        decreases n_bytes - i,
    {
        let mut byte: u8 = 0;
        let mut j: usize = 0;
        proof {
            lemma_group8(i as int, 0);
            assert(8 * i + 8 <= bits@.len()) by (nonlinear_arith)
                requires
                    i < n_bytes,
                    n_bytes == bits@.len() / 8,
            ;
        }
        let ghost chunk = bits@.subrange(8 * i, 8 * i + 8);
        while j < 8
            invariant
                j <= 8,
                i < n_bytes,
                n_bytes == bits@.len() / 8,
                bits@.len() <= usize::MAX,
                8 * i + 8 <= bits@.len(),
                chunk == bits@.subrange(8 * i as int, 8 * i + 8),
                byte as int == spec_be_val(chunk.take(j as int)),
            decreases 8 - j,
        {
            proof {
                lemma_be_val_bound(chunk.take(j as int));
                lemma2_to64();
                if (j as nat) < 7 {
                    lemma_pow2_strictly_increases(j as nat, 7);
                }
                assert(chunk.take(j + 1).drop_last() =~= chunk.take(j as int));
            }
            assert(8 * i + j < bits@.len());
            let idx: usize = 8 * i + j;
            let bit = bits[idx];
            byte = byte * 2 + if bit {
                1
            } else {
                0
            };
            j = j + 1;
        }
        proof {
            assert(chunk.take(8) =~= chunk);
        }
        out.push(byte);
        i = i + 1;
    }
    assert(out@ =~= spec_bits_to_bytes(bits@));
    out
}

/// Build the framed bitstream for a payload: 32 length bits, then the
/// payload bits.
pub fn build_frame(payload: &[u8]) -> (r: Vec<bool>)
    requires
        payload@.len() < 0x1_0000_0000,
    ensures
        r@ == spec_frame_bits(payload@),
        r@.len() == 32 + 8 * payload@.len(),
{
    let len32: u32 = payload.len() as u32;
    let mut bits: Vec<bool> = Vec::new();
    let mut i: usize = 0;
    while i < 32
        invariant
            i <= 32,
            len32 == payload@.len(),
            bits@.len() == i,
            forall|k: int| 0 <= k < i ==> bits@[k] == spec_u32_bits(len32)[k],
        decreases 32 - i,
    {
        bits.push((len32 >> ((31 - i) as u32)) & 1 == 1);
        i = i + 1;
    }
    let mut bi: usize = 0;
    while bi < payload.len()
        invariant
            bi <= payload@.len(),
            len32 == payload@.len(),
            payload@.len() < 0x1_0000_0000,
            bits@.len() == 32 + 8 * bi,
            forall|k: int| 0 <= k < 32 ==> bits@[k] == spec_u32_bits(len32)[k],
            forall|k: int|
                32 <= k < bits@.len() ==> bits@[k] == spec_bytes_bits(payload@)[k - 32],
        decreases payload@.len() - bi,
    {
        let byte: u8 = payload[bi];
        let mut j: usize = 0;
        while j < 8
            invariant
                j <= 8,
                bi < payload@.len(),
                byte == payload@[bi as int],
                len32 == payload@.len(),
                payload@.len() < 0x1_0000_0000,
                bits@.len() == 32 + 8 * bi + j,
                forall|k: int| 0 <= k < 32 ==> bits@[k] == spec_u32_bits(len32)[k],
                forall|k: int|
                    32 <= k < bits@.len() ==> bits@[k] == spec_bytes_bits(payload@)[k - 32],
            decreases 8 - j,
        {
            proof {
                lemma_group8(bi as int, j as int);
            }
            bits.push((byte >> ((7 - j) as u8)) & 1 == 1);
            j = j + 1;
        }
        bi = bi + 1;
    }
    assert(bits@ =~= spec_frame_bits(payload@));
    bits
}

/// Read the 32-bit big-endian length out of the first 32 collected bits.
pub fn be_u32_from_bits(bits: &Vec<bool>) -> (r: u32)
    requires
        bits@.len() >= 32,
    ensures
        r as int == spec_be_val(bits@.take(32)),
{
    let mut val: u32 = 0;
    let mut j: usize = 0;
    while j < 32
        invariant
            j <= 32,
            bits@.len() >= 32,
            val as int == spec_be_val(bits@.take(j as int)),
        decreases 32 - j,
    {
        proof {
            lemma_be_val_bound(bits@.take(j as int));
            lemma2_to64();
            if (j as nat) < 31 {
                lemma_pow2_strictly_increases(j as nat, 31);
            }
            assert(bits@.take(j + 1).drop_last() =~= bits@.take(j as int));
        }
        let bit = bits[j];
        val = val * 2 + if bit {
            1
        } else {
            0
        };
        j = j + 1;
    }
    val
}

} // verus!
