//! The embedder and the extractor of the bit-plane complexity segmentation
//! engine.
//!
//! Both passes walk the same deterministic sequence of triples — one 8x8
//! spatial block, one color channel (0..3), one bit plane (0..8), in
//! raster, channel, plane order — and classify each triple purely by the
//! complexity of what is physically stored there. That shared rule is the
//! cornerstone invariant of the design: it is what keeps the embedder and
//! the extractor synchronized without any side-channel bookkeeping.

use crate::bitstream::{
    be_u32_from_bits, bits_to_bytes, build_frame, lemma_be_val_u32,
    lemma_bytes_bits_round_trip, spec_be_val, spec_bits_to_bytes, spec_bytes_bits,
    spec_frame_bits, spec_u32_bits,
};
use crate::carrier::{lemma_index_bound, lemma_index_injective, spec_index, PixelGrid};
use crate::complexity::{
    calculate_complexity, conjugate, lemma_conjugation_raises_complexity, spec_checker,
    spec_complexity, spec_conjugate, COMPLEXITY_THRESHOLD,
};
use crate::errors::AegisError;
use crate::gray::{decode, encode, lemma_gray_round_trip, spec_gray_encode};
use vstd::prelude::*;

verus! {

/// Number of whole 8x8 blocks across the carrier; partial blocks at the
/// right edge are never used.
pub open spec fn spec_blocks_w(g: PixelGrid) -> int {
    g.width as int / 8
}

/// Number of whole 8x8 blocks down the carrier; partial blocks at the
/// bottom edge are never used.
pub open spec fn spec_blocks_h(g: PixelGrid) -> int {
    g.height as int / 8
}

/// Total number of scan triples: every whole block, times 3 color
/// channels, times 8 bit planes.
pub open spec fn spec_n_triples(g: PixelGrid) -> int {
    spec_blocks_w(g) * spec_blocks_h(g) * 24
}

/// The left pixel column of the spatial block of triple `t`.
pub open spec fn spec_t_bx(g: PixelGrid, t: int) -> int {
    8 * ((t / 24) % spec_blocks_w(g))
}

/// The top pixel row of the spatial block of triple `t`.
pub open spec fn spec_t_by(g: PixelGrid, t: int) -> int {
    8 * ((t / 24) / spec_blocks_w(g))
}

/// The color channel of triple `t`.
pub open spec fn spec_t_ch(t: int) -> int {
    (t % 24) / 8
}

/// The bit plane of triple `t`.
pub open spec fn spec_t_pl(t: int) -> int {
    t % 8
}

/// Bit `p` of the Gray-coded value of channel `c` at pixel `(x, y)`.
pub open spec fn spec_plane_bit(g: PixelGrid, x: int, y: int, c: int, p: int) -> bool {
    (spec_gray_encode(g.spec_byte(x, y, c)) >> (p as u8)) & 1 == 1
}

/// The 64 plane bits of the 8x8 block at `(x0, y0)`, channel `c`, plane
/// `p`, row-major.
pub open spec fn spec_block_at(g: PixelGrid, x0: int, y0: int, c: int, p: int) -> Seq<bool> {
    Seq::new(64, |i: int| spec_plane_bit(g, x0 + i % 8, y0 + i / 8, c, p))
}

/// What is physically stored at triple `t` of the carrier.
pub open spec fn spec_stored_block(g: PixelGrid, t: int) -> Seq<bool> {
    spec_block_at(g, spec_t_bx(g, t), spec_t_by(g, t), spec_t_ch(t), spec_t_pl(t))
}

/// The Gray value with bit `p` forced to `b`.
pub open spec fn spec_set_plane(gval: u8, p: u8, b: bool) -> u8 {
    if b {
        gval | (1u8 << p)
    } else {
        gval & !(1u8 << p)
    }
}

/// Forcing one plane bit leaves every other plane bit of the value alone.
proof fn lemma_set_plane_bits(gval: u8, p: u8, b: bool, q: u8)
    by (bit_vector)
    requires
        p < 8,
        q < 8,
    ensures
        ((spec_set_plane(gval, p, b) >> p) & 1 == 1) == b,
        q != p ==> (spec_set_plane(gval, p, b) >> q) & 1 == (gval >> q) & 1,
{
}

/// Every triple index decomposes into in-range block coordinates, channel
/// and plane.
proof fn lemma_triple_coords(g: PixelGrid, t: int)
    requires
        0 <= t < spec_n_triples(g),
    ensures
        0 <= spec_t_bx(g, t) && spec_t_bx(g, t) + 8 <= 8 * spec_blocks_w(g),
        0 <= spec_t_by(g, t) && spec_t_by(g, t) + 8 <= 8 * spec_blocks_h(g),
        8 * spec_blocks_w(g) <= g.width,
        8 * spec_blocks_h(g) <= g.height,
        0 <= spec_t_ch(t) < 3,
        0 <= spec_t_pl(t) < 8,
{
    let bw = spec_blocks_w(g);
    let bh = spec_blocks_h(g);
    assert(bw >= 0 && bh >= 0);
    assert(t / 24 < bw * bh && t / 24 >= 0) by (nonlinear_arith)
        requires
            0 <= t < bw * bh * 24,
            bw >= 0,
            bh >= 0,
    ;
    assert(0 <= (t / 24) % bw < bw && 0 <= (t / 24) / bw < bh) by (nonlinear_arith)
        requires
            0 <= t / 24 < bw * bh,
            bw >= 0,
            bh >= 0,
    ;
    assert(8 * (g.width as int / 8) <= g.width as int);
    assert(8 * (g.height as int / 8) <= g.height as int);
    assert(0 <= (t % 24) / 8 < 3);
    assert(0 <= t % 8 < 8);
}

/// Two distinct triples differ in spatial block, channel or plane.
proof fn lemma_triple_distinct(g: PixelGrid, t1: int, t2: int)
    requires
        0 <= t1 < spec_n_triples(g),
        0 <= t2 < spec_n_triples(g),
        t1 != t2,
    ensures
        spec_t_bx(g, t1) != spec_t_bx(g, t2) || spec_t_by(g, t1) != spec_t_by(g, t2)
            || spec_t_ch(t1) != spec_t_ch(t2) || spec_t_pl(t1) != spec_t_pl(t2),
{
    let bw = spec_blocks_w(g);
    if spec_t_bx(g, t1) == spec_t_bx(g, t2) && spec_t_by(g, t1) == spec_t_by(g, t2)
        && spec_t_ch(t1) == spec_t_ch(t2) && spec_t_pl(t1) == spec_t_pl(t2) {
        assert((t1 / 24) % bw == (t2 / 24) % bw);
        assert((t1 / 24) / bw == (t2 / 24) / bw);
        assert(bw > 0) by (nonlinear_arith)
            requires
                0 <= t1 < bw * spec_blocks_h(g) * 24,
                bw >= 0,
        ;
        assert(t1 / 24 == t2 / 24) by (nonlinear_arith)
            requires
                (t1 / 24) % bw == (t2 / 24) % bw,
                (t1 / 24) / bw == (t2 / 24) / bw,
                bw > 0,
                t1 / 24 >= 0,
                t2 / 24 >= 0,
        ;
        assert((t1 % 24) / 8 == (t2 % 24) / 8 && t1 % 8 == t2 % 8);
        assert(t1 % 24 % 8 == t1 % 8 && t2 % 24 % 8 == t2 % 8) by (nonlinear_arith)
            requires
                t1 >= 0,
                t2 >= 0,
        ;
        assert(t1 % 24 == (t1 % 24) / 8 * 8 + t1 % 24 % 8);
        assert(t2 % 24 == (t2 % 24) / 8 * 8 + t2 % 24 % 8);
        assert(t1 == t1 / 24 * 24 + t1 % 24 && t2 == t2 / 24 * 24 + t2 % 24);
        assert(false);
    }
}

/// Read the Gray-coded plane bits of one 8x8 block.
fn read_block(g: &PixelGrid, x0: usize, y0: usize, c: usize, p: u8) -> (r: Vec<bool>)
    requires
        g.wf(),
        x0 + 8 <= g.width,
        y0 + 8 <= g.height,
        c < 3,
        p < 8,
    ensures
        r@ == spec_block_at(*g, x0 as int, y0 as int, c as int, p as int),
{
    let mut out: Vec<bool> = Vec::new();
    let mut i: usize = 0;
    while i < 64
        invariant
            i <= 64,
            g.wf(),
            x0 + 8 <= g.width,
            y0 + 8 <= g.height,
            c < 3,
            p < 8,
            out@.len() == i,
            forall|k: int|
                0 <= k < i ==> out@[k] == spec_block_at(*g, x0 as int, y0 as int, c as int, p as int)[k],
        decreases 64 - i,
    {
        let dx: usize = i % 8;
        let dy: usize = i / 8;
        let v: u8 = g.get(x0 + dx, y0 + dy, c);
        let gray: u8 = encode(v);
        out.push((gray >> p) & 1 == 1);
        i = i + 1;
    }
    assert(out@ =~= spec_block_at(*g, x0 as int, y0 as int, c as int, p as int));
    out
}

/// Write the 64 bits of `block` into plane `p` of channel `c` of the 8x8
/// block at `(x0, y0)`: each channel value is Gray-encoded, the plane bit
/// is forced, and the value is Gray-decoded back. Every other byte of the
/// grid, and every other Gray bit of the touched bytes, is left alone.
fn write_block(g: &mut PixelGrid, x0: usize, y0: usize, c: usize, p: u8, block: &Vec<bool>)
    requires
        old(g).wf(),
        x0 + 8 <= old(g).width,
        y0 + 8 <= old(g).height,
        c < 3,
        p < 8,
        block@.len() == 64,
    ensures
        final(g).wf(),
        final(g).width == old(g).width,
        final(g).height == old(g).height,
        forall|x: int, y: int, cc: int|
            0 <= x < old(g).width && 0 <= y < old(g).height && 0 <= cc < 4 && !(x0 <= x < x0 + 8
                && y0 <= y < y0 + 8 && cc == c) ==> final(g).spec_byte(x, y, cc) == old(
                g,
            ).spec_byte(x, y, cc),
        forall|i: int|
            0 <= i < 64 ==> spec_gray_encode(
                final(g).spec_byte(x0 + i % 8, y0 + i / 8, c as int),
            ) == spec_set_plane(
                spec_gray_encode(old(g).spec_byte(x0 + i % 8, y0 + i / 8, c as int)),
                p,
                block@[i],
            ),
{
    let ghost g0 = *g;
    let mut i: usize = 0;
    while i < 64
        invariant
            i <= 64,
            g.wf(),
            g.width == g0.width,
            g.height == g0.height,
            g0.wf(),
            x0 + 8 <= g.width,
            y0 + 8 <= g.height,
            c < 3,
            p < 8,
            block@.len() == 64,
            forall|x: int, y: int, cc: int|
                0 <= x < g0.width && 0 <= y < g0.height && 0 <= cc < 4 && !(x0 <= x < x0 + 8 && y0
                    <= y < y0 + 8 && cc == c) ==> g.spec_byte(x, y, cc) == g0.spec_byte(x, y, cc),
            forall|k: int|
                0 <= k < i ==> spec_gray_encode(g.spec_byte(x0 + k % 8, y0 + k / 8, c as int))
                    == spec_set_plane(
                    spec_gray_encode(g0.spec_byte(x0 + k % 8, y0 + k / 8, c as int)),
                    p,
                    block@[k],
                ),
            forall|k: int|
                #![trigger (k % 8)]
                i <= k < 64 ==> g.spec_byte(x0 + k % 8, y0 + k / 8, c as int) == g0.spec_byte(
                    x0 + k % 8,
                    y0 + k / 8,
                    c as int,
                ),
        decreases 64 - i,
    {
        let dx: usize = i % 8;
        let dy: usize = i / 8;
        let x: usize = x0 + dx;
        let y: usize = y0 + dy;
        let ghost pre = *g;
        let v: u8 = g.get(x, y, c);
        let gray: u8 = encode(v);
        let mask: u8 = 1u8 << p;
        let ngray: u8 = if block[i] {
            gray | mask
        } else {
            gray & !mask
        };
        assert(ngray == spec_set_plane(gray, p, block@[i as int]));
        let nv: u8 = decode(ngray);
        proof {
            lemma_gray_round_trip();
        }
        g.set(x, y, c, nv);
        proof {
            let w = g0.width as int;
            let h = g0.height as int;
            let idx = spec_index(w, x as int, y as int, c as int);
            lemma_index_bound(w, h, x as int, y as int, c as int);
            assert forall|x2: int, y2: int, c2: int|
                0 <= x2 < w && 0 <= y2 < h && 0 <= c2 < 4 && (x2, y2, c2) != (
                x as int,
                y as int,
                c as int,
            ) implies g.spec_byte(x2, y2, c2) == pre.spec_byte(x2, y2, c2) by {
                lemma_index_injective(w, h, x2, y2, c2, x as int, y as int, c as int);
                lemma_index_bound(w, h, x2, y2, c2);
            }
            assert forall|k: int|
                #![trigger (k % 8)]
                0 <= k < 64 && k != i implies (x0 + k % 8, y0 + k / 8) != (
                x as int,
                y as int,
            ) by {
                if x0 + k % 8 == x as int && y0 + k / 8 == y as int {
                    assert(k % 8 == dx && k / 8 == dy);
                    assert(k == 8 * (k / 8) + k % 8);
                    assert(i == 8 * (i / 8) + i % 8);
                }
            }
        }
        i = i + 1;
    }
}

/// The 63 payload bits a vessel block carries: cells 1..64 in row-major
/// order, undone through the checkerboard when the flag cell says the
/// block was conjugated.
pub open spec fn spec_block_data_bits(b: Seq<bool>) -> Seq<bool> {
    Seq::new(63, |j: int| if b[0] {
        b[j + 1] != spec_checker(j + 1)
    } else {
        b[j + 1]
    })
}

/// What triple `t` contributes to the recovered bitstream: 63 bits when
/// the stored block is a vessel, nothing otherwise.
pub open spec fn spec_triple_bits(g: PixelGrid, t: int) -> Seq<bool> {
    if spec_complexity(spec_stored_block(g, t)) > COMPLEXITY_THRESHOLD {
        spec_block_data_bits(spec_stored_block(g, t))
    } else {
        Seq::empty()
    }
}

/// The bitstream recovered from the first `t` triples of the scan.
pub open spec fn spec_scan_bits_upto(g: PixelGrid, t: int) -> Seq<bool>
    decreases t,
{
    if t <= 0 {
        Seq::empty()
    } else {
        spec_scan_bits_upto(g, t - 1) + spec_triple_bits(g, t - 1)
    }
}

/// The full bitstream stored in the carrier, in scan order.
pub open spec fn spec_scan_bits(g: PixelGrid) -> Seq<bool> {
    spec_scan_bits_upto(g, spec_n_triples(g))
}

/// Upper bound accepted for the declared payload length, in bytes.
pub const MAX_PAYLOAD_LEN: u32 = 100_000_000;

/// What extraction recovers from a stored carrier: the first 32 scanned
/// bits declare the payload length, the following `8 * length` bits are
/// the payload. The length is rejected as corrupt as soon as it is known;
/// a carrier with too few vessel bits yields `PayloadNotFound`.
pub open spec fn spec_recovered_payload(g: PixelGrid) -> Result<Seq<u8>, AegisError> {
    let s = spec_scan_bits(g);
    if s.len() < 32 {
        Err(AegisError::PayloadNotFound)
    } else {
        let len = spec_be_val(s.take(32));
        if len > MAX_PAYLOAD_LEN {
            Err(AegisError::CorruptPayload)
        } else if s.len() >= 32 + 8 * len {
            Ok(spec_bits_to_bytes(s.subrange(32, 32 + 8 * len)))
        } else {
            Err(AegisError::PayloadNotFound)
        }
    }
}

/// A shorter scan is a prefix of a longer one.
proof fn lemma_scan_prefix(g: PixelGrid, t1: int, t2: int)
    requires
        0 <= t1 <= t2,
    ensures
        spec_scan_bits_upto(g, t1).len() <= spec_scan_bits_upto(g, t2).len(),
        spec_scan_bits_upto(g, t2).take(spec_scan_bits_upto(g, t1).len() as int)
            == spec_scan_bits_upto(g, t1),
    decreases t2 - t1,
{
    if t1 < t2 {
        lemma_scan_prefix(g, t1, t2 - 1);
        assert(spec_scan_bits_upto(g, t2).take(spec_scan_bits_upto(g, t1).len() as int)
            =~= spec_scan_bits_upto(g, t1));
    } else {
        assert(spec_scan_bits_upto(g, t2).take(spec_scan_bits_upto(g, t1).len() as int)
            =~= spec_scan_bits_upto(g, t1));
    }
}

/// The scan triple count fits in the carrier's own byte count.
proof fn lemma_n_triples_bound(g: PixelGrid)
    requires
        g.wf(),
    ensures
        0 <= spec_n_triples(g) <= g.width * g.height * 4,
        24 * (spec_blocks_w(g) * spec_blocks_h(g)) == spec_n_triples(g),
{
    let w = g.width as int;
    let h = g.height as int;
    assert(0 <= (w / 8) * (h / 8) * 24 <= w * h * 4 && 24 * ((w / 8) * (h / 8)) == (w / 8) * (h
        / 8) * 24) by (nonlinear_arith)
        requires
            w >= 0,
            h >= 0,
            8 * (w / 8) <= w,
            8 * (h / 8) <= h,
            w / 8 >= 0,
            h / 8 >= 0,
    ;
}

/// The coordinates the scan loops derive from a triple index agree with
/// the specification's decomposition.
proof fn lemma_triple_index(g: PixelGrid, t: int)
    requires
        g.wf(),
        0 <= t < spec_n_triples(g),
    ensures
        0 <= t / 24 < spec_blocks_w(g) * spec_blocks_h(g),
        spec_blocks_w(g) > 0,
        spec_t_bx(g, t) + 8 <= g.width,
        spec_t_by(g, t) + 8 <= g.height,
{
    lemma_triple_coords(g, t);
    let bw = spec_blocks_w(g);
    let bh = spec_blocks_h(g);
    assert(t / 24 < bw * bh && t / 24 >= 0 && bw > 0) by (nonlinear_arith)
        requires
            0 <= t < bw * bh * 24,
            bw >= 0,
            bh >= 0,
    ;
}

/// Append the 63 data bits of one vessel block to the collected
/// bitstream, undoing conjugation when the flag cell is set.
fn collect_block_bits(collected: &mut Vec<bool>, block: &Vec<bool>)
    requires
        block@.len() == 64,
    ensures
        final(collected)@ == old(collected)@ + spec_block_data_bits(block@),
{
    let is_conj: bool = block[0];
    let ghost before = collected@;
    let mut j: usize = 1;
    while j < 64
        invariant
            1 <= j <= 64,
            block@.len() == 64,
            is_conj == block@[0],
            collected@ == before + spec_block_data_bits(block@).take(j - 1),
        decreases 64 - j,
    {
        let pattern: bool = (j % 8 + j / 8) % 2 == 1;
        let bit: bool = if is_conj {
            block[j] != pattern
        } else {
            block[j]
        };
        assert(bit == spec_block_data_bits(block@)[j - 1]);
        collected.push(bit);
        proof {
            assert(spec_block_data_bits(block@).take(j as int) =~= spec_block_data_bits(
                block@,
            ).take(j - 1).push(bit));
        }
        j = j + 1;
    }
    proof {
        assert(spec_block_data_bits(block@).take(63) =~= spec_block_data_bits(block@));
    }
}

/// Recover the hidden payload from a stored carrier.
///
/// The scan mirrors the embedder's exactly; every classification uses only
/// the complexity of what is stored, so a block the embedder reverted is
/// skipped here too. Fails with `CorruptPayload` when the declared length
/// is implausible, and with `PayloadNotFound` when the carrier runs out of
/// vessel bits first.
#[verifier::loop_isolation(false)]
pub fn extract(g: &PixelGrid) -> (r: Result<Vec<u8>, AegisError>)
    requires
        g.wf(),
    ensures
        r is Ok <==> spec_recovered_payload(*g) is Ok,
        r is Ok ==> r->Ok_0@ == spec_recovered_payload(*g)->Ok_0,
        r is Err ==> r->Err_0 == spec_recovered_payload(*g)->Err_0,
{
    let buf_len: usize = g.data.len();
    let bw: usize = g.width / 8;
    let bh: usize = g.height / 8;
    proof {
        lemma_n_triples_bound(*g);
    }
    let nb: usize = bw * bh;
    let n_triples: usize = nb * 24;
    let mut collected: Vec<bool> = Vec::new();
    let mut length: u32 = 0;
    let mut have_length: bool = false;
    let mut t: usize = 0;
    while t < n_triples
        invariant
            g.wf(),
            bw == spec_blocks_w(*g),
            bh == spec_blocks_h(*g),
            n_triples == spec_n_triples(*g),
            t <= n_triples,
            collected@ == spec_scan_bits_upto(*g, t as int),
            have_length <==> collected@.len() >= 32,
            have_length ==> length as int == spec_be_val(collected@.take(32)) && length
                <= MAX_PAYLOAD_LEN,
            have_length ==> collected@.len() < 32 + 8 * (length as int),
        decreases n_triples - t,
    {
        proof {
            lemma_triple_index(*g, t as int);
        }
        let bi: usize = t / 24;
        let ch: usize = (t % 24) / 8;
        let pl: u8 = (t % 8) as u8;
        let x0: usize = (bi % bw) * 8;
        let y0: usize = (bi / bw) * 8;
        assert(x0 == spec_t_bx(*g, t as int) && y0 == spec_t_by(*g, t as int) && ch == spec_t_ch(
            t as int,
        ) && pl == spec_t_pl(t as int));
        let block = read_block(g, x0, y0, ch, pl);
        assert(block@ == spec_stored_block(*g, t as int));
        let k: u32 = calculate_complexity(&block);
        if k > COMPLEXITY_THRESHOLD {
            let ghost before = collected@;
            collect_block_bits(&mut collected, &block);
            proof {
                assert(collected@ == spec_scan_bits_upto(*g, t + 1));
                if before.len() >= 32 {
                    assert(collected@.take(32) =~= before.take(32));
                }
            }
            if !have_length && collected.len() >= 32 {
                let lv: u32 = be_u32_from_bits(&collected);
                proof {
                    lemma_scan_prefix(*g, t + 1, spec_n_triples(*g));
                    assert(spec_scan_bits(*g).take(32) =~= collected@.take(32));
                }
                if lv > MAX_PAYLOAD_LEN {
                    return Err(AegisError::CorruptPayload);
                }
                length = lv;
                have_length = true;
            }
            if have_length {
                let needed: usize = 32 + 8 * (length as usize);
                if collected.len() >= needed {
                    proof {
                        lemma_scan_prefix(*g, t + 1, spec_n_triples(*g));
                        assert(spec_scan_bits(*g).take(32) =~= collected@.take(32));
                    }
                    let mut payload_bits: Vec<bool> = Vec::new();
                    let mut j2: usize = 32;
                    while j2 < needed
                        invariant
                            32 <= j2 <= needed,
                            needed <= collected@.len(),
                            payload_bits@ == collected@.subrange(32, j2 as int),
                        decreases needed - j2,
                    {
                        payload_bits.push(collected[j2]);
                        proof {
                            assert(collected@.subrange(32, j2 + 1) =~= collected@.subrange(
                                32,
                                j2 as int,
                            ).push(collected@[j2 as int]));
                        }
                        j2 = j2 + 1;
                    }
                    let bytes = bits_to_bytes(&payload_bits);
                    proof {
                        let s = spec_scan_bits(*g);
                        assert(s.len() >= collected@.len());
                        assert(payload_bits@ =~= s.subrange(32, needed as int)) by {
                            assert(s.take(collected@.len() as int) == collected@);
                            assert forall|q: int| 32 <= q < needed implies s[q] == collected@[q] by {
                                assert(s.take(collected@.len() as int)[q] == collected@[q]);
                            }
                        }
                    }
                    return Ok(bytes);
                }
            }
        } else {
            proof {
                assert(collected@ == spec_scan_bits_upto(*g, t + 1));
            }
        }
        t = t + 1;
    }
    proof {
        if collected@.len() >= 32 {
            assert(spec_scan_bits(*g).take(32) =~= collected@.take(32));
        }
    }
    Err(AegisError::PayloadNotFound)
}

/// The candidate block the embedder builds at cursor `cur`: the flag cell
/// clear, the other 63 cells filled row-major with the next unconsumed
/// bits, padded with `false` past the end of the bitstream.
pub open spec fn spec_filled_block(bits: Seq<bool>, cur: int) -> Seq<bool> {
    Seq::new(64, |cell: int| cell != 0 && cur + cell - 1 < bits.len() && bits[cur + cell - 1])
}

/// The block as it will actually be written: the candidate itself when it
/// is already complex enough, its conjugate otherwise.
pub open spec fn spec_embedded_block(bits: Seq<bool>, cur: int) -> Seq<bool> {
    let t = spec_filled_block(bits, cur);
    if spec_complexity(t) > COMPLEXITY_THRESHOLD {
        t
    } else {
        spec_conjugate(t)
    }
}

/// Whether the written block stays above the threshold, so that the bits
/// it carries count as consumed. When it does not, the embedder writes the
/// simple block anyway — the extractor will skip it — and retries the same
/// bits on the next qualifying triple.
pub open spec fn spec_commits(bits: Seq<bool>, cur: int) -> bool {
    spec_complexity(spec_embedded_block(bits, cur)) > COMPLEXITY_THRESHOLD
}

/// The bit cursor after the embedder has processed the first `t` triples
/// of carrier `g0` with bitstream `bits`.
pub open spec fn spec_cursor_after(g0: PixelGrid, bits: Seq<bool>, t: int) -> int
    decreases t,
{
    if t <= 0 {
        0
    } else {
        let c = spec_cursor_after(g0, bits, t - 1);
        if c >= bits.len() {
            c
        } else if spec_complexity(spec_stored_block(g0, t - 1)) > COMPLEXITY_THRESHOLD {
            if spec_commits(bits, c) {
                if c + 63 <= bits.len() {
                    c + 63
                } else {
                    bits.len() as int
                }
            } else {
                c
            }
        } else {
            c
        }
    }
}

/// Whether the embedder writes anything at triple `t`: the cursor still
/// has bits left and the stored block qualifies as a vessel.
pub open spec fn spec_block_written(g0: PixelGrid, bits: Seq<bool>, t: int) -> bool {
    spec_cursor_after(g0, bits, t) < bits.len() && spec_complexity(spec_stored_block(g0, t))
        > COMPLEXITY_THRESHOLD
}

/// What triple `t` of the carrier holds after embedding.
pub open spec fn spec_final_block(g0: PixelGrid, bits: Seq<bool>, t: int) -> Seq<bool> {
    if spec_block_written(g0, bits, t) {
        spec_embedded_block(bits, spec_cursor_after(g0, bits, t))
    } else {
        spec_stored_block(g0, t)
    }
}

/// Whether carrier `g0` has room for the whole bitstream `bits`.
pub open spec fn spec_embedding_fits(g0: PixelGrid, bits: Seq<bool>) -> bool {
    spec_cursor_after(g0, bits, spec_n_triples(g0)) >= bits.len()
}

/// The cursor never runs past the bitstream and never moves backwards.
proof fn lemma_cursor_bounds(g0: PixelGrid, bits: Seq<bool>, t: int)
    requires
        t >= 0,
    ensures
        0 <= spec_cursor_after(g0, bits, t) <= bits.len(),
    decreases t,
{
    if t > 0 {
        lemma_cursor_bounds(g0, bits, t - 1);
    }
}

/// Once the cursor has consumed the whole bitstream it stays there.
proof fn lemma_cursor_stable(g0: PixelGrid, bits: Seq<bool>, t1: int, t2: int)
    requires
        0 <= t1 <= t2,
        spec_cursor_after(g0, bits, t1) >= bits.len(),
    ensures
        spec_cursor_after(g0, bits, t2) == spec_cursor_after(g0, bits, t1),
    decreases t2 - t1,
{
    if t1 < t2 {
        lemma_cursor_stable(g0, bits, t1, t2 - 1);
    }
}

/// After one block write, the written triple holds exactly the written
/// bits and every other triple of the carrier is untouched.
proof fn lemma_write_frame(go: PixelGrid, gn: PixelGrid, t: int, blk: Seq<bool>)
    requires
        go.wf(),
        gn.wf(),
        gn.width == go.width,
        gn.height == go.height,
        0 <= t < spec_n_triples(go),
        blk.len() == 64,
        forall|x: int, y: int, cc: int|
            0 <= x < go.width && 0 <= y < go.height && 0 <= cc < 4 && !(spec_t_bx(go, t) <= x
                < spec_t_bx(go, t) + 8 && spec_t_by(go, t) <= y < spec_t_by(go, t) + 8 && cc
                == spec_t_ch(t)) ==> gn.spec_byte(x, y, cc) == go.spec_byte(x, y, cc),
        forall|i: int|
            0 <= i < 64 ==> spec_gray_encode(
                gn.spec_byte(spec_t_bx(go, t) + i % 8, spec_t_by(go, t) + i / 8, spec_t_ch(t)),
            ) == spec_set_plane(
                spec_gray_encode(
                    go.spec_byte(spec_t_bx(go, t) + i % 8, spec_t_by(go, t) + i / 8, spec_t_ch(t)),
                ),
                spec_t_pl(t) as u8,
                blk[i],
            ),
    ensures
        spec_stored_block(gn, t) == blk,
        forall|t2: int|
            0 <= t2 < spec_n_triples(go) && t2 != t ==> spec_stored_block(gn, t2)
                == spec_stored_block(go, t2),
{
    let bx = spec_t_bx(go, t);
    let by = spec_t_by(go, t);
    let ch = spec_t_ch(t);
    let pl = spec_t_pl(t);
    lemma_triple_coords(go, t);
    assert forall|i: int| 0 <= i < 64 implies spec_stored_block(gn, t)[i] == blk[i] by {
        lemma_set_plane_bits(
            spec_gray_encode(go.spec_byte(bx + i % 8, by + i / 8, ch)),
            pl as u8,
            blk[i],
            pl as u8,
        );
    }
    assert(spec_stored_block(gn, t) =~= blk);
    assert forall|t2: int|
        0 <= t2 < spec_n_triples(go) && t2 != t implies spec_stored_block(gn, t2)
        == spec_stored_block(go, t2) by {
        lemma_triple_coords(go, t2);
        lemma_triple_distinct(go, t, t2);
        let bx2 = spec_t_bx(go, t2);
        let by2 = spec_t_by(go, t2);
        let ch2 = spec_t_ch(t2);
        let pl2 = spec_t_pl(t2);
        assert forall|i: int| 0 <= i < 64 implies spec_stored_block(gn, t2)[i]
            == spec_stored_block(go, t2)[i] by {
            let x2 = bx2 + i % 8;
            let y2 = by2 + i / 8;
            assert(0 <= i % 8 < 8 && 0 <= i / 8 < 8);
            if bx2 != bx || by2 != by || ch2 != ch {
                if bx2 != bx || by2 != by {
                    assert(!(bx <= x2 < bx + 8 && by <= y2 < by + 8));
                }
                assert(gn.spec_byte(x2, y2, ch2) == go.spec_byte(x2, y2, ch2));
            } else {
                assert(pl2 != pl);
                let cell = (i / 8) * 8 + i % 8;
                assert(cell == i);
                lemma_set_plane_bits(
                    spec_gray_encode(go.spec_byte(bx + cell % 8, by + cell / 8, ch)),
                    pl as u8,
                    blk[cell],
                    pl2 as u8,
                );
                assert(cell % 8 == i % 8 && cell / 8 == i / 8);
            }
        }
        assert(spec_stored_block(gn, t2) =~= spec_stored_block(go, t2));
    }
}

/// Build the candidate block for the cursor position: flag cell clear,
/// then the next 63 unconsumed bits, padded with `false`.
fn fill_block(bits: &Vec<bool>, cur: usize) -> (r: Vec<bool>)
    requires
        cur <= bits@.len(),
    ensures
        r@ == spec_filled_block(bits@, cur as int),
{
    let n: usize = bits.len();
    let mut out: Vec<bool> = Vec::new();
    out.push(false);
    let mut cell: usize = 1;
    while cell < 64
        invariant
            1 <= cell <= 64,
            cur <= bits@.len(),
            n == bits@.len(),
            out@.len() == cell,
            forall|k: int| 0 <= k < cell ==> out@[k] == spec_filled_block(bits@, cur as int)[k],
        decreases 64 - cell,
    {
        let j: usize = cell - 1;
        let bit: bool = if j < n - cur {
            bits[cur + j]
        } else {
            false
        };
        out.push(bit);
        cell = cell + 1;
    }
    assert(out@ =~= spec_filled_block(bits@, cur as int));
    out
}

/// Build the block as it will be written at this cursor position, and say
/// whether it commits: fill, test, conjugate if too simple, test again.
fn make_embedded_block(bits: &Vec<bool>, cur: usize) -> (r: (Vec<bool>, bool))
    requires
        cur <= bits@.len(),
    ensures
        r.0@ == spec_embedded_block(bits@, cur as int),
        r.1 == spec_commits(bits@, cur as int),
{
    let temp = fill_block(bits, cur);
    let k_raw: u32 = calculate_complexity(&temp);
    let blk: Vec<bool> = if k_raw <= COMPLEXITY_THRESHOLD {
        conjugate(&temp)
    } else {
        temp
    };
    let k_final: u32 = calculate_complexity(&blk);
    (blk, k_final > COMPLEXITY_THRESHOLD)
}

/// Hide a framed payload in the carrier.
///
/// The grid is scanned in the fixed triple order. A triple whose stored
/// complexity is at or below the threshold is left untouched. A
/// qualifying triple is filled with the next 63 bits (conjugated if the
/// filled block would be too simple); if even the conjugate is too simple
/// the block is written anyway but the cursor is reverted, so the
/// extractor — which skips simple blocks — stays synchronized. Fails with
/// `CapacityExceeded` when the scan ends with bits left over.
#[verifier::loop_isolation(false)]
#[verifier::rlimit(60)]
pub fn embed(grid: PixelGrid, payload: &[u8]) -> (r: Result<PixelGrid, AegisError>)
    requires
        grid.wf(),
        payload@.len() < 0x1_0000_0000,
        8 * payload@.len() + 32 <= usize::MAX,
    ensures
        r is Ok <==> spec_embedding_fits(grid, spec_frame_bits(payload@)),
        r is Err ==> r->Err_0 == AegisError::CapacityExceeded,
        r is Ok ==> (r->Ok_0).wf() && (r->Ok_0).width == grid.width && (r->Ok_0).height
            == grid.height,
        r is Ok ==> forall|t: int|
            0 <= t < spec_n_triples(grid) ==> spec_stored_block(r->Ok_0, t) == spec_final_block(
                grid,
                spec_frame_bits(payload@),
                t,
            ),
        r is Ok ==> forall|x: int, y: int, c: int|
            0 <= x < grid.width && 0 <= y < grid.height && 0 <= c < 4 && (c == 3 || x >= 8
                * spec_blocks_w(grid) || y >= 8 * spec_blocks_h(grid)) ==> (r->Ok_0).spec_byte(
                x,
                y,
                c,
            ) == grid.spec_byte(x, y, c),
{
    let buf_len: usize = grid.data.len();
    let bw: usize = grid.width / 8;
    let bh: usize = grid.height / 8;
    proof {
        lemma_n_triples_bound(grid);
    }
    let nb: usize = bw * bh;
    let n_triples: usize = nb * 24;
    let bits: Vec<bool> = build_frame(payload);
    let bits_len: usize = bits.len();
    let ghost bseq = bits@;
    let mut g = grid;
    let ghost g0 = grid;
    let mut cur: usize = 0;
    let mut t: usize = 0;
    while t < n_triples && cur < bits_len
        invariant
            g.wf(),
            g.width == g0.width,
            g.height == g0.height,
            t <= n_triples,
            cur as int == spec_cursor_after(g0, bseq, t as int),
            cur <= bits_len,
            forall|t2: int|
                0 <= t2 < t ==> spec_stored_block(g, t2) == spec_final_block(g0, bseq, t2),
            forall|t2: int|
                t <= t2 < n_triples ==> spec_stored_block(g, t2) == spec_stored_block(g0, t2),
            forall|x: int, y: int, c: int|
                0 <= x < g0.width && 0 <= y < g0.height && 0 <= c < 4 && (c == 3 || x >= 8
                    * spec_blocks_w(g0) || y >= 8 * spec_blocks_h(g0)) ==> g.spec_byte(x, y, c)
                    == g0.spec_byte(x, y, c),
        decreases n_triples - t,
    {
        proof {
            lemma_triple_index(g0, t as int);
            lemma_triple_coords(g0, t as int);
        }
        let bi: usize = t / 24;
        let ch: usize = (t % 24) / 8;
        let pl: u8 = (t % 8) as u8;
        let x0: usize = (bi % bw) * 8;
        let y0: usize = (bi / bw) * 8;
        assert(x0 == spec_t_bx(g0, t as int) && y0 == spec_t_by(g0, t as int) && ch == spec_t_ch(
            t as int,
        ) && pl == spec_t_pl(t as int));
        let block = read_block(&g, x0, y0, ch, pl);
        assert(block@ == spec_stored_block(g0, t as int));
        let k: u32 = calculate_complexity(&block);
        if k > COMPLEXITY_THRESHOLD {
            let (blk, committed) = make_embedded_block(&bits, cur);
            let ghost pre = g;
            write_block(&mut g, x0, y0, ch, pl, &blk);
            proof {
                lemma_write_frame(pre, g, t as int, blk@);
            }
            if committed {
                let remaining: usize = bits_len - cur;
                let consumed: usize = if remaining < 63 {
                    remaining
                } else {
                    63
                };
                cur = cur + consumed;
            }
        }
        t = t + 1;
        proof {
            lemma_cursor_bounds(g0, bseq, t as int);
        }
    }
    if cur < bits_len {
        proof {
            assert(t == n_triples);
        }
        return Err(AegisError::CapacityExceeded);
    }
    proof {
        lemma_cursor_stable(g0, bseq, t as int, n_triples as int);
        assert forall|t2: int| 0 <= t2 < spec_n_triples(g0) implies spec_stored_block(g, t2)
            == spec_final_block(g0, bseq, t2) by {
            if t2 >= t {
                lemma_cursor_bounds(g0, bseq, t2);
                lemma_cursor_stable(g0, bseq, t as int, t2);
            }
        }
    }
    Ok(g)
}

/// No candidate block survives both tests too simple: when the filled
/// block is at or below the threshold it is conjugated, and conjugation
/// provably lifts it above the threshold. The embedder's revert-and-retry
/// policy — write the simple block, give the bits back to the cursor —
/// is therefore never taken; it stays in the code because the stored-
/// complexity classification, not this theorem, is what the extractor
/// relies on.
pub proof fn lemma_embedder_always_commits(bits: Seq<bool>, cur: int)
    ensures
        spec_commits(bits, cur),
{
    let f = spec_filled_block(bits, cur);
    if spec_complexity(f) <= COMPLEXITY_THRESHOLD {
        lemma_conjugation_raises_complexity(f);
    }
}

/// The cursor's march depends only on how many bits are left, never on
/// what they are: every vessel commits (above) and consumes exactly 63
/// bits or whatever remains.
proof fn lemma_cursor_depends_on_length(g0: PixelGrid, b1: Seq<bool>, b2: Seq<bool>, t: int)
    requires
        b1.len() == b2.len(),
        t >= 0,
    ensures
        spec_cursor_after(g0, b1, t) == spec_cursor_after(g0, b2, t),
    decreases t,
{
    if t > 0 {
        lemma_cursor_depends_on_length(g0, b1, b2, t - 1);
        let c = spec_cursor_after(g0, b1, t - 1);
        if c < b1.len() && spec_complexity(spec_stored_block(g0, t - 1)) > COMPLEXITY_THRESHOLD {
            lemma_embedder_always_commits(b1, c);
            lemma_embedder_always_commits(b2, c);
        }
    }
}

/// Whether a bitstream fits a carrier is a pure capacity-versus-length
/// question: two bitstreams of equal length either both fit or neither
/// does.
pub proof fn lemma_fit_depends_on_length_only(g0: PixelGrid, b1: Seq<bool>, b2: Seq<bool>)
    requires
        b1.len() == b2.len(),
    ensures
        spec_embedding_fits(g0, b1) == spec_embedding_fits(g0, b2),
{
    let n = spec_n_triples(g0);
    if n >= 0 {
        lemma_cursor_depends_on_length(g0, b1, b2, n);
    } else {
        assert(spec_cursor_after(g0, b1, n) == 0 && spec_cursor_after(g0, b2, n) == 0);
    }
}

/// A written block hands back exactly the bits it was filled with:
/// conjugation is undone by the flag cell, and padding reads as `false`.
proof fn lemma_embedded_data_bits(bits: Seq<bool>, cur: int)
    requires
        cur >= 0,
    ensures
        spec_block_data_bits(spec_embedded_block(bits, cur)) == Seq::new(
            63,
            |j: int| cur + j < bits.len() && bits[cur + j],
        ),
{
    let f = spec_filled_block(bits, cur);
    let e = spec_embedded_block(bits, cur);
    assert forall|j: int| 0 <= j < 63 implies spec_block_data_bits(e)[j] == (cur + j < bits.len()
        && bits[cur + j]) by {
        if spec_complexity(f) > COMPLEXITY_THRESHOLD {
            assert(e[0] == false && e[j + 1] == f[j + 1]);
        } else {
            assert(e == spec_conjugate(f));
            assert(e[0] == true);
            assert(e[j + 1] == (f[j + 1] != spec_checker(j + 1)));
        }
    }
    assert(spec_block_data_bits(e) =~= Seq::new(
        63,
        |j: int| cur + j < bits.len() && bits[cur + j],
    ));
}

/// The bits the first `t` triples of an embedded carrier scan back out
/// are exactly the bits the embedder had consumed by triple `t`.
proof fn lemma_embedded_scan_upto(g0: PixelGrid, bits: Seq<bool>, out: PixelGrid, t: int)
    requires
        out.width == g0.width,
        out.height == g0.height,
        0 <= t <= spec_n_triples(g0),
        forall|t2: int|
            0 <= t2 < spec_n_triples(g0) ==> spec_stored_block(out, t2) == spec_final_block(
                g0,
                bits,
                t2,
            ),
    ensures
        spec_cursor_after(g0, bits, t) < bits.len() ==> spec_scan_bits_upto(out, t)
            == bits.take(spec_cursor_after(g0, bits, t)),
        spec_cursor_after(g0, bits, t) >= bits.len() ==> spec_scan_bits_upto(out, t).len()
            >= bits.len() && spec_scan_bits_upto(out, t).take(bits.len() as int) == bits,
    decreases t,
{
    lemma_cursor_bounds(g0, bits, t);
    if t > 0 {
        lemma_embedded_scan_upto(g0, bits, out, t - 1);
        lemma_cursor_bounds(g0, bits, t - 1);
        let c = spec_cursor_after(g0, bits, t - 1);
        let s = spec_scan_bits_upto(out, t - 1);
        let piece = spec_triple_bits(out, t - 1);
        assert(spec_scan_bits_upto(out, t) == s + piece);
        if c >= bits.len() {
            assert((s + piece).take(bits.len() as int) =~= s.take(bits.len() as int));
        } else {
            assert(s == bits.take(c));
            if spec_complexity(spec_stored_block(g0, t - 1)) > COMPLEXITY_THRESHOLD {
                assert(spec_block_written(g0, bits, t - 1));
                assert(spec_stored_block(out, t - 1) == spec_embedded_block(bits, c));
                if spec_commits(bits, c) {
                    lemma_embedded_data_bits(bits, c);
                    assert(piece == Seq::new(
                        63,
                        |j: int| c + j < bits.len() && bits[c + j],
                    ));
                    let c2 = spec_cursor_after(g0, bits, t);
                    if c + 63 <= bits.len() {
                        assert(c2 == c + 63);
                        assert(s + piece =~= bits.take(c2));
                        if c2 >= bits.len() {
                            assert(bits.take(c2) =~= bits);
                            assert((s + piece).take(bits.len() as int) =~= bits);
                        }
                    } else {
                        assert(c2 == bits.len());
                        assert((s + piece).take(bits.len() as int) =~= bits);
                    }
                } else {
                    assert(spec_complexity(spec_stored_block(out, t - 1))
                        <= COMPLEXITY_THRESHOLD);
                    assert(piece =~= Seq::<bool>::empty());
                    assert(s + piece =~= s);
                }
            } else {
                assert(!spec_block_written(g0, bits, t - 1));
                assert(spec_stored_block(out, t - 1) == spec_stored_block(g0, t - 1));
                assert(piece =~= Seq::<bool>::empty());
                assert(s + piece =~= s);
            }
        }
    }
}

/// Round trip of the hiding engine: a carrier that embedding filled with
/// the framed bits of a payload of admissible length extracts back to
/// exactly that payload.
///
/// The premises are precisely what `embed` ensures of its output on
/// success, so recovery is owed for every payload that fits.
pub proof fn lemma_embed_extract_round_trip(g0: PixelGrid, payload: Seq<u8>, out: PixelGrid)
    requires
        out.width == g0.width,
        out.height == g0.height,
        payload.len() <= MAX_PAYLOAD_LEN,
        spec_embedding_fits(g0, spec_frame_bits(payload)),
        forall|t: int|
            0 <= t < spec_n_triples(g0) ==> spec_stored_block(out, t) == spec_final_block(
                g0,
                spec_frame_bits(payload),
                t,
            ),
    ensures
        spec_recovered_payload(out) == Result::<Seq<u8>, AegisError>::Ok(payload),
{
    let bits = spec_frame_bits(payload);
    let n = spec_n_triples(g0);
    assert(spec_n_triples(out) == n);
    lemma_embedded_scan_upto(g0, bits, out, n);
    lemma_cursor_bounds(g0, bits, n);
    let s = spec_scan_bits(out);
    assert(s.len() >= bits.len() && s.take(bits.len() as int) == bits);
    assert(bits.len() == 32 + 8 * payload.len());
    assert(s.take(32) =~= bits.take(32));
    assert(bits.take(32) =~= spec_u32_bits(payload.len() as u32));
    lemma_be_val_u32(payload.len() as u32);
    let declared = spec_be_val(s.take(32));
    assert(declared == payload.len());
    assert(s.len() >= 32 + 8 * declared);
    let body = s.subrange(32, 32 + 8 * declared);
    assert(body =~= spec_bytes_bits(payload)) by {
        assert forall|q: int| 0 <= q < 8 * payload.len() implies body[q] == spec_bytes_bits(
            payload,
        )[q] by {
            assert(s.take(bits.len() as int)[q + 32] == bits[q + 32]);
        }
    }
    lemma_bytes_bits_round_trip(payload);
}

/// Extraction is a pure function of the stored carrier: two extractions
/// from the same grid are bound to the same result.
pub proof fn lemma_extraction_deterministic(g: PixelGrid, r1: Result<Seq<u8>, AegisError>, r2: Result<Seq<u8>, AegisError>)
    requires
        r1 == spec_recovered_payload(g),
        r2 == spec_recovered_payload(g),
    ensures
        r1 == r2,
{
}

} // verus!
