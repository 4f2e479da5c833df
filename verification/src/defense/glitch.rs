//! The glitch engine: pixel sorting. Each row's runs of mid-tone pixels
//! are melted by sorting them on luminance, which breaks OCR and edge
//! detection while keeping every pixel of the row.

use crate::carrier::PixelGrid;
use vstd::prelude::*;
use vstd::multiset::Multiset;
use vstd::seq_lib::group_to_multiset_ensures;

verus! {

/// Obfuscates image content by luminance-ordered pixel displacement.
pub struct GlitchEngine;

/// The RGBA pixel at `(x, y)`.
pub open spec fn spec_pixel(g: PixelGrid, x: int, y: int) -> (u8, u8, u8, u8) {
    (g.spec_byte(x, y, 0), g.spec_byte(x, y, 1), g.spec_byte(x, y, 2), g.spec_byte(x, y, 3))
}

/// One row of pixels, left to right.
pub open spec fn spec_row(g: PixelGrid, y: int) -> Seq<(u8, u8, u8, u8)> {
    Seq::new(g.width as nat, |x: int| spec_pixel(g, x, y))
}

/// Mean brightness of a pixel's color channels.
pub open spec fn spec_lum(p: (u8, u8, u8, u8)) -> int {
    (p.0 + p.1 + p.2) / 3
}

/// A pixel is mid-tone — neither too dark nor too bright — and so
/// belongs to a sortable run.
pub open spec fn spec_midtone(p: (u8, u8, u8, u8)) -> bool {
    50 <= spec_lum(p) <= 200
}

/// Where the mid-tone run that starts at `s` ends: the first position at
/// or after `s` holding a non-mid-tone pixel, or the end of the row.
pub open spec fn spec_span_end(row: Seq<(u8, u8, u8, u8)>, s: int) -> int
    decreases row.len() - s,
{
    if s < 0 || s >= row.len() || !spec_midtone(row[s]) {
        s
    } else {
        spec_span_end(row, s + 1)
    }
}

/// The position where a pixel is inserted into a luminance-sorted run:
/// after every pixel that is not strictly brighter.
pub open spec fn spec_ins_pos(s: Seq<(u8, u8, u8, u8)>, p: (u8, u8, u8, u8)) -> int
    decreases s.len(),
{
    if s.len() == 0 {
        0
    } else if spec_lum(s[0]) > spec_lum(p) {
        0
    } else {
        1 + spec_ins_pos(s.drop_first(), p)
    }
}

/// A run sorted by luminance, each pixel inserted in turn.
pub open spec fn spec_sort_lum(s: Seq<(u8, u8, u8, u8)>) -> Seq<(u8, u8, u8, u8)>
    decreases s.len(),
{
    if s.len() == 0 {
        Seq::empty()
    } else {
        let sorted = spec_sort_lum(s.drop_last());
        sorted.insert(spec_ins_pos(sorted, s.last()), s.last())
    }
}

/// A whole row glitched from position `x` on: each mid-tone run of two
/// or more pixels is replaced by its luminance-sorted permutation, and
/// the scan resumes past the pixel that ended the run.
pub open spec fn spec_glitch_row(row: Seq<(u8, u8, u8, u8)>, x: int) -> Seq<(u8, u8, u8, u8)>
    decreases row.len() + 1 - x,
    via spec_glitch_row_decreases
{
    if x < 0 || x >= row.len() {
        row
    } else {
        let e = spec_span_end(row, x);
        if e <= x {
            spec_glitch_row(row, x + 1)
        } else if e == x + 1 {
            spec_glitch_row(row, x + 2)
        } else {
            let row2 = row.take(x) + spec_sort_lum(row.subrange(x, e)) + row.skip(e);
            spec_glitch_row(row2, if e + 1 <= row.len() { e + 1 } else { row.len() as int })
        }
    }
}

#[via_fn]
proof fn spec_glitch_row_decreases(row: Seq<(u8, u8, u8, u8)>, x: int) {
    if !(x < 0 || x >= row.len()) {
        let e = spec_span_end(row, x);
        lemma_span_end_bounds(row, x);
        if e > x + 1 {
            lemma_sort_len(row.subrange(x, e));
        }
    }
}

/// A run never ends before it starts and never runs past the row.
proof fn lemma_span_end_bounds(row: Seq<(u8, u8, u8, u8)>, s: int)
    requires
        0 <= s <= row.len(),
    ensures
        s <= spec_span_end(row, s) <= row.len(),
        forall|j: int| s <= j < spec_span_end(row, s) ==> spec_midtone(row[j]),
        spec_span_end(row, s) == row.len() || !spec_midtone(row[spec_span_end(row, s)]),
    decreases row.len() - s,
{
    if s < row.len() && spec_midtone(row[s]) {
        lemma_span_end_bounds(row, s + 1);
    }
}

/// Sorting a run keeps its length: each insertion adds one pixel back.
proof fn lemma_sort_len(s: Seq<(u8, u8, u8, u8)>)
    ensures
        spec_sort_lum(s).len() == s.len(),
    decreases s.len(),
{
    if s.len() > 0 {
        lemma_sort_len(s.drop_last());
        lemma_ins_pos_bounds(spec_sort_lum(s.drop_last()), s.last());
    }
}

/// The insertion position lies within the run.
proof fn lemma_ins_pos_bounds(s: Seq<(u8, u8, u8, u8)>, p: (u8, u8, u8, u8))
    ensures
        0 <= spec_ins_pos(s, p) <= s.len(),
    decreases s.len(),
{
    if s.len() > 0 && !(spec_lum(s[0]) > spec_lum(p)) {
        lemma_ins_pos_bounds(s.drop_first(), p);
    }
}

/// Inserting into a sequence adds exactly that element to its multiset.
proof fn lemma_insert_multiset(s: Seq<(u8, u8, u8, u8)>, i: int, p: (u8, u8, u8, u8))
    requires
        0 <= i <= s.len(),
    ensures
        s.insert(i, p).to_multiset() =~= s.to_multiset().insert(p),
{
    broadcast use group_to_multiset_ensures;

    let big = s.insert(i, p);
    assert(big.remove(i) =~= s);
    assert(big[i] == p);
    assert(big.remove(i).to_multiset() =~= big.to_multiset().remove(p));
    assert(big.contains(p));
    assert(big.to_multiset().count(p) > 0);
    assert forall|a: (u8, u8, u8, u8)|
        s.to_multiset().insert(p).count(a) == big.to_multiset().count(a) by {
        if a == p {
            assert(s.to_multiset().count(p) == big.to_multiset().remove(p).count(p));
        } else {
            assert(s.to_multiset().count(a) == big.to_multiset().remove(p).count(a));
        }
    }
}

/// Sorting a run keeps its pixels: the sorted run is a permutation.
proof fn lemma_sort_multiset(s: Seq<(u8, u8, u8, u8)>)
    ensures
        spec_sort_lum(s).to_multiset() =~= s.to_multiset(),
    decreases s.len(),
{
    broadcast use group_to_multiset_ensures;

    if s.len() > 0 {
        lemma_sort_multiset(s.drop_last());
        lemma_ins_pos_bounds(spec_sort_lum(s.drop_last()), s.last());
        lemma_insert_multiset(
            spec_sort_lum(s.drop_last()),
            spec_ins_pos(spec_sort_lum(s.drop_last()), s.last()),
            s.last(),
        );
        assert(s =~= s.drop_last().push(s.last()));
        assert(s.drop_last().push(s.last()).to_multiset() =~= s.drop_last().to_multiset().insert(
            s.last(),
        ));
    }
}

/// Glitching a row never gains or loses a pixel: the glitched row is a
/// permutation of the original, run by run.
pub proof fn lemma_glitch_row_multiset(row: Seq<(u8, u8, u8, u8)>, x: int)
    ensures
        spec_glitch_row(row, x).to_multiset() =~= row.to_multiset(),
        spec_glitch_row(row, x).len() == row.len(),
    decreases row.len() + 1 - x,
{
    broadcast use group_to_multiset_ensures;

    if !(x < 0 || x >= row.len()) {
        let e = spec_span_end(row, x);
        lemma_span_end_bounds(row, x);
        if e <= x {
            lemma_glitch_row_multiset(row, x + 1);
        } else if e == x + 1 {
            lemma_glitch_row_multiset(row, x + 2);
        } else {
            let span = row.subrange(x, e);
            let row2 = row.take(x) + spec_sort_lum(span) + row.skip(e);
            lemma_sort_len(span);
            lemma_sort_multiset(span);
            lemma_concat_multiset(row.take(x), spec_sort_lum(span) + row.skip(e));
            lemma_concat_multiset(spec_sort_lum(span), row.skip(e));
            lemma_concat_multiset(row.take(x), span + row.skip(e));
            lemma_concat_multiset(span, row.skip(e));
            assert(row =~= row.take(x) + (span + row.skip(e)));
            assert(row2 =~= row.take(x) + (spec_sort_lum(span) + row.skip(e)));
            assert(row2.to_multiset() =~= row.take(x).to_multiset().add(
                spec_sort_lum(span).to_multiset().add(row.skip(e).to_multiset()),
            ));
            assert(row.to_multiset() =~= row.take(x).to_multiset().add(
                span.to_multiset().add(row.skip(e).to_multiset()),
            ));
            assert(row2.to_multiset() =~= row.to_multiset());
            lemma_glitch_row_multiset(row2, if e + 1 <= row.len() {
                e + 1
            } else {
                row.len() as int
            });
        }
    }
}

/// Concatenation adds multisets.
proof fn lemma_concat_multiset(a: Seq<(u8, u8, u8, u8)>, b: Seq<(u8, u8, u8, u8)>)
    ensures
        (a + b).to_multiset() =~= a.to_multiset().add(b.to_multiset()),
    decreases b.len(),
{
    broadcast use group_to_multiset_ensures;

    if b.len() == 0 {
        assert(a + b =~= a);
        assert(b.to_multiset() =~= Multiset::empty());
    } else {
        lemma_concat_multiset(a, b.drop_last());
        assert(a + b =~= (a + b.drop_last()).push(b.last()));
        assert(b =~= b.drop_last().push(b.last()));
    }
}

/// Mean brightness of a pixel.
fn lum_of(p: (u8, u8, u8, u8)) -> (r: u16)
    ensures
        r as int == spec_lum(p),
{
    (p.0 as u16 + p.1 as u16 + p.2 as u16) / 3
}

/// Whether a pixel is mid-tone.
fn is_midtone(p: (u8, u8, u8, u8)) -> (r: bool)
    ensures
        r == spec_midtone(p),
{
    let b = lum_of(p);
    50 <= b && b <= 200
}

/// Insert every pixel of a run into its luminance-sorted place.
fn sort_span(span: &Vec<(u8, u8, u8, u8)>) -> (r: Vec<(u8, u8, u8, u8)>)
    ensures
        r@ == spec_sort_lum(span@),
{
    let mut sorted: Vec<(u8, u8, u8, u8)> = Vec::new();
    let mut i: usize = 0;
    while i < span.len()
        invariant
            i <= span@.len(),
            sorted@ == spec_sort_lum(span@.take(i as int)),
        decreases span@.len() - i,
    {
        let p = span[i];
        proof {
            lemma_sort_len(span@.take(i as int));
        }
        let target: u16 = lum_of(p);
        let mut k: usize = 0;
        while k < sorted.len() && lum_of(sorted[k]) <= target
            invariant
                k <= sorted@.len(),
                forall|j: int| 0 <= j < k ==> spec_lum(sorted@[j]) <= spec_lum(p),
                target as int == spec_lum(p),
            decreases sorted@.len() - k,
        {
            k = k + 1;
        }
        proof {
            lemma_ins_pos_agrees(sorted@, p, k as int);
            assert(span@.take(i + 1).drop_last() =~= span@.take(i as int));
            assert(span@.take(i + 1).last() == span@[i as int]);
        }
        sorted.insert(k, p);
        i = i + 1;
    }
    proof {
        assert(span@.take(span@.len() as int) =~= span@);
    }
    sorted
}

/// The scanned insertion position is the specified one.
proof fn lemma_ins_pos_agrees(s: Seq<(u8, u8, u8, u8)>, p: (u8, u8, u8, u8), k: int)
    requires
        0 <= k <= s.len(),
        forall|j: int| 0 <= j < k ==> spec_lum(s[j]) <= spec_lum(p),
        k == s.len() || spec_lum(s[k]) > spec_lum(p),
    ensures
        spec_ins_pos(s, p) == k,
    decreases s.len(),
{
    if s.len() > 0 && !(spec_lum(s[0]) > spec_lum(p)) {
        assert(k >= 1);
        lemma_ins_pos_agrees(s.drop_first(), p, k - 1);
    }
}

impl GlitchEngine {
    /// Apply pixel sorting: in every row, each maximal run of two or
    /// more mid-tone pixels is replaced by the same pixels in luminance
    /// order; everything else stays where it was.
    pub fn pixel_sort(img: &PixelGrid) -> (r: PixelGrid)
        requires
            img.wf(),
        ensures
            r.wf(),
            r.width == img.width,
            r.height == img.height,
            forall|y: int|
                0 <= y < img.height ==> spec_row(r, y) == spec_glitch_row(spec_row(*img, y), 0),
    {
        let mut out = PixelGrid {
            width: img.width,
            height: img.height,
            data: copy_bytes(&img.data),
        };
        let mut y: usize = 0;
        while y < out.height
            invariant
                out.wf(),
                img.wf(),
                out.width == img.width,
                out.height == img.height,
                y <= out.height,
                forall|y2: int|
                    0 <= y2 < y ==> spec_row(out, y2) == spec_glitch_row(spec_row(*img, y2), 0),
                forall|y2: int|
                    y <= y2 < out.height ==> spec_row(out, y2) == spec_row(*img, y2),
            decreases out.height - y,
        {
            let row = read_row(&out, y);
            proof {
                assert(row@ == spec_row(*img, y as int));
            }
            let glitched = glitch_row(row);
            write_row(&mut out, y, &glitched);
            y = y + 1;
        }
        out
    }
}

/// Copy a byte buffer.
fn copy_bytes(data: &Vec<u8>) -> (r: Vec<u8>)
    ensures
        r@ == data@,
{
    let mut out: Vec<u8> = Vec::new();
    let mut i: usize = 0;
    while i < data.len()
        invariant
            i <= data@.len(),
            out@ == data@.take(i as int),
        decreases data@.len() - i,
    {
        out.push(data[i]);
        proof {
            assert(data@.take(i + 1) =~= data@.take(i as int).push(data@[i as int]));
        }
        i = i + 1;
    }
    proof {
        assert(data@.take(data@.len() as int) =~= data@);
    }
    out
}

/// Read one row of pixels.
fn read_row(g: &PixelGrid, y: usize) -> (r: Vec<(u8, u8, u8, u8)>)
    requires
        g.wf(),
        y < g.height,
    ensures
        r@ == spec_row(*g, y as int),
{
    let mut out: Vec<(u8, u8, u8, u8)> = Vec::new();
    let mut x: usize = 0;
    while x < g.width
        invariant
            g.wf(),
            y < g.height,
            x <= g.width,
            out@.len() == x,
            forall|j: int| 0 <= j < x ==> out@[j] == spec_pixel(*g, j, y as int),
        decreases g.width - x,
    {
        out.push((g.get(x, y, 0), g.get(x, y, 1), g.get(x, y, 2), g.get(x, y, 3)));
        x = x + 1;
    }
    proof {
        assert(out@ =~= spec_row(*g, y as int));
    }
    out
}

/// Write one pixel; every other pixel of the grid is untouched.
fn set_pixel(g: &mut PixelGrid, x: usize, y: usize, p: (u8, u8, u8, u8))
    requires
        old(g).wf(),
        x < old(g).width,
        y < old(g).height,
    ensures
        final(g).wf(),
        final(g).width == old(g).width,
        final(g).height == old(g).height,
        spec_pixel(*final(g), x as int, y as int) == p,
        forall|x2: int, y2: int, c2: int|
            0 <= x2 < old(g).width && 0 <= y2 < old(g).height && 0 <= c2 < 4 && !(x2 == x && y2
                == y) ==> final(g).spec_byte(x2, y2, c2) == old(g).spec_byte(x2, y2, c2),
{
    let ghost w = old(g).width as int;
    let ghost h = old(g).height as int;
    let ghost a0 = *g;
    g.set(x, y, 0, p.0);
    let ghost a1 = *g;
    g.set(x, y, 1, p.1);
    let ghost a2 = *g;
    g.set(x, y, 2, p.2);
    let ghost a3 = *g;
    g.set(x, y, 3, p.3);
    proof {
        crate::carrier::lemma_index_bound(w, h, x as int, y as int, 0);
        crate::carrier::lemma_index_bound(w, h, x as int, y as int, 1);
        crate::carrier::lemma_index_bound(w, h, x as int, y as int, 2);
        crate::carrier::lemma_index_bound(w, h, x as int, y as int, 3);
        crate::carrier::lemma_index_injective(w, h, x as int, y as int, 0, x as int, y as int, 1);
        crate::carrier::lemma_index_injective(w, h, x as int, y as int, 0, x as int, y as int, 2);
        crate::carrier::lemma_index_injective(w, h, x as int, y as int, 0, x as int, y as int, 3);
        crate::carrier::lemma_index_injective(w, h, x as int, y as int, 1, x as int, y as int, 2);
        crate::carrier::lemma_index_injective(w, h, x as int, y as int, 1, x as int, y as int, 3);
        crate::carrier::lemma_index_injective(w, h, x as int, y as int, 2, x as int, y as int, 3);
        assert forall|x2: int, y2: int, c2: int|
            0 <= x2 < w && 0 <= y2 < h && 0 <= c2 < 4 && (x2, y2, c2) != (x as int, y as int, 0int)
            implies a1.spec_byte(x2, y2, c2) == a0.spec_byte(x2, y2, c2) by {
            crate::carrier::lemma_index_bound(w, h, x2, y2, c2);
            crate::carrier::lemma_index_injective(w, h, x2, y2, c2, x as int, y as int, 0);
            assert(crate::carrier::spec_index(w, x2, y2, c2) != crate::carrier::spec_index(
                w,
                x as int,
                y as int,
                0,
            ));
            assert(a1.data@ == a0.data@.update(
                crate::carrier::spec_index(w, x as int, y as int, 0),
                p.0,
            ));
            assert(a1.width == a0.width);
        }
        assert forall|x2: int, y2: int, c2: int|
            0 <= x2 < w && 0 <= y2 < h && 0 <= c2 < 4 && (x2, y2, c2) != (x as int, y as int, 1int)
            implies a2.spec_byte(x2, y2, c2) == a1.spec_byte(x2, y2, c2) by {
            crate::carrier::lemma_index_bound(w, h, x2, y2, c2);
            crate::carrier::lemma_index_injective(w, h, x2, y2, c2, x as int, y as int, 1);
        }
        assert forall|x2: int, y2: int, c2: int|
            0 <= x2 < w && 0 <= y2 < h && 0 <= c2 < 4 && (x2, y2, c2) != (x as int, y as int, 2int)
            implies a3.spec_byte(x2, y2, c2) == a2.spec_byte(x2, y2, c2) by {
            crate::carrier::lemma_index_bound(w, h, x2, y2, c2);
            crate::carrier::lemma_index_injective(w, h, x2, y2, c2, x as int, y as int, 2);
        }
        assert forall|x2: int, y2: int, c2: int|
            0 <= x2 < w && 0 <= y2 < h && 0 <= c2 < 4 && (x2, y2, c2) != (x as int, y as int, 3int)
            implies g.spec_byte(x2, y2, c2) == a3.spec_byte(x2, y2, c2) by {
            crate::carrier::lemma_index_bound(w, h, x2, y2, c2);
            crate::carrier::lemma_index_injective(w, h, x2, y2, c2, x as int, y as int, 3);
        }
        assert(g.spec_byte(x as int, y as int, 0) == p.0);
        assert(g.spec_byte(x as int, y as int, 1) == p.1);
        assert(g.spec_byte(x as int, y as int, 2) == p.2);
        assert(g.spec_byte(x as int, y as int, 3) == p.3);
    }
}

/// Write one row of pixels back; other rows are untouched.
fn write_row(g: &mut PixelGrid, y: usize, row: &Vec<(u8, u8, u8, u8)>)
    requires
        old(g).wf(),
        y < old(g).height,
        row@.len() == old(g).width,
    ensures
        final(g).wf(),
        final(g).width == old(g).width,
        final(g).height == old(g).height,
        spec_row(*final(g), y as int) == row@,
        forall|y2: int|
            0 <= y2 < old(g).height && y2 != y ==> spec_row(*final(g), y2) == spec_row(
                *old(g),
                y2,
            ),
{
    let ghost g0 = *g;
    let mut x: usize = 0;
    while x < g.width
        invariant
            g.wf(),
            g0.wf(),
            g.width == g0.width,
            g.height == g0.height,
            y < g.height,
            row@.len() == g.width,
            x <= g.width,
            forall|j: int| 0 <= j < x ==> spec_pixel(*g, j, y as int) == row@[j],
            forall|j: int| x <= j < g.width ==> spec_pixel(*g, j, y as int) == spec_pixel(
                g0,
                j,
                y as int,
            ),
            forall|x2: int, y2: int, c2: int|
                0 <= x2 < g0.width && 0 <= y2 < g0.height && 0 <= c2 < 4 && y2 != y
                    ==> g.spec_byte(x2, y2, c2) == g0.spec_byte(x2, y2, c2),
        decreases g.width - x,
    {
        let p = row[x];
        set_pixel(g, x, y, p);
        x = x + 1;
    }
    proof {
        assert(spec_row(*g, y as int) =~= row@);
        assert forall|y2: int| 0 <= y2 < g0.height && y2 != y implies spec_row(*g, y2)
            == spec_row(g0, y2) by {
            assert(spec_row(*g, y2) =~= spec_row(g0, y2));
        }
    }
}

/// Glitch one row: scan for mid-tone runs and sort each run of two or
/// more pixels in place.
fn glitch_row(row: Vec<(u8, u8, u8, u8)>) -> (r: Vec<(u8, u8, u8, u8)>)
    ensures
        r@ == spec_glitch_row(row@, 0),
        r@.len() == row@.len(),
{
    let ghost orig = row@;
    let mut v = row;
    let len: usize = v.len();
    let mut x: usize = 0;
    while x < len
        invariant
            v@.len() == orig.len(),
            len == v@.len(),
            x <= len,
            spec_glitch_row(v@, x as int) == spec_glitch_row(orig, 0),
        decreases len - x,
    {
        let mut e: usize = x;
        while e < v.len() && is_midtone(v[e])
            invariant
                x <= e <= v@.len(),
                spec_span_end(v@, x as int) == spec_span_end(v@, e as int),
            decreases v@.len() - e,
        {
            e = e + 1;
        }
        proof {
            assert(spec_span_end(v@, e as int) == e);
            lemma_span_end_bounds(v@, x as int);
        }
        if e > x + 1 {
            let mut span: Vec<(u8, u8, u8, u8)> = Vec::new();
            let mut j: usize = x;
            while j < e
                invariant
                    x <= j <= e,
                    e <= v@.len(),
                    span@ == v@.subrange(x as int, j as int),
                decreases e - j,
            {
                span.push(v[j]);
                proof {
                    assert(v@.subrange(x as int, j + 1) =~= v@.subrange(x as int, j as int).push(
                        v@[j as int],
                    ));
                }
                j = j + 1;
            }
            let sorted = sort_span(&span);
            proof {
                lemma_sort_len(span@);
            }
            let ghost before = v@;
            let mut k: usize = 0;
            while k < sorted.len()
                invariant
                    k <= sorted@.len(),
                    sorted@.len() == e - x,
                    x + sorted@.len() == e <= v@.len(),
                    v@.len() == before.len(),
                    forall|j2: int| 0 <= j2 < x ==> v@[j2] == before[j2],
                    forall|j2: int|
                        #![trigger v@[j2]]
                        x <= j2 < x + k ==> v@[j2] == sorted@[j2 - x],
                    forall|j2: int| x + k <= j2 < v@.len() ==> v@[j2] == before[j2],
                decreases sorted@.len() - k,
            {
                v.set(x + k, sorted[k]);
                k = k + 1;
            }
            let x_next: usize = if e < len {
                e + 1
            } else {
                len
            };
            proof {
                assert(v@ =~= before.take(x as int) + spec_sort_lum(before.subrange(
                    x as int,
                    e as int,
                )) + before.skip(e as int));
                assert(spec_glitch_row(before, x as int) == spec_glitch_row(v@, x_next as int));
            }
            x = x_next;
        } else {
            let x_next: usize = if e < len {
                e + 1
            } else {
                len
            };
            proof {
                if e == x {
                    assert(spec_glitch_row(v@, x as int) == spec_glitch_row(v@, x + 1));
                } else {
                    assert(e == x + 1);
                    assert(spec_glitch_row(v@, x as int) == spec_glitch_row(v@, x + 2));
                    if e == len {
                        assert(spec_glitch_row(v@, x + 2) == v@);
                        assert(spec_glitch_row(v@, len as int) == v@);
                    }
                }
                assert(spec_glitch_row(v@, x as int) == spec_glitch_row(v@, x_next as int));
            }
            x = x_next;
        }
    }
    proof {
        assert(spec_glitch_row(v@, x as int) == v@);
    }
    v
}

} // verus!
