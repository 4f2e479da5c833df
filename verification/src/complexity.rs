//! The noise-complexity measure over one 8x8 boolean block, and the
//! checkerboard conjugation that forces a too-regular block above the
//! usability threshold.
//!
//! A block is stored flat, row-major: cell `i` is row `i / 8`, column
//! `i % 8`. Complexity counts the 112 adjacent pairs (56 horizontal, 56
//! vertical) whose two cells differ; the embedder and the extractor both
//! classify a block as a vessel exactly when the count exceeds
//! [`COMPLEXITY_THRESHOLD`].

use vstd::prelude::*;

verus! {

/// Side length of the square blocks the carrier is scanned in.
pub const BLOCK_SIZE: usize = 8;

/// Number of cells in one block.
pub const BLOCK_CELLS: usize = 64;

/// A block is a usable vessel when its complexity strictly exceeds this,
/// out of a maximum of 112.
pub const COMPLEXITY_THRESHOLD: u32 = 40;

/// The checkerboard pattern: `true` where row plus column is odd.
pub open spec fn spec_checker(cell: int) -> bool {
    (cell % 8 + cell / 8) % 2 == 1
}

/// The first cell of adjacent pair `k`: pairs 0..56 run along rows
/// (7 per row), pairs 56..112 run down columns (7 per column).
pub open spec fn spec_pair_first(k: int) -> int {
    if k < 56 {
        (k / 7) * 8 + k % 7
    } else {
        ((k - 56) % 7) * 8 + (k - 56) / 7
    }
}

/// The second cell of adjacent pair `k`: one to the right for a
/// horizontal pair, one below for a vertical pair.
pub open spec fn spec_pair_second(k: int) -> int {
    if k < 56 {
        spec_pair_first(k) + 1
    } else {
        spec_pair_first(k) + 8
    }
}

/// Number of the first `k` adjacent pairs whose cells differ.
pub open spec fn spec_complexity_upto(b: Seq<bool>, k: int) -> int
    decreases k,
{
    if k <= 0 {
        0
    } else {
        spec_complexity_upto(b, k - 1) + if b[spec_pair_first(k - 1)] != b[spec_pair_second(
            k - 1,
        )] {
            1int
        } else {
            0int
        }
    }
}

/// The complexity score of a block: differing adjacent pairs out of 112.
pub open spec fn spec_complexity(b: Seq<bool>) -> int {
    spec_complexity_upto(b, 112)
}

/// The conjugate of a block: the flag cell 0 is set, every other cell is
/// XORed with the checkerboard pattern.
pub open spec fn spec_conjugate(b: Seq<bool>) -> Seq<bool> {
    Seq::new(64, |cell: int| if cell == 0 {
        true
    } else {
        b[cell] != spec_checker(cell)
    })
}

/// Count the bit transitions along all rows and columns of a block.
pub fn calculate_complexity(bits: &Vec<bool>) -> (r: u32)
    requires
        bits@.len() == 64,
    ensures
        r as int == spec_complexity(bits@),
        r <= 112,
{
    let mut k: usize = 0;
    let mut score: u32 = 0;
    while k < 112
        invariant
            k <= 112,
            bits@.len() == 64,
            score as int == spec_complexity_upto(bits@, k as int),
            score <= k,
        decreases 112 - k,
    {
        let (i, j): (usize, usize) = if k < 56 {
            let first = (k / 7) * 8 + k % 7;
            (first, first + 1)
        } else {
            let first = ((k - 56) % 7) * 8 + (k - 56) / 7;
            (first, first + 8)
        };
        assert(i == spec_pair_first(k as int) && j == spec_pair_second(k as int));
        assert(0 <= i < 64 && 0 <= j < 64);
        if bits[i] != bits[j] {
            score = score + 1;
        }
        k = k + 1;
    }
    score
}

/// Conjugate a block: set the flag cell, XOR the rest with the
/// checkerboard.
pub fn conjugate(bits: &Vec<bool>) -> (r: Vec<bool>)
    requires
        bits@.len() == 64,
    ensures
        r@ == spec_conjugate(bits@),
{
    let mut out: Vec<bool> = Vec::new();
    out.push(true);
    let mut cell: usize = 1;
    while cell < 64
        invariant
            1 <= cell <= 64,
            bits@.len() == 64,
            out@.len() == cell,
            forall|c: int| 0 <= c < cell ==> out@[c] == spec_conjugate(bits@)[c],
        decreases 64 - cell,
    {
        let pattern = (cell % 8 + cell / 8) % 2 == 1;
        out.push(bits[cell] != pattern);
        cell = cell + 1;
    }
    assert(out@ =~= spec_conjugate(bits@));
    out
}

/// Row-major index arithmetic: a cell built from a row and a column
/// decomposes back into them.
proof fn lemma_rowmajor(r: int, c: int)
    by (nonlinear_arith)
    requires
        0 <= c < 8,
        0 <= r,
    ensures
        (r * 8 + c) % 8 == c,
        (r * 8 + c) / 8 == r,
{
}

/// The two cells of any adjacent pair lie in the block, and for every pair
/// that does not touch the flag cell, the checkerboard differs between the
/// two cells.
proof fn lemma_pair_cells(k: int)
    requires
        0 <= k < 112,
    ensures
        0 <= spec_pair_first(k) < 64,
        0 <= spec_pair_second(k) < 64,
        k != 0 && k != 56 ==> spec_pair_first(k) != 0,
        spec_pair_second(k) != 0,
        spec_checker(spec_pair_first(k)) != spec_checker(spec_pair_second(k)),
{
    if k < 56 {
        let r = k / 7;
        let c = k % 7;
        lemma_rowmajor(r, c);
        lemma_rowmajor(r, c + 1);
    } else {
        let m = k - 56;
        let r = m % 7;
        let c = m / 7;
        lemma_rowmajor(r, c);
        lemma_rowmajor(r + 1, c);
        assert(spec_pair_first(k) == r * 8 + c);
        assert(spec_pair_second(k) == (r + 1) * 8 + c);
    }
}

/// Every adjacent pair of the checkerboard has differing cells, so the
/// conjugate of a block flips every differing pair that does not touch the
/// flag cell; at most the two pairs adjacent to the flag are lost.
proof fn lemma_conjugate_upto(b: Seq<bool>, k: int)
    requires
        b.len() == 64,
        0 <= k <= 112,
    ensures
        spec_complexity_upto(spec_conjugate(b), k) + spec_complexity_upto(b, k) >= k - (if k > 0 {
            1int
        } else {
            0int
        }) - (if k > 56 {
            1int
        } else {
            0int
        }),
    decreases k,
{
    if k > 0 {
        lemma_conjugate_upto(b, k - 1);
        lemma_pair_cells(k - 1);
        let i = spec_pair_first(k - 1);
        let j = spec_pair_second(k - 1);
        let cb = spec_conjugate(b);
        assert(spec_complexity_upto(b, k) == spec_complexity_upto(b, k - 1) + if b[i] != b[j] {
            1int
        } else {
            0int
        });
        assert(spec_complexity_upto(cb, k) == spec_complexity_upto(cb, k - 1) + if cb[i] != cb[j] {
            1int
        } else {
            0int
        });
        if k - 1 != 0 && k - 1 != 56 {
            assert(cb[i] == (b[i] != spec_checker(i)));
            assert(cb[j] == (b[j] != spec_checker(j)));
            assert((cb[i] != cb[j]) == !(b[i] != b[j]));
        }
    }
}

/// Conjugation raises complexity by construction: a block whose complexity
/// is at or below the threshold always conjugates to one strictly above it.
pub proof fn lemma_conjugation_raises_complexity(b: Seq<bool>)
    requires
        b.len() == 64,
        spec_complexity(b) <= COMPLEXITY_THRESHOLD,
    ensures
        spec_complexity(spec_conjugate(b)) >= 110 - spec_complexity(b),
        spec_complexity(spec_conjugate(b)) > COMPLEXITY_THRESHOLD,
{
    lemma_conjugate_upto(b, 112);
}

} // verus!
