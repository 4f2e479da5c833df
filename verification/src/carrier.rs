//! The carrier pixel grid: a width-by-height RGBA raster held as one flat,
//! row-major byte buffer. The embedder owns the grid for the duration of a
//! hide operation and mutates it block by block; the alpha channel is never
//! modified.

use crate::errors::AegisError;
use vstd::prelude::*;

verus! {

/// Flat index of channel `c` of the pixel at `(x, y)` in a grid of width
/// `w`.
pub open spec fn spec_index(w: int, x: int, y: int, c: int) -> int {
    (y * w + x) * 4 + c
}

/// A width-by-height RGBA pixel grid, row-major, four bytes per pixel.
pub struct PixelGrid {
    /// Width in pixels.
    pub width: usize,
    /// Height in pixels.
    pub height: usize,
    /// `width * height * 4` bytes: R, G, B, A per pixel, row-major.
    pub data: Vec<u8>,
}

impl PixelGrid {
    /// The buffer holds exactly four bytes per pixel.
    pub open spec fn wf(self) -> bool {
        self.data@.len() == self.width * self.height * 4
    }

    /// Channel `c` of the pixel at `(x, y)`.
    pub open spec fn spec_byte(self, x: int, y: int, c: int) -> u8 {
        self.data@[spec_index(self.width as int, x, y, c)]
    }

    /// Wrap a raw RGBA buffer; refused unless its length matches the
    /// dimensions exactly.
    pub fn from_raw(width: usize, height: usize, data: Vec<u8>) -> (r: Result<
        PixelGrid,
        AegisError,
    >)
        ensures
            r is Ok <==> data@.len() == width * height * 4,
            r is Ok ==> r->Ok_0 == (PixelGrid { width, height, data }),
            r is Err ==> r->Err_0 == AegisError::UnderlyingCodecError,
    {
        let buf_len: usize = data.len();
        proof {
            assert(width * height >= 0 && width * height * 4 >= width * height)
                by (nonlinear_arith);
        }
        let expected: Option<usize> = match width.checked_mul(height) {
            Some(wh) => wh.checked_mul(4),
            None => None,
        };
        match expected {
            Some(n) if n == buf_len => Ok(PixelGrid { width, height, data }),
            _ => Err(AegisError::UnderlyingCodecError),
        }
    }

    /// Give the raw RGBA buffer back to the caller.
    pub fn into_raw(self) -> (r: Vec<u8>)
        ensures
            r == self.data,
    {
        self.data
    }

    /// Read channel `c` of the pixel at `(x, y)`.
    pub fn get(&self, x: usize, y: usize, c: usize) -> (r: u8)
        requires
            self.wf(),
            x < self.width,
            y < self.height,
            c < 4,
        ensures
            r == self.spec_byte(x as int, y as int, c as int),
    {
        let buf_len: usize = self.data.len();
        proof {
            lemma_index_bound(self.width as int, self.height as int, x as int, y as int, c as int);
        }
        let idx: usize = (y * self.width + x) * 4 + c;
        self.data[idx]
    }

    /// Write channel `c` of the pixel at `(x, y)`.
    pub fn set(&mut self, x: usize, y: usize, c: usize, v: u8)
        requires
            old(self).wf(),
            x < old(self).width,
            y < old(self).height,
            c < 4,
        ensures
            final(self).width == old(self).width,
            final(self).height == old(self).height,
            final(self).wf(),
            final(self).data@ == old(self).data@.update(
                spec_index(old(self).width as int, x as int, y as int, c as int),
                v,
            ),
    {
        let buf_len: usize = self.data.len();
        proof {
            lemma_index_bound(self.width as int, self.height as int, x as int, y as int, c as int);
        }
        let idx: usize = (y * self.width + x) * 4 + c;
        self.data.set(idx, v);
    }
}

/// The flat index of any in-range channel lies inside the buffer.
pub proof fn lemma_index_bound(w: int, h: int, x: int, y: int, c: int)
    by (nonlinear_arith)
    requires
        0 <= x < w,
        0 <= y < h,
        0 <= c < 4,
    ensures
        0 <= spec_index(w, x, y, c) < w * h * 4,
{
}

/// Distinct in-range channels have distinct flat indices.
pub proof fn lemma_index_injective(w: int, h: int, x1: int, y1: int, c1: int, x2: int, y2: int, c2: int)
    by (nonlinear_arith)
    requires
        0 <= x1 < w,
        0 <= y1 < h,
        0 <= c1 < 4,
        0 <= x2 < w,
        0 <= y2 < h,
        0 <= c2 < 4,
        (x1, y1, c1) != (x2, y2, c2),
    ensures
        spec_index(w, x1, y1, c1) != spec_index(w, x2, y2, c2),
{
}

} // verus!
