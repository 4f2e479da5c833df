//! Carving embedded payloads out of a byte buffer: a slice from an
//! offset, bounded by an optional length or running to the end.

use vstd::prelude::*;
use vstd::slice::{slice_subrange, slice_to_vec};

verus! {

/// Extracts byte ranges found by the scanners (for example the body of a
/// polyglot) so they can be saved on their own.
pub struct Carver;

impl Carver {
    /// Extract data starting at `offset`: exactly `len` bytes when a
    /// length is given (clipped to the end of the buffer), or everything
    /// to the end otherwise. An offset past the end yields nothing.
    pub fn extract(data: &[u8], offset: usize, len: Option<usize>) -> (r: Vec<u8>)
        ensures
            offset >= data@.len() ==> r@ == Seq::<u8>::empty(),
            offset < data@.len() ==> match len {
                Some(l) => r@ == data@.subrange(
                    offset as int,
                    if offset + l <= data@.len() {
                        offset + l
                    } else {
                        data@.len() as int
                    },
                ),
                None => r@ == data@.skip(offset as int),
            },
    {
        if offset >= data.len() {
            return Vec::new();
        }
        let end: usize = match len {
            Some(l) => {
                if l <= data.len() - offset {
                    offset + l
                } else {
                    data.len()
                }
            },
            None => data.len(),
        };
        let part: &[u8] = slice_subrange(data, offset, end);
        let out = slice_to_vec(part);
        proof {
            assert(data@.skip(offset as int) =~= data@.subrange(
                offset as int,
                data@.len() as int,
            ));
        }
        out
    }
}

} // verus!
