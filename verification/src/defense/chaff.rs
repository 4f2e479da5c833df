//! Metadata chaff: a pair of TIFF image-file directories appended to a
//! buffer, each pointing at the other, so that a scraper naively
//! following next-IFD offsets loops forever.

use vstd::prelude::*;

verus! {

/// Poisons metadata with structures that trap naive parsers.
pub struct MetadataPoisoner;

/// The little-endian bytes of a 16-bit word.
pub open spec fn spec_u16_le(v: u16) -> Seq<u8> {
    seq![(v & 0xFF) as u8, (v >> 8u16) as u8]
}

/// The little-endian bytes of a 32-bit word.
pub open spec fn spec_u32_le(v: u32) -> Seq<u8> {
    seq![
        (v & 0xFF) as u8,
        ((v >> 8u32) & 0xFF) as u8,
        ((v >> 16u32) & 0xFF) as u8,
        ((v >> 24u32) & 0xFF) as u8,
    ]
}

/// What the poisoner appends at offset `start`: an empty IFD whose next
/// pointer is the second IFD, and a second empty IFD whose next pointer
/// is the first.
pub open spec fn spec_ifd_loop(start: u32) -> Seq<u8> {
    spec_u16_le(0) + spec_u32_le((start + 6) as u32) + spec_u16_le(0) + spec_u32_le(start)
}

/// Append two little-endian words.
fn push_u16_le(buf: &mut Vec<u8>, v: u16)
    ensures
        final(buf)@ == old(buf)@ + spec_u16_le(v),
{
    buf.push((v & 0xFF) as u8);
    buf.push((v >> 8u16) as u8);
    proof {
        assert(buf@ =~= old(buf)@ + spec_u16_le(v));
    }
}

/// Append four little-endian bytes of a 32-bit word.
fn push_u32_le(buf: &mut Vec<u8>, v: u32)
    ensures
        final(buf)@ == old(buf)@ + spec_u32_le(v),
{
    buf.push((v & 0xFF) as u8);
    buf.push(((v >> 8u32) & 0xFF) as u8);
    buf.push(((v >> 16u32) & 0xFF) as u8);
    buf.push(((v >> 24u32) & 0xFF) as u8);
    proof {
        assert(buf@ =~= old(buf)@ + spec_u32_le(v));
    }
}

impl MetadataPoisoner {
    /// Append two mutually-referencing, empty TIFF IFDs to the buffer.
    /// Their next-IFD offsets are measured from the buffer's old length,
    /// as a 32-bit TIFF offset.
    pub fn inject_infinite_loop_tiffs(target_buffer: &mut Vec<u8>)
        requires
            old(target_buffer)@.len() + 6 <= u32::MAX,
        ensures
            final(target_buffer)@ == old(target_buffer)@ + spec_ifd_loop(
                old(target_buffer)@.len() as u32,
            ),
    {
        let start_offset: u32 = target_buffer.len() as u32;
        push_u16_le(target_buffer, 0);
        push_u32_le(target_buffer, start_offset + 6);
        push_u16_le(target_buffer, 0);
        push_u32_le(target_buffer, start_offset);
        proof {
            assert(target_buffer@ =~= old(target_buffer)@ + spec_ifd_loop(start_offset));
        }
    }
}

} // verus!
