//! In-memory image files and magic-byte format detection.

use vstd::prelude::*;

verus! {

/// The container formats the suite recognizes by signature.
#[derive(Debug, Clone, Copy, PartialEq, Eq, Structural)]
pub enum ImageFormat {
    /// JPEG: starts with `FF D8 FF`.
    Jpeg,
    /// PNG: starts with the fixed eight-byte signature.
    Png,
    /// Anything else.
    Unknown,
}

/// A raw image file held in memory, with the format its first bytes
/// declare.
#[derive(Debug)]
pub struct Image {
    /// The file's bytes.
    pub data: Vec<u8>,
    /// The format detected from the leading magic bytes.
    pub format: ImageFormat,
}

/// The format the leading magic bytes declare.
pub open spec fn spec_detect_format(d: Seq<u8>) -> ImageFormat {
    if d.len() >= 3 && d[0] == 0xFF && d[1] == 0xD8 && d[2] == 0xFF {
        ImageFormat::Jpeg
    } else if d.len() >= 8 && d[0] == 0x89 && d[1] == 0x50 && d[2] == 0x4E && d[3] == 0x47
        && d[4] == 0x0D && d[5] == 0x0A && d[6] == 0x1A && d[7] == 0x0A {
        ImageFormat::Png
    } else {
        ImageFormat::Unknown
    }
}

impl Image {
    /// Classify a byte buffer by its magic bytes: JPEG, PNG or unknown.
    pub fn detect_format(data: &[u8]) -> (r: ImageFormat)
        ensures
            r == spec_detect_format(data@),
    {
        if data.len() >= 3 && *slice_index(data, 0) == 0xFF && *slice_index(data, 1) == 0xD8
            && *slice_index(data, 2) == 0xFF {
            ImageFormat::Jpeg
        } else if data.len() >= 8 && *slice_index(data, 0) == 0x89 && *slice_index(data, 1)
            == 0x50 && *slice_index(data, 2) == 0x4E && *slice_index(data, 3) == 0x47
            && *slice_index(data, 4) == 0x0D && *slice_index(data, 5) == 0x0A && *slice_index(
            data,
            6,
        ) == 0x1A && *slice_index(data, 7) == 0x0A {
            ImageFormat::Png
        } else {
            ImageFormat::Unknown
        }
    }

    /// Wrap a loaded file, detecting its format from the data itself.
    pub fn from_data(data: Vec<u8>) -> (r: Image)
        ensures
            r.data == data,
            r.format == spec_detect_format(data@),
    {
        let format = Image::detect_format(data.as_slice());
        Image { data, format }
    }
}

/// Read one byte of a slice.
fn slice_index(data: &[u8], i: usize) -> (r: &u8)
    requires
        i < data@.len(),
    ensures
        *r == data@[i as int],
{
    vstd::slice::slice_index_get(data, i)
}

} // verus!
