//! Privacy sanitization: a JPEG is decoded and re-encoded from its
//! pixels alone, which strips every metadata segment the container
//! carried.

use crate::formats::{Image, ImageFormat};
use vstd::prelude::*;

verus! {

/// How a sanitization attempt can fail.
#[derive(Debug, Clone, Copy, PartialEq, Eq, Structural)]
pub enum SanitizeError {
    /// The input is not a JPEG, so this sanitizer does not apply.
    NotJpeg,
    /// The image codec could not decode or re-encode the data.
    CodecFailure,
}

/// Anything that can rewrite an image into a clean copy.
pub trait Sanitizer {
    /// Produce a sanitized copy of the image's bytes, or say why not.
    fn sanitize(&self, image: &Image) -> Result<Vec<u8>, SanitizeError>;
}

/// The bytes of an image re-encoded as a quality-90 JPEG from its decoded
/// pixels. Deterministic in the input bytes; its value is established
/// only by the codec itself.
pub uninterp spec fn spec_jpeg_reencoded(data: Seq<u8>) -> Seq<u8>;

/// Whether the codec can decode these bytes and re-encode the pixels as
/// a quality-90 JPEG. A function of the bytes alone; which buffers
/// satisfy it is established only by the codec itself.
pub uninterp spec fn spec_jpeg_reencodable(data: Seq<u8>) -> bool;

/// Relies on `image::load_from_memory` and `DynamicImage::write_to` with
/// quality-90 JPEG output: decoding and re-encoding is deterministic in
/// the input bytes — it succeeds or fails as a function of them alone —
/// and fails exactly when the codec cannot decode or encode.
#[verifier::external_body]
fn jpeg_reencode(data: &[u8]) -> (r: Result<Vec<u8>, ()>)
    ensures
        r is Ok <==> spec_jpeg_reencodable(data@),
        r is Ok ==> r->Ok_0@ == spec_jpeg_reencoded(data@),
{
    let decoded = match image::load_from_memory(data) {
        Ok(img) => img,
        Err(_e) => {
            return Err(());
        },
    };
    let mut out: Vec<u8> = Vec::new();
    let mut cursor = std::io::Cursor::new(&mut out);
    match decoded.write_to(&mut cursor, image::ImageOutputFormat::Jpeg(90)) {
        Ok(()) => Ok(out),
        Err(_e) => Err(()),
    }
}

/// Re-encode a JPEG from its decoded pixels, refusing anything that is
/// not a JPEG and exposing the re-encoded bytes exactly: success holds
/// precisely for JPEG-tagged inputs the codec accepts.
pub fn sanitize_jpeg(image: &Image) -> (r: Result<Vec<u8>, SanitizeError>)
    ensures
        r is Ok <==> image.format == ImageFormat::Jpeg && spec_jpeg_reencodable(image.data@),
        (r is Err && r->Err_0 == SanitizeError::NotJpeg) <==> image.format != ImageFormat::Jpeg,
        (r is Err && r->Err_0 == SanitizeError::CodecFailure) <==> (image.format
            == ImageFormat::Jpeg && !spec_jpeg_reencodable(image.data@)),
        r is Ok ==> r->Ok_0@ == spec_jpeg_reencoded(image.data@),
{
    if !matches!(image.format, ImageFormat::Jpeg) {
        return Err(SanitizeError::NotJpeg);
    }
    match jpeg_reencode(image.data.as_slice()) {
        Ok(bytes) => Ok(bytes),
        Err(_) => Err(SanitizeError::CodecFailure),
    }
}

/// The nuclear sanitizer: decode, discard everything but pixels,
/// re-encode.
pub struct JpegSanitizer;

impl Sanitizer for JpegSanitizer {
    /// Sanitize by full JPEG re-encoding; see [`sanitize_jpeg`].
    fn sanitize(&self, image: &Image) -> Result<Vec<u8>, SanitizeError> {
        sanitize_jpeg(image)
    }
}

} // verus!
