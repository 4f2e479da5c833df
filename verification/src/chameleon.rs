//! Polyglot generation: files that are two formats at once. The byte
//! layouts are built here; writing them to disk belongs to the caller.

use vstd::prelude::*;
use vstd::string::StringSliceAdditionalSpecFns;

verus! {

/// Builds GIFAR polyglots: a GIF image and a ZIP/JAR archive in one file.
pub struct Chameleon;

impl Chameleon {
    /// The bytes of a GIFAR: the carrier image followed by the archive.
    /// The GIF header stays at the start, the ZIP central directory at
    /// the end, so both readers accept the file.
    pub fn gifar_bytes(image_data: &[u8], archive_data: &[u8]) -> (r: Vec<u8>)
        ensures
            r@ == image_data@ + archive_data@,
    {
        let mut out: Vec<u8> = Vec::new();
        out.extend_from_slice(image_data);
        out.extend_from_slice(archive_data);
        out
    }
}

/// Builds files that are a valid PDF and a valid HTML page at once.
pub struct PdfHtmlPolyglot;

/// The binary comment bytes after the PDF version line, marking the file
/// as binary for transfer tools.
pub open spec fn spec_pdf_binary_comment() -> Seq<u8> {
    seq![0xE2u8, 0xE3u8, 0xCFu8, 0xD3u8]
}

/// The PDF trailer that closes the polyglot: a minimal catalog, page
/// tree, one page, a cross-reference stub and the end-of-file marker.
pub open spec fn spec_pdf_trailer() -> Seq<u8> {
    vstd::utf8::encode_utf8(
        "\n2 0 obj\n<< /Type /Catalog /Pages 3 0 R >>\nendobj\n3 0 obj\n<< /Type /Pages /Kids [4 0 R] /Count 1 >>\nendobj\n4 0 obj\n<< /Type /Page /MediaBox [0 0 595 842] >>\nendobj\nxref\n0 5\n0000000000 65535 f \n0000000010 00000 n \ntrailer\n<< /Size 5 /Root 2 0 R >>\nstartxref\n200\n%%EOF\n"@,
    )
}

/// The whole polyglot layout: PDF header, a stream object wrapping the
/// HTML payload, and the PDF trailer.
pub open spec fn spec_pdf_html_bytes(html: Seq<u8>) -> Seq<u8> {
    vstd::utf8::encode_utf8("%PDF-1.4\n%"@) + spec_pdf_binary_comment() + vstd::utf8::encode_utf8(
        "\n1 0 obj\n<< /Length 1000 >>\nstream\n"@,
    ) + html + vstd::utf8::encode_utf8("\nendstream\nendobj\n"@) + spec_pdf_trailer()
}

impl PdfHtmlPolyglot {
    /// The bytes of a PDF/HTML polyglot around an HTML payload: PDF
    /// viewers read the document structure and skip the unreferenced
    /// stream; browsers skip the leading garbage and run the HTML.
    pub fn polyglot_bytes(html_payload: &[u8]) -> (r: Vec<u8>)
        ensures
            r@ == spec_pdf_html_bytes(html_payload@),
    {
        let mut content: Vec<u8> = Vec::new();
        content.extend_from_slice("%PDF-1.4\n%".as_bytes());
        content.push(0xE2);
        content.push(0xE3);
        content.push(0xCF);
        content.push(0xD3);
        content.extend_from_slice("\n1 0 obj\n<< /Length 1000 >>\nstream\n".as_bytes());
        content.extend_from_slice(html_payload);
        content.extend_from_slice("\nendstream\nendobj\n".as_bytes());
        content.extend_from_slice(
            "\n2 0 obj\n<< /Type /Catalog /Pages 3 0 R >>\nendobj\n3 0 obj\n<< /Type /Pages /Kids [4 0 R] /Count 1 >>\nendobj\n4 0 obj\n<< /Type /Page /MediaBox [0 0 595 842] >>\nendobj\nxref\n0 5\n0000000000 65535 f \n0000000010 00000 n \ntrailer\n<< /Size 5 /Root 2 0 R >>\nstartxref\n200\n%%EOF\n".as_bytes(),
        );
        proof {
            assert(content@ =~= spec_pdf_html_bytes(html_payload@));
        }
        content
    }
}

} // verus!
