//! Tests of the threat scanners: polyglot structure and byte signatures.

use aegis::threat_detect::{polyglot, signatures};

#[test]
fn test_polyglot_detection() {
    let mut data = vec![0xFF, 0xD8, 0xFF, 0xE0]; // JPEG start
    data.extend_from_slice(b"some image data");
    data.extend_from_slice(&[0x50, 0x4B, 0x03, 0x04]); // ZIP header
    data.extend_from_slice(b"zip content");

    let matches = polyglot::scan(&data);
    assert!(!matches.is_empty());
    assert_eq!(matches[0].name, "Polyglot");
}

#[test]
fn test_clean_file_not_polyglot() {
    let data = vec![0xFF, 0xD8, 0xFF, 0xE0, 0x00, 0x00];
    let matches = polyglot::scan(&data);
    assert!(matches.is_empty());
}

#[test]
fn test_signatures_detection() {
    let data = b"Metadata: <script>alert('pwned')</script>";
    let matches = signatures::scan(data);
    assert!(!matches.is_empty());
    assert!(matches[0].description.contains("Web Shell"));
}

#[test]
fn test_zip_at_start_is_not_polyglot() {
    // A header at offset zero is just a ZIP file.
    let mut data = vec![0x50, 0x4B, 0x03, 0x04];
    data.extend_from_slice(b"ordinary archive body");
    assert!(polyglot::scan(&data).is_empty());
}

#[test]
fn test_polyglot_offset_reported() {
    let mut data = vec![0u8; 10];
    data.extend_from_slice(&[0x50, 0x4B, 0x03, 0x04]);
    let matches = polyglot::scan(&data);
    assert_eq!(matches.len(), 1);
    assert_eq!(matches[0].offset, 10);
    assert_eq!(matches[0].snippet, vec![0x50, 0x4B, 0x03, 0x04]);
}

#[test]
fn test_is_jpeg() {
    assert!(polyglot::is_jpeg(&[0xFF, 0xD8, 0xFF]));
    assert!(!polyglot::is_jpeg(&[0xFF, 0xD8]));
    assert!(!polyglot::is_jpeg(&[0x89, 0x50, 0x4E, 0x47]));
}

#[test]
fn test_signatures_multiple_kinds() {
    let data = b"%PDF-1.7 then <?php echo; and \x7FELF too";
    let matches = signatures::scan(data);
    let descriptions: Vec<&str> = matches.iter().map(|m| m.description.as_str()).collect();
    assert!(descriptions.contains(&"ELF Binary detected"));
    assert!(descriptions.contains(&"PDF Document detected"));
    assert!(descriptions.contains(&"PHP Open Tag detected"));
    for m in &matches {
        assert_eq!(m.name, "Signature");
        assert!(m.snippet.len() <= 16);
    }
}

#[test]
fn test_signatures_clean_buffer() {
    let data = b"nothing suspicious in here at all";
    assert!(signatures::scan(data).is_empty());
}
