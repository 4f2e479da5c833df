//! Tests of the surrounding suite: formats, sanitization, metadata
//! tooling, the audit vault, defenses and polyglot generation.

use aegis::chameleon::{Chameleon, PdfHtmlPolyglot};
use aegis::defense::chaff::MetadataPoisoner;
use aegis::defense::glitch::GlitchEngine;
use aegis::formats::{Image, ImageFormat};
use aegis::metadata::makernotes::MakerNoteDecoder;
use aegis::neuron::job_queue::{ForensicJob, JobQueue};
use aegis::metadata::mutation_engine::{BatchOperation, MutationEngine};
use aegis::carrier::PixelGrid;
use aegis::sanitize::{JpegSanitizer, SanitizeError, Sanitizer};
use aegis::errors::AegisError;
use aegis::vault::audit::AuditLog;
use aegis::vault::crypto::EncryptionEngine;
use aegis::vault::dms::{deadline_after, remaining_time, switch_triggered, DeadMansSwitch};
use aegis::watchdog::Watchdog;
use std::io::Cursor;

#[test]
fn test_detect_format_jpeg() {
    let img = Image::from_data(vec![0xFF, 0xD8, 0xFF, 0xE0]);
    assert_eq!(img.format, ImageFormat::Jpeg);
    assert_eq!(img.data.len(), 4);
}

#[test]
fn test_detect_format_png() {
    let img = Image::from_data(vec![0x89, 0x50, 0x4E, 0x47, 0x0D, 0x0A, 0x1A, 0x0A]);
    assert_eq!(img.format, ImageFormat::Png);
}

#[test]
fn test_detect_format_unknown() {
    assert_eq!(Image::detect_format(b"GIF89a"), ImageFormat::Unknown);
    assert_eq!(Image::detect_format(&[]), ImageFormat::Unknown);
}

#[test]
fn test_sanitize_jpeg_reencoding() {
    // Create a small image
    let mut img = image::RgbImage::new(10, 10);
    for pixel in img.pixels_mut() {
        *pixel = image::Rgb([255, 0, 0]);
    }

    let mut buffer = Vec::new();
    img.write_to(&mut Cursor::new(&mut buffer), image::ImageFormat::Jpeg)
        .unwrap();

    let image = Image {
        data: buffer,
        format: ImageFormat::Jpeg,
    };

    let sanitizer = JpegSanitizer;
    let result = sanitizer.sanitize(&image).unwrap();

    // Check if it's a valid JPEG
    assert!(result.starts_with(&[0xFF, 0xD8]));
    assert!(result.ends_with(&[0xFF, 0xD9]));

    // Ensure it can be loaded back
    let reloaded = image::load_from_memory(&result).unwrap();
    assert_eq!(reloaded.width(), 10);
    assert_eq!(reloaded.height(), 10);
}

#[test]
fn test_sanitize_refuses_non_jpeg() {
    let not_jpeg = Image::from_data(vec![0x89, 0x50, 0x4E, 0x47, 0x0D, 0x0A, 0x1A, 0x0A]);
    let r = JpegSanitizer.sanitize(&not_jpeg);
    assert_eq!(r.unwrap_err(), SanitizeError::NotJpeg);
}

#[test]
fn test_sanitize_codec_failure() {
    // Claims to be a JPEG but holds garbage: the codec refuses it.
    let fake = Image { data: vec![0xFF, 0xD8, 0xFF, 0x00, 0x01], format: ImageFormat::Jpeg };
    assert_eq!(JpegSanitizer.sanitize(&fake).unwrap_err(), SanitizeError::CodecFailure);
}

#[test]
fn test_makernote_decode_garbage() {
    let decoder = MakerNoteDecoder::new();
    assert!(decoder.decode("Canon", b"not exif at all").is_none());
}

#[test]
fn test_mutation_engine_batch() {
    let files = vec!["a.jpg".to_string(), "b.jpg".to_string()];
    let op = BatchOperation::TimeShift { delta_seconds: -3600 };
    let results = MutationEngine::apply_batch(&files, &op);
    assert_eq!(results.len(), 2);
    assert_eq!(results[0].as_ref().unwrap(), "a.jpg");
    assert_eq!(results[1].as_ref().unwrap(), "b.jpg");
}

#[test]
fn test_audit_log_chain() {
    let mut log = AuditLog::new();
    let genesis = log.get_head().to_string();
    assert_eq!(genesis, "00000000000000000000000000000000");

    let entry = log.append("unlock", "vault-1");
    assert_eq!(entry.prev_hash, genesis);
    assert_eq!(entry.action, "unlock");
    assert_eq!(entry.user_id, "system");
    assert_eq!(entry.resource_id, "vault-1");

    let head1 = log.get_head().to_string();
    assert_ne!(head1, genesis);
    assert_eq!(head1.len(), 64);
    assert!(head1.chars().all(|c| c.is_ascii_hexdigit()));

    let entry2 = log.append("lock", "vault-1");
    assert_eq!(entry2.prev_hash, head1);
    assert_ne!(log.get_head(), head1);
}

#[test]
fn test_vault_record_cipher_roundtrip() {
    let engine = EncryptionEngine::new(&[7u8; 32]);
    let record = engine.encrypt(b"vault record").unwrap();
    assert_eq!(record.len(), 12 + 12 + 16);
    assert_ne!(&record[12..24], b"vault record");
    assert_eq!(engine.decrypt(&record).unwrap(), b"vault record".to_vec());

    let other = EncryptionEngine::new(&[8u8; 32]);
    assert_eq!(other.decrypt(&record).unwrap_err(), AegisError::AuthenticationFailure);
    assert_eq!(engine.decrypt(&record[..8]).unwrap_err(), AegisError::InputTooShort);
}

#[test]
fn test_dead_mans_switch_logic() {
    let switch = DeadMansSwitch::new("/tmp/storage");
    assert_eq!(switch.path, "/tmp/storage/dms.lock");

    let deadline = deadline_after(1_000_000, 48).unwrap();
    assert_eq!(deadline, 1_000_000 + 48 * 3600);
    assert!(!switch_triggered(deadline, deadline));
    assert!(switch_triggered(deadline, deadline + 1));
    let (hours, minutes) = remaining_time(deadline, 1_000_000);
    assert_eq!(hours, 48);
    assert_eq!(minutes, 0);
    let (h2, m2) = remaining_time(deadline, deadline - 90 * 60);
    assert_eq!(h2, 1);
    assert_eq!(m2, 30);

    assert!(deadline_after(i64::MAX, 1).is_none());
}

#[test]
fn test_job_queue_priority_order() {
    let mut queue = JobQueue::new();
    assert!(queue.pop().is_none());
    for (id, priority, path) in [
        (1u128, 1u8, "low.jpg"),
        (2, 5, "first-high.jpg"),
        (3, 3, "mid.jpg"),
        (4, 5, "second-high.jpg"),
    ] {
        queue.push(ForensicJob { id, priority, file_path: path.to_string() });
    }
    // Highest priority first; among equals, the earliest queued.
    assert_eq!(queue.pop().unwrap().id, 2);
    assert_eq!(queue.pop().unwrap().id, 4);
    assert_eq!(queue.pop().unwrap().id, 3);
    assert_eq!(queue.pop().unwrap().id, 1);
    assert!(queue.pop().is_none());
}

#[test]
fn test_watchdog_path() {
    let dog = Watchdog::new("/var/spool/incoming");
    assert_eq!(dog.path, "/var/spool/incoming");
}

#[test]
fn test_chaff_ifd_loop_layout() {
    let mut buffer = b"TIFFHEAD".to_vec();
    MetadataPoisoner::inject_infinite_loop_tiffs(&mut buffer);
    assert_eq!(buffer.len(), 8 + 12);
    // IFD A: zero tags, next pointer to IFD B at offset 8 + 6.
    assert_eq!(&buffer[8..14], &[0x00, 0x00, 14, 0x00, 0x00, 0x00]);
    // IFD B: zero tags, next pointer back to IFD A at offset 8.
    assert_eq!(&buffer[14..20], &[0x00, 0x00, 8, 0x00, 0x00, 0x00]);
}

#[test]
fn test_gifar_concatenation() {
    let gifar = Chameleon::gifar_bytes(b"GIF89a-image", b"PK-archive");
    assert_eq!(gifar, b"GIF89a-image".to_vec().into_iter().chain(b"PK-archive".to_vec()).collect::<Vec<u8>>());
}

#[test]
fn test_pdf_html_polyglot_layout() {
    let bytes = PdfHtmlPolyglot::polyglot_bytes(b"<html><body>hi</body></html>");
    assert!(bytes.starts_with(b"%PDF-1.4"));
    let text = String::from_utf8_lossy(&bytes);
    assert!(text.contains("<html><body>hi</body></html>"));
    assert!(text.ends_with("%%EOF\n"));
}

#[test]
fn test_pixel_sort_orders_midtone_run() {
    // Lums: 150, 60, 90 are mid-tone; 255 is not and must stay put.
    let data = vec![
        150, 150, 150, 255, //
        60, 60, 60, 255, //
        90, 90, 90, 255, //
        255, 255, 255, 255,
    ];
    let grid = PixelGrid::from_raw(4, 1, data).unwrap();
    let sorted = GlitchEngine::pixel_sort(&grid);
    let out = sorted.into_raw();
    assert_eq!(&out[0..4], &[60, 60, 60, 255]);
    assert_eq!(&out[4..8], &[90, 90, 90, 255]);
    assert_eq!(&out[8..12], &[150, 150, 150, 255]);
    assert_eq!(&out[12..16], &[255, 255, 255, 255]);
}

#[test]
fn test_pixel_sort_leaves_dark_rows_alone() {
    let data = vec![
        10, 10, 10, 255, //
        30, 30, 30, 255, //
        20, 20, 20, 255, //
        5, 5, 5, 255,
    ];
    let grid = PixelGrid::from_raw(4, 1, data.clone()).unwrap();
    let sorted = GlitchEngine::pixel_sort(&grid);
    assert_eq!(sorted.into_raw(), data);
}
