//! Tests of carving and copy-move detection.

use aegis::carver::Carver;
use aegis::forgery::{compute_block_hash, detect_copy_move, GrayGrid};
use aegis::metadata::binary_extractor::{BinaryExtractor, SubFileType};

#[test]
fn test_carver_extract_with_length() {
    let data = b"0123456789";
    assert_eq!(Carver::extract(data, 2, Some(3)), b"234".to_vec());
    // A length past the end is clipped.
    assert_eq!(Carver::extract(data, 8, Some(5)), b"89".to_vec());
}

#[test]
fn test_carver_extract_to_end() {
    let data = b"0123456789";
    assert_eq!(Carver::extract(data, 6, None), b"6789".to_vec());
}

#[test]
fn test_carver_extract_past_end() {
    let data = b"0123";
    assert!(Carver::extract(data, 4, None).is_empty());
    assert!(Carver::extract(data, 100, Some(2)).is_empty());
}

#[test]
fn test_find_marker_range() {
    let mut data = b"garbage ".to_vec();
    data.extend_from_slice(&[0xFF, 0xD8]);
    data.extend_from_slice(b"jpeg body");
    data.extend_from_slice(&[0xFF, 0xD9]);
    data.extend_from_slice(b"trailer");

    let carved = BinaryExtractor::find_marker_range(&data, &[0xFF, 0xD8], &[0xFF, 0xD9]).unwrap();
    assert_eq!(carved.first(), Some(&0xFF));
    assert_eq!(carved[1], 0xD8);
    assert_eq!(&carved[carved.len() - 2..], &[0xFF, 0xD9]);
    assert_eq!(carved.len(), 2 + 9 + 2);
}

#[test]
fn test_find_marker_range_missing() {
    let data = b"no markers here";
    assert!(BinaryExtractor::find_marker_range(data, &[0xFF, 0xD8], &[0xFF, 0xD9]).is_none());
}

#[test]
fn test_binary_extractor_carve_thumbnail() {
    let mut data = b"prefix".to_vec();
    data.extend_from_slice(&[0xFF, 0xD8, 1, 2, 3, 0xFF, 0xD9]);
    let carved = BinaryExtractor::carve(&data, SubFileType::Thumbnail).unwrap();
    assert_eq!(carved, vec![0xFF, 0xD8, 1, 2, 3, 0xFF, 0xD9]);
}

#[test]
fn test_block_hash_depends_on_content() {
    // Two rasters whose only difference is one pixel hash differently
    // when the change crosses the block average.
    let mut a = vec![0u8; 64];
    a[0] = 255;
    let ga = GrayGrid::from_raw(8, 8, a).unwrap();
    let gb = GrayGrid::from_raw(8, 8, vec![0u8; 64]).unwrap();
    let ha = compute_block_hash(&ga, 0, 0, 8);
    let hb = compute_block_hash(&gb, 0, 0, 8);
    assert_ne!(ha, hb);
}

#[test]
fn test_detect_copy_move_flat_image_collides() {
    // A flat image makes every block hash collide; far-apart pairs are
    // reported and the list is capped.
    let g = GrayGrid::from_raw(200, 200, vec![100u8; 200 * 200]).unwrap();
    let matches = detect_copy_move(&g, 16);
    assert!(!matches.is_empty());
    assert!(matches.len() <= 51);
    for m in &matches {
        assert_eq!(m.size, 16);
        let dx = m.source.0 as i64 - m.target.0 as i64;
        let dy = m.source.1 as i64 - m.target.1 as i64;
        assert!(dx * dx + dy * dy > 64 * 64);
    }
}

#[test]
fn test_detect_copy_move_planted_clone() {
    // Deterministic noise with the 16x16 block at (0, 0) copied to
    // (96, 16): both are visited sites, far apart, and the only
    // collision — it must be the one reported pair, in scan order.
    let w = 128usize;
    let h = 48usize;
    let mut data = vec![0u8; w * h];
    let mut v: u32 = 0xCAFE1234;
    for b in data.iter_mut() {
        v = v.wrapping_mul(1664525).wrapping_add(1013904223);
        *b = (v >> 24) as u8;
    }
    for dy in 0..16usize {
        for dx in 0..16usize {
            data[(16 + dy) * w + 96 + dx] = data[dy * w + dx];
        }
    }
    let g = GrayGrid::from_raw(w, h, data).unwrap();
    let matches = detect_copy_move(&g, 16);
    assert_eq!(matches.len(), 1);
    assert_eq!(matches[0].source, (0, 0));
    assert_eq!(matches[0].target, (96, 16));
    assert_eq!(matches[0].size, 16);
}

#[test]
fn test_detect_copy_move_noise_image_clean() {
    // Deterministic pseudo-noise: distinct blocks, no collisions.
    let mut data = vec![0u8; 128 * 128];
    let mut v: u32 = 0x12345678;
    for b in data.iter_mut() {
        v = v.wrapping_mul(1664525).wrapping_add(1013904223);
        *b = (v >> 24) as u8;
    }
    let g = GrayGrid::from_raw(128, 128, data).unwrap();
    let matches = detect_copy_move(&g, 16);
    assert!(matches.is_empty());
}
