//! Tests of the bit-plane engine: Gray coding, complexity, conjugation,
//! embedding and extraction round trips, and capacity limits.

use aegis::bitstream::bits_to_bytes;
use aegis::carrier::PixelGrid;
use aegis::complexity::{calculate_complexity, conjugate, COMPLEXITY_THRESHOLD};
use aegis::errors::AegisError;
use aegis::gray;
use aegis::pipeline::{hide_payload, recover_payload};
use aegis::stego::{embed, extract};
use rand::RngCore;

fn noise_carrier(width: usize, height: usize) -> PixelGrid {
    let mut rng = rand::thread_rng();
    let mut data = vec![0u8; width * height * 4];
    rng.fill_bytes(&mut data);
    // Alpha opaque, as an RGB image converted to RGBA would be.
    for px in 0..width * height {
        data[px * 4 + 3] = 255;
    }
    PixelGrid::from_raw(width, height, data).unwrap()
}

fn flat_carrier(width: usize, height: usize, value: u8) -> PixelGrid {
    let data = vec![value; width * height * 4];
    PixelGrid::from_raw(width, height, data).unwrap()
}

#[test]
fn test_stego_roundtrip() {
    let carrier = noise_carrier(64, 64);
    let mut payload = [0u8; 100];
    rand::thread_rng().fill_bytes(&mut payload);

    let embedded = embed(carrier, &payload).expect("Embedding failed");
    let extracted = extract(&embedded).expect("Extraction failed");

    assert_eq!(payload.to_vec(), extracted);
}

#[test]
fn test_gray_code_involution() {
    for v in 0..=255u8 {
        assert_eq!(gray::decode(gray::encode(v)), v);
        assert_eq!(gray::encode(gray::decode(v)), v);
    }
}

#[test]
fn test_gray_code_values() {
    assert_eq!(gray::encode(0), 0);
    assert_eq!(gray::encode(1), 1);
    assert_eq!(gray::encode(2), 3);
    assert_eq!(gray::encode(3), 2);
    assert_eq!(gray::encode(255), 128);
}

#[test]
fn test_complexity_extremes() {
    let flat = vec![false; 64];
    assert_eq!(calculate_complexity(&flat), 0);

    let mut checker = Vec::new();
    for i in 0..64usize {
        checker.push((i % 8 + i / 8) % 2 == 1);
    }
    assert_eq!(calculate_complexity(&checker), 112);
    assert_eq!(COMPLEXITY_THRESHOLD, 40);
}

#[test]
fn test_complexity_single_transition() {
    // Left half false, right half true: one transition in each of 8 rows.
    let mut block = Vec::new();
    for i in 0..64usize {
        block.push(i % 8 >= 4);
    }
    assert_eq!(calculate_complexity(&block), 8);
}

#[test]
fn test_conjugation_raises_complexity() {
    // A flat block is as simple as it gets; its conjugate must clear the
    // threshold by construction.
    let flat = vec![false; 64];
    assert!(calculate_complexity(&flat) <= COMPLEXITY_THRESHOLD);
    let conj = conjugate(&flat);
    assert!(calculate_complexity(&conj) > COMPLEXITY_THRESHOLD);

    // A half-and-half block is simple too.
    let mut halves = Vec::new();
    for i in 0..64usize {
        halves.push(i % 8 >= 4);
    }
    assert!(calculate_complexity(&halves) <= COMPLEXITY_THRESHOLD);
    let conj2 = conjugate(&halves);
    assert!(calculate_complexity(&conj2) > COMPLEXITY_THRESHOLD);
}

#[test]
fn test_capacity_boundary() {
    // A 64x64 noise carrier has 64 full blocks, 24 planes each, and at
    // most 63 payload bits per vessel: under 12,097 bytes whatever
    // qualifies. A small payload fits; an impossible one is refused.
    let carrier = noise_carrier(64, 64);
    let small = [0xA5u8; 100];
    assert!(embed(carrier, &small).is_ok());

    let carrier2 = noise_carrier(64, 64);
    let huge = vec![0xA5u8; 50_000];
    let r = embed(carrier2, &huge);
    assert_eq!(r.err().unwrap(), AegisError::CapacityExceeded);
}

#[test]
fn test_idempotent_extraction() {
    let carrier = noise_carrier(64, 64);
    let mut payload = [0u8; 64];
    rand::thread_rng().fill_bytes(&mut payload);
    let embedded = embed(carrier, &payload).unwrap();

    let first = extract(&embedded).unwrap();
    let second = extract(&embedded).unwrap();
    assert_eq!(first, second);
    assert_eq!(first, payload.to_vec());
}

#[test]
fn test_extract_from_flat_carrier_fails() {
    // A flat carrier holds no vessel blocks at all.
    let flat = flat_carrier(64, 64, 128);
    assert_eq!(extract(&flat).unwrap_err(), AegisError::PayloadNotFound);
}

#[test]
fn test_embed_preserves_dimensions_and_alpha() {
    let carrier = noise_carrier(32, 32);
    let reference = carrier.data.clone();
    let embedded = embed(carrier, &[0x5Au8; 16]).unwrap();
    assert_eq!(embedded.width, 32);
    assert_eq!(embedded.height, 32);
    let out = embedded.into_raw();
    assert_eq!(out.len(), reference.len());
    for px in 0..32 * 32 {
        assert_eq!(out[px * 4 + 3], reference[px * 4 + 3]);
    }
}

#[test]
fn test_bits_to_bytes_exact() {
    // 0b01000001 0b01000010 = b"AB"; a trailing partial group is dropped.
    let bits = vec![
        false, true, false, false, false, false, false, true, false, true, false, false,
        false, false, true, false, true, true, true,
    ];
    let bytes = bits_to_bytes(&bits);
    assert_eq!(bytes, b"AB".to_vec());
}

#[test]
fn test_corrupt_declared_length() {
    // Hand-craft one vessel block whose stored bits decode to a
    // conjugated all-ones payload: the declared length is 0xFFFFFFFF,
    // far past the plausibility cap.
    let mut data = vec![0u8; 8 * 8 * 4];
    for y in 0..8usize {
        for x in 0..8usize {
            // Plane 0 of channel 0 carries the complement of the
            // checkerboard; a value of 1 has Gray code 1.
            if (x + y) % 2 == 0 {
                data[(y * 8 + x) * 4] = 1;
            }
            data[(y * 8 + x) * 4 + 3] = 255;
        }
    }
    let grid = PixelGrid::from_raw(8, 8, data).unwrap();
    assert_eq!(extract(&grid).unwrap_err(), AegisError::CorruptPayload);
}

#[test]
fn test_pipeline_roundtrip() {
    let carrier = noise_carrier(64, 64);
    let payload = b"Hello World! This is a secret.";
    let password = "supersecretpassword";

    let stego = hide_payload(carrier, payload, password).expect("hide failed");
    let recovered = recover_payload(&stego, password).expect("recover failed");
    assert_eq!(recovered, payload.to_vec());
}

#[test]
fn test_pipeline_wrong_password() {
    let carrier = noise_carrier(64, 64);
    let stego = hide_payload(carrier, b"secret", "right").unwrap();
    assert_eq!(
        recover_payload(&stego, "wrong").unwrap_err(),
        AegisError::AuthenticationFailure
    );
}
