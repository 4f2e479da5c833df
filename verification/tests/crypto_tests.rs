//! Tests of the authenticated cipher layer: round trips, rejection of
//! wrong passwords, and the envelope length floor.

use aegis::encryption::{decrypt, encrypt};
use aegis::errors::AegisError;

#[test]
fn test_encryption_roundtrip() {
    let password = "supersecretpassword";
    let data = b"Hello World! This is a secret.";

    let encrypted = encrypt(data, password).unwrap();
    assert_ne!(data.as_slice(), encrypted.as_slice());

    let decrypted = decrypt(&encrypted, password).unwrap();
    assert_eq!(data.as_slice(), decrypted.as_slice());
}

#[test]
fn test_encryption_wrong_password() {
    let data = b"Sensitive";
    let encrypted = encrypt(data, "pass1").unwrap();
    let result = decrypt(&encrypted, "pass2");
    assert!(result.is_err());
    assert_eq!(result.unwrap_err(), AegisError::AuthenticationFailure);
}

#[test]
fn test_envelope_layout() {
    // salt(16) + nonce(12) + ciphertext + tag(16)
    let encrypted = encrypt(b"abc", "pw").unwrap();
    assert_eq!(encrypted.len(), 16 + 12 + 3 + 16);
}

#[test]
fn test_envelope_too_short() {
    for n in 0..28usize {
        let envelope = vec![0u8; n];
        let r = decrypt(&envelope, "whatever");
        assert_eq!(r.unwrap_err(), AegisError::InputTooShort);
    }
    // 28 bytes is no longer "too short"; it fails authentication instead.
    let r = decrypt(&[0u8; 28], "whatever");
    assert_eq!(r.unwrap_err(), AegisError::AuthenticationFailure);
}

#[test]
fn test_tampered_envelope_rejected() {
    let mut encrypted = encrypt(b"payload", "pw").unwrap();
    let last = encrypted.len() - 1;
    encrypted[last] ^= 0x01;
    assert_eq!(decrypt(&encrypted, "pw").unwrap_err(), AegisError::AuthenticationFailure);
}

#[test]
fn test_fresh_salt_and_nonce_each_call() {
    let a = encrypt(b"same", "pw").unwrap();
    let b = encrypt(b"same", "pw").unwrap();
    assert_ne!(a, b);
}
