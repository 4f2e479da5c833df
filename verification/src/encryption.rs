//! The authenticated cipher layer: a password-based key derivation
//! (Argon2) feeding an AEAD cipher (AES-256-GCM), producing self-contained
//! envelopes laid out as `salt(16) ‖ nonce(12) ‖ ciphertext+tag`.

use crate::errors::AegisError;
use aes_gcm::aead::rand_core::RngCore;
use aes_gcm::aead::Aead;
use aes_gcm::KeyInit;
use argon2::Argon2;
use vstd::prelude::*;
use vstd::slice::{slice_subrange, slice_to_vec};
use vstd::string::StringSliceAdditionalSpecFns;

verus! {

/// Length of the random salt that prefixes an envelope.
pub const SALT_LEN: usize = 16;

/// Length of the AEAD nonce that follows the salt.
pub const NONCE_LEN: usize = 12;

/// The symmetric key the key-derivation function produces from a password
/// and a salt. Deterministic in both; its value is stated nowhere and is
/// established only by the derivation itself.
pub uninterp spec fn spec_kdf_key(password: Seq<u8>, salt: Seq<u8>) -> Seq<u8>;

/// The AEAD ciphertext (tag included) of a plaintext under a key and
/// nonce. Deterministic in all three.
pub uninterp spec fn spec_aead_ct(key: Seq<u8>, nonce: Seq<u8>, pt: Seq<u8>) -> Seq<u8>;

/// `env` is a well-formed envelope holding `pt` encrypted under the key
/// derived from `pw` and the envelope's own salt and nonce.
pub open spec fn spec_is_encryption_of(env: Seq<u8>, pt: Seq<u8>, pw: Seq<u8>) -> bool {
    &&& env.len() >= 28
    &&& env.len() == 28 + pt.len() + 16
    &&& env.skip(28) == spec_aead_ct(
        spec_kdf_key(pw, env.subrange(0, 16)),
        env.subrange(16, 28),
        pt,
    )
}

/// Relies on the operating system's randomness through
/// `aes_gcm::aead::OsRng::fill_bytes`; nothing but the length is assumed
/// of the outcome.
#[verifier::external_body]
fn random_bytes(n: usize) -> (r: Vec<u8>)
    ensures
        r@.len() == n,
{
    let mut buf = vec![0u8; n];
    aes_gcm::aead::OsRng.fill_bytes(&mut buf);
    buf
}

/// Relies on `argon2::Argon2::hash_password_into` with the crate's default
/// parameters: deterministic in password and salt; with a 16-byte salt it
/// fails exactly when the password is longer than `0xFFFF_FFFF` bytes, and
/// the derived key is the 32 bytes asked for.
#[verifier::external_body]
fn kdf_derive(password: &str, salt: &Vec<u8>) -> (r: Result<Vec<u8>, ()>)
    requires
        salt@.len() == 16,
    ensures
        r is Ok <==> password.spec_bytes().len() <= 0xFFFF_FFFF,
        r is Ok ==> r->Ok_0@ == spec_kdf_key(password.spec_bytes(), salt@) && r->Ok_0@.len()
            == 32,
{
    let mut key = [0u8; 32];
    match Argon2::default().hash_password_into(password.as_bytes(), salt, &mut key) {
        Ok(()) => Ok(key.to_vec()),
        Err(_) => Err(()),
    }
}

/// Relies on `aes_gcm::Aes256Gcm::encrypt`: deterministic in key, nonce
/// and plaintext, it appends a 16-byte tag and fails exactly when the
/// plaintext is longer than 2^36 bytes.
#[verifier::external_body]
fn aead_encrypt(key: &Vec<u8>, nonce: &Vec<u8>, pt: &[u8]) -> (r: Result<Vec<u8>, ()>)
    requires
        key@.len() == 32,
        nonce@.len() == 12,
    ensures
        r is Ok <==> pt@.len() <= 0x10_0000_0000,
        r is Ok ==> r->Ok_0@ == spec_aead_ct(key@, nonce@, pt@) && r->Ok_0@.len() == pt@.len()
            + 16,
{
    let cipher = aes_gcm::Aes256Gcm::new(aes_gcm::Key::<aes_gcm::Aes256Gcm>::from_slice(key));
    cipher.encrypt(aes_gcm::Nonce::from_slice(nonce), pt).map_err(|_e| ())
}

/// Relies on `aes_gcm::Aes256Gcm::decrypt`: it inverts encryption — any
/// ciphertext of admissible length that some plaintext encrypts to under
/// this key and nonce decrypts back to that plaintext, and only to it —
/// and reports an error (tag mismatch) for everything else. The length
/// guard runs on the body after the 16-byte tag is split off, so a
/// successful plaintext is bounded by `2^36 + 16`, not `2^36`.
#[verifier::external_body]
fn aead_decrypt(key: &Vec<u8>, nonce: &Vec<u8>, ct: &[u8]) -> (r: Result<Vec<u8>, ()>)
    requires
        key@.len() == 32,
        nonce@.len() == 12,
    ensures
        r is Ok ==> ct@ == spec_aead_ct(key@, nonce@, r->Ok_0@) && r->Ok_0@.len() + 16
            == ct@.len() && r->Ok_0@.len() <= 0x10_0000_0010,
        (ct@.len() <= 0x10_0000_0010 && exists|p: Seq<u8>|
            ct@ == spec_aead_ct(key@, nonce@, p) && p.len() + 16 == ct@.len()) ==> r is Ok,
        r is Ok ==> forall|p: Seq<u8>|
            ct@ == spec_aead_ct(key@, nonce@, p) && p.len() + 16 == ct@.len() ==> p
                == r->Ok_0@,
{
    let cipher = aes_gcm::Aes256Gcm::new(aes_gcm::Key::<aes_gcm::Aes256Gcm>::from_slice(key));
    cipher.decrypt(aes_gcm::Nonce::from_slice(nonce), ct).map_err(|_e| ())
}

/// Encrypt a payload under a password: a fresh random 16-byte salt and
/// 96-bit nonce, an Argon2-derived key, and an AEAD ciphertext, framed as
/// `salt ‖ nonce ‖ ciphertext`. Different calls draw different salts and
/// nonces, so equal inputs yield unequal envelopes by design; every
/// successful envelope is an encryption of the payload in the sense of
/// [`spec_is_encryption_of`].
pub fn encrypt(data: &[u8], password: &str) -> (r: Result<Vec<u8>, AegisError>)
    ensures
        r is Ok <==> password.spec_bytes().len() <= 0xFFFF_FFFF && data@.len()
            <= 0x10_0000_0000,
        r is Ok ==> spec_is_encryption_of(r->Ok_0@, data@, password.spec_bytes()),
        r is Err ==> (r->Err_0 == AegisError::KdfFailure <==> password.spec_bytes().len()
            > 0xFFFF_FFFF),
        r is Err ==> (r->Err_0 == AegisError::KdfFailure || r->Err_0
            == AegisError::EncryptionFailure),
{
    let salt: Vec<u8> = random_bytes(16);
    let nonce: Vec<u8> = random_bytes(12);
    let key: Vec<u8> = match kdf_derive(password, &salt) {
        Ok(k) => k,
        Err(_) => {
            return Err(AegisError::KdfFailure);
        },
    };
    let ciphertext: Vec<u8> = match aead_encrypt(&key, &nonce, data) {
        Ok(c) => c,
        Err(_) => {
            return Err(AegisError::EncryptionFailure);
        },
    };
    let mut output: Vec<u8> = Vec::new();
    output.extend_from_slice(salt.as_slice());
    output.extend_from_slice(nonce.as_slice());
    output.extend_from_slice(ciphertext.as_slice());
    proof {
        assert(output@.subrange(0, 16) =~= salt@);
        assert(output@.subrange(16, 28) =~= nonce@);
        assert(output@.skip(28) =~= ciphertext@);
    }
    Ok(output)
}

/// Decrypt an envelope under a password.
///
/// Fails with `InputTooShort` exactly when the envelope is shorter than
/// its 28-byte salt-plus-nonce prefix, with `KdfFailure` exactly when the
/// key derivation refuses the password, and with `AuthenticationFailure`
/// when the tag does not verify — which is guaranteed not to happen when
/// the envelope really is an encryption, of encryptable length, under
/// this password, and which never yields any unauthenticated plaintext
/// otherwise.
pub fn decrypt(encrypted_data: &[u8], password: &str) -> (r: Result<Vec<u8>, AegisError>)
    ensures
        (r is Err && r->Err_0 == AegisError::InputTooShort) <==> encrypted_data@.len() < 28,
        (r is Err && r->Err_0 == AegisError::KdfFailure) <==> (encrypted_data@.len() >= 28
            && password.spec_bytes().len() > 0xFFFF_FFFF),
        r is Ok ==> spec_is_encryption_of(encrypted_data@, r->Ok_0@, password.spec_bytes()),
        (encrypted_data@.len() >= 28 && password.spec_bytes().len() <= 0xFFFF_FFFF && exists|
            p: Seq<u8>,
        |
            spec_is_encryption_of(encrypted_data@, p, password.spec_bytes()) && p.len()
                <= 0x10_0000_0000) ==> r is Ok,
        r is Ok ==> forall|p: Seq<u8>|
            spec_is_encryption_of(encrypted_data@, p, password.spec_bytes()) ==> p == r->Ok_0@,
        r is Err ==> (r->Err_0 == AegisError::InputTooShort || r->Err_0
            == AegisError::KdfFailure || r->Err_0 == AegisError::AuthenticationFailure),
{
    if encrypted_data.len() < 28 {
        return Err(AegisError::InputTooShort);
    }
    let salt_slice: &[u8] = slice_subrange(encrypted_data, 0, 16);
    let nonce_slice: &[u8] = slice_subrange(encrypted_data, 16, 28);
    let ct: &[u8] = slice_subrange(encrypted_data, 28, encrypted_data.len());
    let salt: Vec<u8> = slice_to_vec(salt_slice);
    let nonce: Vec<u8> = slice_to_vec(nonce_slice);
    let key: Vec<u8> = match kdf_derive(password, &salt) {
        Ok(k) => k,
        Err(_) => {
            return Err(AegisError::KdfFailure);
        },
    };
    match aead_decrypt(&key, &nonce, ct) {
        Ok(plaintext) => {
            proof {
                assert(encrypted_data@.skip(28) =~= ct@);
            }
            Ok(plaintext)
        },
        Err(_) => {
            proof {
                assert(encrypted_data@.skip(28) =~= ct@);
                assert forall|p: Seq<u8>|
                    !(spec_is_encryption_of(encrypted_data@, p, password.spec_bytes())
                        && p.len() <= 0x10_0000_0000) by {
                    if spec_is_encryption_of(encrypted_data@, p, password.spec_bytes())
                        && p.len() <= 0x10_0000_0000 {
                        assert(ct@.len() <= 0x10_0000_0010);
                    }
                }
            }
            Err(AegisError::AuthenticationFailure)
        },
    }
}

} // verus!
