//! The vault's record cipher: ChaCha20-Poly1305 under a caller-supplied
//! key, each record framed as `nonce(12) ‖ ciphertext+tag`.

use crate::errors::AegisError;
use aes_gcm::aead::rand_core::RngCore;
use chacha20poly1305::aead::Aead;
use chacha20poly1305::KeyInit;
use vstd::prelude::*;

verus! {

/// The ChaCha20-Poly1305 ciphertext (tag included) of a plaintext under a
/// key and nonce. Deterministic in all three.
pub uninterp spec fn spec_chacha_ct(key: Seq<u8>, nonce: Seq<u8>, pt: Seq<u8>) -> Seq<u8>;

/// `rec` is a well-formed vault record holding `pt` encrypted under `key`
/// and the record's own leading nonce.
pub open spec fn spec_is_record_of(rec: Seq<u8>, pt: Seq<u8>, key: Seq<u8>) -> bool {
    &&& rec.len() >= 12
    &&& pt.len() < 0x3F_FFFF_FFC0
    &&& rec.len() == 12 + pt.len() + 16
    &&& rec.skip(12) == spec_chacha_ct(key, rec.subrange(0, 12), pt)
}

/// Relies on the operating system's randomness through
/// `aes_gcm::aead::OsRng::fill_bytes`; only the length of the nonce is
/// assumed.
#[verifier::external_body]
fn random_nonce() -> (r: Vec<u8>)
    ensures
        r@.len() == 12,
{
    let mut buf = vec![0u8; 12];
    aes_gcm::aead::OsRng.fill_bytes(&mut buf);
    buf
}

/// Relies on `chacha20poly1305::ChaCha20Poly1305::encrypt`: deterministic
/// in key, nonce and plaintext, it appends a 16-byte tag and fails
/// exactly when the plaintext spans the cipher's block-counter range of
/// `64 * (2^32 - 1)` bytes or more.
#[verifier::external_body]
fn chacha_encrypt(key: &Vec<u8>, nonce: &Vec<u8>, pt: &[u8]) -> (r: Result<Vec<u8>, ()>)
    requires
        key@.len() == 32,
        nonce@.len() == 12,
    ensures
        r is Ok <==> pt@.len() < 0x3F_FFFF_FFC0,
        r is Ok ==> r->Ok_0@ == spec_chacha_ct(key@, nonce@, pt@) && r->Ok_0@.len()
            == pt@.len() + 16,
{
    let cipher = chacha20poly1305::ChaCha20Poly1305::new(
        chacha20poly1305::Key::from_slice(key),
    );
    cipher.encrypt(chacha20poly1305::Nonce::from_slice(nonce), pt).map_err(|_e| ())
}

/// Relies on `chacha20poly1305::ChaCha20Poly1305::decrypt`: it inverts
/// encryption — any admissible ciphertext that some plaintext encrypts to
/// under this key and nonce decrypts back to that plaintext and only to
/// it — and reports an error (tag mismatch) for everything else.
#[verifier::external_body]
fn chacha_decrypt(key: &Vec<u8>, nonce: &Vec<u8>, ct: &[u8]) -> (r: Result<Vec<u8>, ()>)
    requires
        key@.len() == 32,
        nonce@.len() == 12,
    ensures
        r is Ok ==> ct@ == spec_chacha_ct(key@, nonce@, r->Ok_0@) && r->Ok_0@.len() + 16
            == ct@.len() && r->Ok_0@.len() < 0x3F_FFFF_FFC0,
        (ct@.len() < 0x3F_FFFF_FFD0 && exists|p: Seq<u8>|
            ct@ == spec_chacha_ct(key@, nonce@, p) && p.len() + 16 == ct@.len()) ==> r is Ok,
        r is Ok ==> forall|p: Seq<u8>|
            ct@ == spec_chacha_ct(key@, nonce@, p) && p.len() + 16 == ct@.len() ==> p
                == r->Ok_0@,
{
    let cipher = chacha20poly1305::ChaCha20Poly1305::new(
        chacha20poly1305::Key::from_slice(key),
    );
    cipher.decrypt(chacha20poly1305::Nonce::from_slice(nonce), ct).map_err(|_e| ())
}

/// Encrypts vault records at rest under one symmetric key.
pub struct EncryptionEngine {
    /// The 32-byte ChaCha20-Poly1305 key.
    pub key: Vec<u8>,
}

impl EncryptionEngine {
    /// The key is exactly 32 bytes.
    pub open spec fn wf(self) -> bool {
        self.key@.len() == 32
    }

    /// An engine over a 32-byte key.
    pub fn new(key: &[u8; 32]) -> (r: EncryptionEngine)
        ensures
            r.wf(),
            r.key@ == key@,
    {
        EncryptionEngine { key: vstd::slice::slice_to_vec(key.as_slice()) }
    }

    /// Encrypt a record: a fresh random 96-bit nonce is prepended to the
    /// ciphertext, so equal records encrypt to unequal bytes by design.
    pub fn encrypt(&self, data: &[u8]) -> (r: Result<Vec<u8>, AegisError>)
        requires
            self.wf(),
        ensures
            r is Ok <==> data@.len() < 0x3F_FFFF_FFC0,
            r is Ok ==> spec_is_record_of(r->Ok_0@, data@, self.key@),
            r is Err ==> r->Err_0 == AegisError::EncryptionFailure,
    {
        let nonce: Vec<u8> = random_nonce();
        let ciphertext: Vec<u8> = match chacha_encrypt(&self.key, &nonce, data) {
            Ok(c) => c,
            Err(_) => {
                return Err(AegisError::EncryptionFailure);
            },
        };
        let mut result: Vec<u8> = Vec::new();
        result.extend_from_slice(nonce.as_slice());
        result.extend_from_slice(ciphertext.as_slice());
        proof {
            assert(result@.subrange(0, 12) =~= nonce@);
            assert(result@.skip(12) =~= ciphertext@);
        }
        Ok(result)
    }

    /// Decrypt a record under the engine's key.
    ///
    /// Fails with `InputTooShort` exactly when the record is shorter than
    /// its 12-byte nonce prefix, and with `AuthenticationFailure` when
    /// the tag does not verify — which cannot happen when the record
    /// really is an encryption under this key.
    pub fn decrypt(&self, encrypted_data: &[u8]) -> (r: Result<Vec<u8>, AegisError>)
        requires
            self.wf(),
        ensures
            (r is Err && r->Err_0 == AegisError::InputTooShort) <==> encrypted_data@.len() < 12,
            r is Ok ==> spec_is_record_of(encrypted_data@, r->Ok_0@, self.key@),
            (encrypted_data@.len() >= 12 && exists|p: Seq<u8>|
                spec_is_record_of(encrypted_data@, p, self.key@)) ==> r is Ok,
            r is Ok ==> forall|p: Seq<u8>|
                spec_is_record_of(encrypted_data@, p, self.key@) ==> p == r->Ok_0@,
            r is Err ==> (r->Err_0 == AegisError::InputTooShort || r->Err_0
                == AegisError::AuthenticationFailure),
    {
        if encrypted_data.len() < 12 {
            return Err(AegisError::InputTooShort);
        }
        let nonce_slice: &[u8] = vstd::slice::slice_subrange(encrypted_data, 0, 12);
        let nonce: Vec<u8> = vstd::slice::slice_to_vec(nonce_slice);
        let ct: &[u8] = vstd::slice::slice_subrange(encrypted_data, 12, encrypted_data.len());
        match chacha_decrypt(&self.key, &nonce, ct) {
            Ok(plaintext) => {
                proof {
                    assert(encrypted_data@.skip(12) =~= ct@);
                }
                Ok(plaintext)
            },
            Err(_) => {
                proof {
                    assert(encrypted_data@.skip(12) =~= ct@);
                    assert forall|p: Seq<u8>|
                        !spec_is_record_of(encrypted_data@, p, self.key@) by {
                        if spec_is_record_of(encrypted_data@, p, self.key@) {
                            assert(ct@.len() < 0x3F_FFFF_FFD0);
                        }
                    }
                }
                Err(AegisError::AuthenticationFailure)
            },
        }
    }
}

} // verus!
