//! Error kinds surfaced by the steganography engine and its cipher layer.

use vstd::prelude::*;

verus! {

/// A typed failure of the hide/recover pipeline.
///
/// Wrong-password and tampered-ciphertext failures are deliberately not
/// distinguished from each other: both surface as `AuthenticationFailure`,
/// so that callers cannot be used as a padding or tag oracle.
#[derive(Debug, Clone, Copy, PartialEq, Eq, Structural)]
pub enum AegisError {
    /// The encrypted envelope is shorter than its fixed salt-plus-nonce prefix.
    InputTooShort,
    /// The password-based key derivation failed internally.
    KdfFailure,
    /// The AEAD cipher failed to encrypt.
    EncryptionFailure,
    /// The AEAD tag did not verify: wrong password, or corrupted data.
    AuthenticationFailure,
    /// The carrier has too few usable noise blocks for the payload.
    CapacityExceeded,
    /// The declared payload length in a recovered bitstream is implausible.
    CorruptPayload,
    /// The carrier was exhausted before a whole payload was recovered.
    PayloadNotFound,
    /// An external image or file codec failed; details stay with the caller.
    UnderlyingCodecError,
}

} // verus!
