//! The full hiding pipeline: encrypt a payload under a password, frame
//! the envelope with its length, and embed it in a carrier — and the
//! mirror image, extract and decrypt. These are the I/O-free cores of the
//! hide and extract commands; the caller decodes and re-encodes image
//! files around them.

use crate::carrier::PixelGrid;
use crate::encryption::{decrypt, encrypt, spec_is_encryption_of};
use crate::errors::AegisError;
use crate::stego::{
    embed, extract, lemma_embed_extract_round_trip, spec_embedding_fits, spec_final_block,
    spec_n_triples, spec_recovered_payload, spec_stored_block, MAX_PAYLOAD_LEN,
};
use vstd::prelude::*;
use vstd::string::StringSliceAdditionalSpecFns;

verus! {

/// Encrypt `data` under `password` and hide the resulting envelope in the
/// carrier.
///
/// On success, the output carrier physically stores some envelope that is
/// an encryption of `data` under `password`; and whenever the envelope is
/// of admissible length, re-scanning the output recovers that envelope
/// exactly — the round-trip guarantee of the engine. Success is owed
/// whenever the password is derivable and every bitstream of the
/// envelope's length fits the carrier: what the random salt and nonce
/// draw can never turn a fitting payload away, because the cursor
/// consumes bits at a rate independent of their values. On failure no
/// grid is surfaced at all.
pub fn hide_payload(grid: PixelGrid, data: &[u8], password: &str) -> (r: Result<PixelGrid, AegisError>)
    requires
        grid.wf(),
        data@.len() + 44 < 0x1_0000_0000,
        8 * (data@.len() + 44) + 32 <= usize::MAX,
    ensures
        r is Ok ==> (r->Ok_0).wf() && (r->Ok_0).width == grid.width && (r->Ok_0).height
            == grid.height,
        r is Ok ==> exists|env: Seq<u8>|
            {
                &&& #[trigger] spec_is_encryption_of(env, data@, password.spec_bytes())
                &&& env.len() == data@.len() + 44
                &&& spec_embedding_fits(grid, crate::bitstream::spec_frame_bits(env))
                &&& (data@.len() + 44 <= MAX_PAYLOAD_LEN ==> spec_recovered_payload(r->Ok_0)
                    == Result::<Seq<u8>, AegisError>::Ok(env))
            },
        r is Err ==> (r->Err_0 == AegisError::KdfFailure || r->Err_0
            == AegisError::EncryptionFailure || r->Err_0 == AegisError::CapacityExceeded),
        (password.spec_bytes().len() <= 0xFFFF_FFFF && forall|e: Seq<u8>|
            e.len() == data@.len() + 44 ==> spec_embedding_fits(
                grid,
                crate::bitstream::spec_frame_bits(e),
            )) ==> r is Ok,
{
    let envelope: Vec<u8> = match encrypt(data, password) {
        Ok(e) => e,
        Err(e) => {
            return Err(e);
        },
    };
    let ghost env = envelope@;
    proof {
        assert(env.len() == data@.len() + 44);
    }
    let out = match embed(grid, envelope.as_slice()) {
        Ok(g) => g,
        Err(e) => {
            proof {
                if password.spec_bytes().len() <= 0xFFFF_FFFF && forall|e2: Seq<u8>|
                    e2.len() == data@.len() + 44 ==> spec_embedding_fits(
                        grid,
                        crate::bitstream::spec_frame_bits(e2),
                    ) {
                    assert(spec_embedding_fits(grid, crate::bitstream::spec_frame_bits(env)));
                }
            }
            return Err(e);
        },
    };
    proof {
        if data@.len() + 44 <= MAX_PAYLOAD_LEN {
            lemma_embed_extract_round_trip(grid, env, out);
        }
    }
    Ok(out)
}

/// Recover the hidden envelope from a stored carrier and decrypt it under
/// `password`.
///
/// The scan half is a pure function of the carrier, so its errors —
/// `CorruptPayload`, `PayloadNotFound` — are pinned exactly. When the
/// carrier holds an envelope that really is an encryption under this
/// password, success is owed and the result is that plaintext and no
/// other; otherwise decryption ends in `AuthenticationFailure` (or
/// `InputTooShort` for a recovered envelope below the 28-byte minimum).
pub fn recover_payload(grid: &PixelGrid, password: &str) -> (r: Result<Vec<u8>, AegisError>)
    requires
        grid.wf(),
    ensures
        spec_recovered_payload(*grid) is Err ==> r is Err && r->Err_0 == spec_recovered_payload(
            *grid,
        )->Err_0,
        spec_recovered_payload(*grid) is Ok ==> {
            let env = spec_recovered_payload(*grid)->Ok_0;
            &&& (r is Ok ==> spec_is_encryption_of(env, r->Ok_0@, password.spec_bytes()))
            &&& (r is Ok ==> forall|p: Seq<u8>|
                spec_is_encryption_of(env, p, password.spec_bytes()) ==> p == r->Ok_0@)
            &&& ((env.len() >= 28 && password.spec_bytes().len() <= 0xFFFF_FFFF && exists|
                p: Seq<u8>,
            |
                spec_is_encryption_of(env, p, password.spec_bytes()) && p.len()
                    <= 0x10_0000_0000) ==> r is Ok)
            &&& ((r is Err && r->Err_0 == AegisError::InputTooShort) <==> env.len() < 28)
        },
{
    let envelope: Vec<u8> = match extract(grid) {
        Ok(e) => e,
        Err(e) => {
            return Err(e);
        },
    };
    decrypt(envelope.as_slice(), password)
}

} // verus!
