//! A capacity-adaptive image steganography engine with an authenticated
//! encryption layer, together with the forensic helpers that surround it:
//! threat scanning, data carving, metadata tooling and a hash-chained audit
//! log.
//!
//! The heart of the crate is the bit-plane complexity segmentation (BPCS)
//! pipeline: a payload is encrypted under a password, framed with a 32-bit
//! length, and hidden inside the noisy 8x8 blocks of a carrier pixel grid;
//! the extractor mirrors the embedder's scan exactly and recovers the bytes.

pub mod bitstream;
pub mod carrier;
pub mod carver;
pub mod chameleon;
pub mod complexity;
pub mod defense;
pub mod encryption;
pub mod errors;
pub mod forgery;
pub mod formats;
pub mod gray;
pub mod metadata;
pub mod neuron;
pub mod oracle;
pub mod pipeline;
pub mod sanitize;
pub mod stego;
pub mod threat_detect;
pub mod vault;
pub mod vision;
pub mod watchdog;
