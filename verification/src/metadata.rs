//! Metadata tooling: maker-note decoding, batch mutations, embedded
//! sub-file carving, and composite tag derivation.

pub mod binary_extractor;
pub mod composite_tags;
pub mod makernotes;
pub mod mutation_engine;
