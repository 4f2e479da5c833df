//! Threat scanning over raw file bytes: embedded-archive (polyglot)
//! structure and suspicious byte signatures.

use vstd::prelude::*;

pub mod polyglot;
pub mod signatures;

verus! {

/// One finding of a scanner: where it was, what it is, and the first
/// bytes of the matched content.
#[derive(Debug, Clone)]
pub struct ThreatMatch {
    /// The scanner family that produced the finding.
    pub name: String,
    /// A human-readable description of the finding.
    pub description: String,
    /// Byte offset of the match in the scanned buffer.
    pub offset: usize,
    /// The first bytes of the match, at most sixteen.
    pub snippet: Vec<u8>,
}

} // verus!
