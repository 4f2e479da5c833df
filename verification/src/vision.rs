//! The sensor-noise (PRNU) vision engine's handle. Fingerprint
//! extraction and correlation run on floating point and live with the
//! caller; the engine type is declared here so the suite's interface
//! stays whole.

use vstd::prelude::*;

verus! {

/// An engine that extracts and compares sensor-noise fingerprints.
pub struct PrnuEngine;

impl PrnuEngine {
    /// An engine; it keeps no state.
    pub fn new() -> (r: PrnuEngine)
        ensures
            r == PrnuEngine,
    {
        PrnuEngine
    }
}

} // verus!
