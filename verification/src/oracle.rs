//! The deepfake oracle's handle. The tensor model behind it runs on
//! floating point and lives with the caller; the scanner type is declared
//! here so the suite's interface stays whole.

use vstd::prelude::*;

verus! {

/// A scanner that consults the deepfake classification model.
pub struct DeepfakeScanner;

impl DeepfakeScanner {
    /// A scanner; it keeps no state.
    pub fn new() -> (r: DeepfakeScanner)
        ensures
            r == DeepfakeScanner,
    {
        DeepfakeScanner
    }
}

} // verus!
