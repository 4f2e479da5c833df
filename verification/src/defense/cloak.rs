//! The adversarial cloak: perceptual noise that disturbs
//! gradient-histogram face detectors. The noise itself is drawn and
//! blended in floating point by the caller; the cloak's handle lives
//! here.

use vstd::prelude::*;

verus! {

/// A handle on the anti-detection cloak.
pub struct AdversarialCloak;

impl AdversarialCloak {
    /// A cloak; it keeps no state.
    pub fn new() -> (r: AdversarialCloak)
        ensures
            r == AdversarialCloak,
    {
        AdversarialCloak
    }
}

} // verus!
