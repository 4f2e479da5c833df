//! Derivation of composite tags — field of view, exposure value — from
//! raw tag pairs. The trigonometric and logarithmic formulas run on
//! floating point, which this library does not hold; the caller computes
//! them and owns the tag map. The engine type itself is declared here so
//! the suite's interface stays whole.

use vstd::prelude::*;

verus! {

/// Derives virtual tags from combinations of raw metadata tags.
pub struct CompositeTagEngine;

} // verus!
