//! Active defenses: metadata poisoning, adversarial cloaking and pixel
//! glitching.

pub mod chaff;
pub mod cloak;
pub mod glitch;
