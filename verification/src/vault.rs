//! The secure storage companion: a hash-chained audit log and a dead
//! man's switch. The storage backend itself lives with the caller; the
//! chain arithmetic and the deadline logic are here.

pub mod audit;
pub mod crypto;
pub mod dms;
