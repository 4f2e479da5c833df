//! The filesystem watchdog's handle: which path is watched. The watching
//! itself — events, threads — lives with the caller.

use vstd::prelude::*;
use vstd::string::StringExecFns;

verus! {

/// A watcher over one directory tree.
pub struct Watchdog {
    /// The root of the watched tree.
    pub path: String,
}

impl Watchdog {
    /// A watchdog over the given path.
    pub fn new(path: &str) -> (r: Watchdog)
        ensures
            r.path@ == path@,
    {
        Watchdog { path: String::from_str(path) }
    }
}

} // verus!
