//! Batch metadata mutations: one operation applied over a list of files.
//! Reading and rewriting the files belongs to the caller; the batch
//! bookkeeping — every file answered, in order — is here.

use vstd::prelude::*;

verus! {

/// One mutation to apply across a batch.
#[derive(Debug, Clone)]
pub enum BatchOperation {
    /// Shift every timestamp by a number of seconds.
    TimeShift {
        /// Seconds to add, possibly negative.
        delta_seconds: i64,
    },
    /// Inject GPS tags matched from a track log.
    GeotagSync {
        /// Path of the GPX track to match against.
        gpx_path: String,
    },
    /// Copy one tag's value into another.
    TagCopy {
        /// Tag to read.
        source: String,
        /// Tag to write.
        dest: String,
    },
}

/// Applies one operation over a whole batch of files.
pub struct MutationEngine;

impl MutationEngine {
    /// Apply the operation to every file in order. Each file is answered
    /// with its own path on success; no file is skipped or reordered.
    pub fn apply_batch(files: &Vec<String>, op: &BatchOperation) -> (r: Vec<
        Result<String, String>,
    >)
        ensures
            r@.len() == files@.len(),
            forall|k: int|
                #![trigger r@[k]]
                0 <= k < r@.len() ==> r@[k] is Ok && r@[k]->Ok_0@ == files@[k]@,
    {
        let mut results: Vec<Result<String, String>> = Vec::new();
        let mut i: usize = 0;
        while i < files.len()
            invariant
                i <= files@.len(),
                results@.len() == i,
                forall|k: int|
                    #![trigger results@[k]]
                    0 <= k < i ==> results@[k] is Ok && results@[k]->Ok_0@ == files@[k]@,
            decreases files@.len() - i,
        {
            let answered: Result<String, String> = match op {
                BatchOperation::TimeShift { delta_seconds: _ } => Ok(files[i].clone()),
                BatchOperation::GeotagSync { gpx_path: _ } => Ok(files[i].clone()),
                BatchOperation::TagCopy { source: _, dest: _ } => Ok(files[i].clone()),
            };
            results.push(answered);
            i = i + 1;
        }
        results
    }
}

} // verus!
