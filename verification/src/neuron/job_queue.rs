//! A priority queue of forensic jobs: higher priority leaves first, and
//! among equal priorities the earliest-queued job leaves first.

use vstd::prelude::*;

verus! {

/// One queued analysis job. The job id carries a 128-bit unique value;
/// the caller renders it however it likes.
#[derive(Debug, Clone)]
pub struct ForensicJob {
    /// The job's 128-bit unique identifier.
    pub id: u128,
    /// Scheduling priority; higher is served first.
    pub priority: u8,
    /// The file the job is about.
    pub file_path: String,
}

/// Highest-priority-first job queue.
pub struct JobQueue {
    /// The pending jobs, in arrival order.
    pub jobs: Vec<ForensicJob>,
}

/// The position `pop` serves next: the first index holding the maximal
/// priority — a later job displaces it only by being strictly higher.
pub open spec fn spec_top_index(s: Seq<ForensicJob>) -> int
    decreases s.len(),
{
    if s.len() <= 1 {
        0
    } else {
        let t = spec_top_index(s.drop_last());
        if s.last().priority > s[t].priority {
            s.len() - 1
        } else {
            t
        }
    }
}

/// The served position is in range and holds a maximal priority.
pub proof fn lemma_top_index_max(s: Seq<ForensicJob>)
    requires
        s.len() > 0,
    ensures
        0 <= spec_top_index(s) < s.len(),
        forall|j: int|
            #![trigger s[j]]
            0 <= j < s.len() ==> s[j].priority <= s[spec_top_index(s)].priority,
    decreases s.len(),
{
    if s.len() > 1 {
        lemma_top_index_max(s.drop_last());
        let t = spec_top_index(s.drop_last());
        assert forall|j: int|
            #![trigger s[j]]
            0 <= j < s.len() implies s[j].priority <= s[spec_top_index(s)].priority by {
            if j < s.len() - 1 {
                assert(s.drop_last()[j] == s[j]);
            }
            assert(s.drop_last()[t] == s[t]);
        }
    }
}

impl JobQueue {
    /// An empty queue.
    pub fn new() -> (r: JobQueue)
        ensures
            r.jobs@.len() == 0,
    {
        JobQueue { jobs: Vec::new() }
    }

    /// Queue a job.
    pub fn push(&mut self, job: ForensicJob)
        ensures
            final(self).jobs@ == old(self).jobs@.push(job),
    {
        self.jobs.push(job);
    }

    /// Serve the highest-priority job, earliest first among equals; or
    /// nothing when the queue is empty.
    pub fn pop(&mut self) -> (r: Option<ForensicJob>)
        ensures
            old(self).jobs@.len() == 0 ==> r is None && final(self).jobs@ == old(self).jobs@,
            old(self).jobs@.len() > 0 ==> {
                let top = spec_top_index(old(self).jobs@);
                &&& r is Some
                &&& r->0 == old(self).jobs@[top]
                &&& final(self).jobs@ == old(self).jobs@.remove(top)
            },
    {
        if self.jobs.len() == 0 {
            return None;
        }
        let mut best: usize = 0;
        let mut k: usize = 1;
        while k < self.jobs.len()
            invariant
                self.jobs@.len() > 0,
                best < k,
                k <= self.jobs@.len(),
                best as int == spec_top_index(self.jobs@.take(k as int)),
            decreases self.jobs@.len() - k,
        {
            proof {
                lemma_top_index_max(self.jobs@.take(k as int));
                assert(self.jobs@.take(k + 1).drop_last() =~= self.jobs@.take(k as int));
            }
            if self.jobs[k].priority > self.jobs[best].priority {
                best = k;
            }
            k = k + 1;
        }
        proof {
            assert(self.jobs@.take(self.jobs@.len() as int) =~= self.jobs@);
        }
        Some(self.jobs.remove(best))
    }
}

} // verus!
