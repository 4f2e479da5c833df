//! The background-analysis scaffolding's data side: the priority queue
//! of pending forensic jobs. Threads, actors and filesystem events live
//! with the caller.

pub mod job_queue;
