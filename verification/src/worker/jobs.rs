//! Results of background collection jobs.
//!
//! The jobs themselves run on threads outside this library; what they report
//! comes back as these values.

use vstd::prelude::*;

use crate::cache::CacheKey;

verus! {

/// Why a job could not be started.
#[derive(Clone, Debug, PartialEq, Eq)]
pub enum JobPoolError {
    Closed,
}

impl JobPoolError {
    /// The message for this error.
    pub fn message(&self) -> (r: String)
        ensures
            r@ == "job pool is closed"@,
    {
        "job pool is closed".to_string()
    }
}

/// How a job ended: with its value, or by panicking.
#[derive(Clone, Debug, PartialEq, Eq)]
pub enum JobOutcome<T> {
    Completed(T),
    Panicked,
}

/// What a job reports: for which prompt and key it ran, which keys fail with it,
/// when it started and finished (in milliseconds), and how it ended.
#[derive(Clone, Debug, PartialEq, Eq)]
pub struct JobResult<T> {
    pub generation: u64,
    pub key: CacheKey,
    pub fail_keys: Vec<CacheKey>,
    pub started_at: u64,
    pub finished_at: u64,
    pub outcome: JobOutcome<T>,
}

} // verus!
