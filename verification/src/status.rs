//! The data model of a run: one target per URL to probe, and one result record
//! per target, produced exactly once by whichever worker claimed it.

use vstd::prelude::*;

verus! {

/// One URL to be probed. Immutable once enqueued: it is created when the input
/// sequence is built, consumed exactly once by whichever worker claims it, and
/// then discarded.
#[derive(Debug, Clone, PartialEq, Eq)]
pub struct CheckTarget {
    pub url: String,
}

impl CheckTarget {
    pub fn new(url: String) -> (t: CheckTarget)
        ensures
            t.url == url,
    {
        CheckTarget { url }
    }
}

/// What one check observed. Reaching the endpoint at all counts as success of
/// the check, whatever numeric status came back — 4xx and 5xx included; only
/// failing to complete the request (DNS failure, connection refusal, timeout
/// expiry, TLS failure) is a failure, captured as a human-readable message.
#[derive(Debug, Clone, PartialEq, Eq)]
pub enum Outcome {
    Success(u16),
    Failure(String),
}

impl Outcome {
    pub fn is_success(&self) -> (r: bool)
        ensures
            r == (self is Success),
    {
        match self {
            Outcome::Success(_) => true,
            Outcome::Failure(_) => false,
        }
    }
}

/// The record produced for one `CheckTarget`: the URL that was probed, the
/// outcome, the elapsed wall-clock time of the request in milliseconds, and the
/// wall-clock timestamp (milliseconds since the Unix epoch) observed when the
/// check began. Immutable after creation; owned by the collector once emitted.
#[derive(Debug, Clone, PartialEq, Eq)]
pub struct CheckResult {
    pub url: String,
    pub outcome: Outcome,
    pub elapsed_ms: u64,
    pub observed_at_ms: i64,
}

} // verus!
