//! The computing half of the single-target checker. The transport performs the
//! blocking GET and hands back either the numeric status or a descriptive
//! message; this module turns that, together with the timing the driver
//! measured around the request, into the one `CheckResult` owed per target.

use vstd::prelude::*;

use crate::status::CheckResult;
use crate::status::Outcome;

verus! {

/// What outcome a transport verdict maps to: a completed request is a success
/// of the check carrying its status code — any code, 4xx and 5xx included —
/// and a request that could not be completed is a failure carrying the
/// transport's message.
pub open spec fn outcome_of(transport: Result<u16, String>) -> Outcome {
    match transport {
        Ok(code) => Outcome::Success(code),
        Err(message) => Outcome::Failure(message),
    }
}

/// Builds the result record for one checked target. Never fails: every
/// transport verdict, success or not, becomes data in the record.
pub fn build_result(
    url: String,
    transport: Result<u16, String>,
    elapsed_ms: u64,
    observed_at_ms: i64,
) -> (r: CheckResult)
    ensures
        r.url == url,
        r.outcome == outcome_of(transport),
        r.outcome is Success <==> transport is Ok,
        r.elapsed_ms == elapsed_ms,
        r.observed_at_ms == observed_at_ms,
{
    let outcome = match transport {
        Ok(code) => Outcome::Success(code),
        Err(message) => Outcome::Failure(message),
    };
    CheckResult { url, outcome, elapsed_ms, observed_at_ms }
}

} // verus!
