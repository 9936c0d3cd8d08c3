//! Concurrent liveness checks against a list of HTTP endpoints, built around a
//! verified work-distribution and result-aggregation core: a shared work queue
//! drained under mutual exclusion by a fixed pool of workers, whose results are
//! funneled back to a single collector without loss or duplication.
//!
//! The network call itself, the worker threads and the lock live in the
//! unverified driver around this library; everything the driver decides with —
//! which target to check next, how a transport outcome becomes a result record,
//! and when a run is complete — is verified here.

pub mod checker;
pub mod coordinator;
pub mod dispatcher;
pub mod status;

pub use checker::build_result;
pub use coordinator::Coordinator;
pub use dispatcher::Dispatcher;
pub use status::CheckResult;
pub use status::CheckTarget;
pub use status::Outcome;
