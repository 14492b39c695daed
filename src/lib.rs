//! Concurrent HTTP load sampling: the run-policy decisions, the collection of
//! per-request samples, and their reduction into a statistics report.

pub mod sample;
pub mod stats;
pub mod schedule;
pub mod cli;
pub mod request;
