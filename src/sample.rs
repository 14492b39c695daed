use vstd::prelude::*;

verus! {

/// The outcome of one request: how long it took, how it was classified, and
/// whether the invocation itself failed.
#[derive(Debug, Clone)]
pub struct Sample {
    /// Whole seconds of the measured latency.
    pub time_secs: u64,
    /// Sub-second part of the measured latency, in nanoseconds.
    pub time_subsec_nanos: u32,
    /// Status tag: a status code rendered as text, or a sentinel such as
    /// `"client error"`.
    pub status_code: String,
    /// `0` on success, non-zero when the invocation failed.
    pub exit_status: i32,
    /// Diagnostic text of a failed invocation.
    pub error: String,
}

/// The millisecond part below one second of a sample's latency: the only part
/// of a latency that the statistics read.
pub open spec fn subsec_millis(s: Sample) -> u32 {
    (s.time_subsec_nanos % 1_000_000_000) / 1_000_000
}

impl Sample {
    pub fn new(
        time_secs: u64,
        time_subsec_nanos: u32,
        status_code: String,
        exit_status: i32,
        error: String,
    ) -> (r: Sample)
        ensures
            r.time_secs == time_secs,
            r.time_subsec_nanos == time_subsec_nanos,
            r.status_code@ == status_code@,
            r.exit_status == exit_status,
            r.error@ == error@,
    {
        Sample { time_secs, time_subsec_nanos, status_code, exit_status, error }
    }

    /// Milliseconds below one second of the latency; always under 1000.
    pub fn subsec_millis(&self) -> (r: u32)
        ensures
            r == subsec_millis(*self),
            r < 1000,
    {
        (self.time_subsec_nanos % 1_000_000_000) / 1_000_000
    }

    /// Whether the invocation failed.
    pub fn is_error(&self) -> (r: bool)
        ensures
            r == (self.exit_status != 0),
    {
        self.exit_status != 0
    }
}

} // verus!
