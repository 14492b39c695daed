use vstd::prelude::*;
use crate::sample::Sample;
use crate::stats::{Metrics, StatsError, statistics, is_report_of};

verus! {

/// How many requests a run issues, how many run at once, and what bounds it.
#[derive(Debug, Clone, Copy, PartialEq, Eq)]
pub struct RunPolicy {
    /// Invocations per worker when the run is bounded by count.
    pub repeat: usize,
    /// Wall-clock budget in seconds; when present it bounds the run and
    /// `repeat` is ignored.
    pub time_budget_secs: Option<u64>,
    /// Number of concurrent workers; `0` gives every unit of work a task of
    /// its own.
    pub concurrency: usize,
    /// Delay in milliseconds that a worker waits after each sample.
    pub wait_ms: u64,
}

/// The shape of the concurrent work of a run.
#[derive(Debug, Clone, Copy, PartialEq, Eq)]
pub enum Topology {
    /// Long-lived workers, each looping on its own until its stopping rule
    /// holds; the run waits for all of them.
    Pool { workers: usize },
    /// One one-shot task per unit of work; the run waits for all of them.
    OneShot { tasks: usize },
    /// A driving task that spawns one-shot tasks while the budget lasts, then
    /// cancels those still running.
    Spawner,
}

/// A budget of `secs` seconds, in nanoseconds.
pub open spec fn budget_nanos(secs: u64) -> int {
    secs as int * 1_000_000_000
}

impl RunPolicy {
    /// Whether the number of samples of a count-bounded run fits a `usize`.
    pub open spec fn total_fits(self) -> bool {
        self.concurrency as int * self.repeat as int <= usize::MAX as int
    }

    /// How many samples a count-bounded run produces.
    pub open spec fn expected_total(self) -> int {
        if self.concurrency == 0 {
            self.repeat as int
        } else {
            self.concurrency as int * self.repeat as int
        }
    }

    /// Whether a run that has been going for `elapsed_nanos` is still within
    /// its budget; a run bounded by count has no budget.
    pub open spec fn within_budget_spec(self, elapsed_nanos: int) -> bool {
        match self.time_budget_secs {
            Some(b) => elapsed_nanos < budget_nanos(b),
            None => true,
        }
    }

    pub fn new(repeat: usize, time_budget_secs: Option<u64>, concurrency: usize, wait_ms: u64) -> (r:
        RunPolicy)
        ensures
            r == (RunPolicy { repeat, time_budget_secs, concurrency, wait_ms }),
    {
        RunPolicy { repeat, time_budget_secs, concurrency, wait_ms }
    }

    /// Whether the run is bounded by its time budget rather than by count.
    pub fn is_time_bounded(&self) -> (r: bool)
        ensures
            r == (self.time_budget_secs is Some),
    {
        self.time_budget_secs.is_some()
    }

    /// Which tasks the run spawns.
    pub fn topology(&self) -> (r: Topology)
        ensures
            self.concurrency > 0 ==> r == (Topology::Pool { workers: self.concurrency }),
            self.concurrency == 0 && self.time_budget_secs is None ==> r == (Topology::OneShot {
                tasks: self.repeat,
            }),
            self.concurrency == 0 && self.time_budget_secs is Some ==> r == Topology::Spawner,
    {
        if self.concurrency > 0 {
            Topology::Pool { workers: self.concurrency }
        } else if self.time_budget_secs.is_none() {
            Topology::OneShot { tasks: self.repeat }
        } else {
            Topology::Spawner
        }
    }

    /// How many samples the collector waits for: known for a run bounded by
    /// count, unknown (`None`) for one bounded by time.
    pub fn expected_samples(&self) -> (r: Option<usize>)
        requires
            self.total_fits(),
        ensures
            self.time_budget_secs is Some ==> r is None,
            self.time_budget_secs is None ==> r == Some(self.expected_total() as usize),
    {
        if self.time_budget_secs.is_some() {
            None
        } else if self.concurrency == 0 {
            Some(self.repeat)
        } else {
            Some(self.concurrency * self.repeat)
        }
    }

    /// Whether a run that has been going for `elapsed_nanos` is still within
    /// its budget. A spawner keeps spawning while this holds.
    pub fn within_budget(&self, elapsed_nanos: u128) -> (r: bool)
        ensures
            r == self.within_budget_spec(elapsed_nanos as int),
    {
        match self.time_budget_secs {
            Some(b) => elapsed_nanos < (b as u128) * 1_000_000_000,
            None => true,
        }
    }

    /// Whether a long-lived worker that has performed `done` invocations, at
    /// `elapsed_nanos` into the run, performs another: by count, while fewer
    /// than `repeat` are done; by time, while the budget lasts. The check is
    /// made between invocations only: one in flight is never interrupted.
    pub fn worker_continues(&self, done: usize, elapsed_nanos: u128) -> (r: bool)
        ensures
            self.time_budget_secs is None ==> r == (done < self.repeat),
            self.time_budget_secs is Some ==> r == self.within_budget_spec(elapsed_nanos as int),
    {
        match self.time_budget_secs {
            Some(_) => self.within_budget(elapsed_nanos),
            None => done < self.repeat,
        }
    }
}

/// Gathers the samples of a run, in the order they arrive, under the same
/// stopping rule as the workers.
#[derive(Debug, Clone)]
pub struct Collector {
    pub policy: RunPolicy,
    pub samples: Vec<Sample>,
}

impl Collector {
    pub fn new(policy: RunPolicy) -> (r: Collector)
        ensures
            r.policy == policy,
            r.samples@.len() == 0,
    {
        Collector { policy, samples: Vec::new() }
    }

    /// Whether to wait for another sample: by count, until the expected
    /// number has arrived; by time, while the budget lasts.
    pub fn should_receive(&self, elapsed_nanos: u128) -> (r: bool)
        requires
            self.policy.total_fits(),
        ensures
            self.policy.time_budget_secs is None ==> r == (self.samples@.len()
                < self.policy.expected_total()),
            self.policy.time_budget_secs is Some ==> r == self.policy.within_budget_spec(
                elapsed_nanos as int,
            ),
    {
        match self.policy.expected_samples() {
            Some(total) => self.samples.len() < total,
            None => self.policy.within_budget(elapsed_nanos),
        }
    }

    /// Records one sample, unchanged, after those already received.
    pub fn accept(&mut self, sample: Sample)
        ensures
            final(self).policy == old(self).policy,
            final(self).samples@ == old(self).samples@.push(sample),
    {
        self.samples.push(sample);
    }

    /// How many samples have arrived.
    pub fn received(&self) -> (r: usize)
        ensures
            r == self.samples@.len(),
    {
        self.samples.len()
    }

    /// The report of the samples received; an error when none arrived.
    pub fn report(&self) -> (r: Result<Metrics, StatsError>)
        ensures
            self.samples@.len() == 0 <==> r == Err::<Metrics, StatsError>(StatsError::NoSamples),
            r is Ok ==> is_report_of(r->Ok_0, self.samples@),
    {
        statistics(self.samples.as_slice())
    }
}

} // verus!
