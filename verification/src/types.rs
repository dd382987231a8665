//! Data model: one measured run, the per-command summary, a pairwise
//! comparison, and the error kinds that abort a benchmark.

use vstd::prelude::*;

verus! {

/// The errors that are fatal to a whole benchmark invocation.
///
/// A non-zero or signal exit status of a benchmarked command is *not* an
/// error: it is recorded in `RunResult::exit_code` and counted in
/// `CommandStats::failed_runs`.
#[derive(Debug, Clone, PartialEq, Eq)]
pub enum BenchError {
    /// Tokenizing the command string yielded no tokens.
    EmptyCommand,
    /// The command string ended while a single or double quote was open.
    UnclosedQuote,
    /// The executable could not be launched; carries the OS error text.
    SpawnFailed(String),
    /// The OS reported an error while awaiting process exit; carries its text.
    WaitFailed(String),
}

/// Result of a single measured execution of a command.
///
/// `duration_nanos` is the wall-clock time in whole nanoseconds.
/// `peak_memory_bytes == 0` means the run was too short to sample.
/// `exit_code` is `None` when the process was terminated by a signal.
#[derive(Debug, Clone, Copy, PartialEq, Eq)]
pub struct RunResult {
    pub duration_nanos: u64,
    pub peak_memory_bytes: u64,
    pub exit_code: Option<i32>,
}

impl RunResult {
    /// A run counts as failed unless it exited normally with code 0.
    pub open spec fn spec_is_failed(self) -> bool {
        self.exit_code != Some(0i32)
    }

    /// Whether this run failed: a present-but-nonzero exit code, or an
    /// absent one (signal termination).
    pub fn is_failed(&self) -> (r: bool)
        ensures
            r == self.spec_is_failed(),
    {
        match self.exit_code {
            Some(c) => c != 0,
            None => true,
        }
    }
}

/// Aggregated statistics over all measured runs of one command.
#[derive(Debug, Clone)]
pub struct CommandStats {
    /// The command string exactly as given.
    pub command: String,
    /// Display label: the trimmed command, truncated with an ellipsis.
    pub label: String,
    /// Number of measured runs.
    pub runs: usize,
    /// Arithmetic mean of the run durations, in nanoseconds.
    pub time_mean_nanos: u64,
    /// Fastest run, in nanoseconds.
    pub time_min_nanos: u64,
    /// Slowest run, in nanoseconds.
    pub time_max_nanos: u64,
    /// Bessel-corrected sample standard deviation, in nanoseconds.
    pub time_std_dev_nanos: u64,
    /// Maximum peak memory over all runs, in bytes; 0 if never sampled.
    pub peak_memory_bytes: u64,
    /// Every measured run, in execution order.
    pub all_runs: Vec<RunResult>,
    /// How many of `all_runs` failed (see `RunResult::is_failed`).
    pub failed_runs: usize,
}

/// Outcome of comparing two or more commands on one metric.
///
/// The ratio reported to a user is `max_value / min_value`; it is kept as
/// the exact pair rather than a quotient.
#[derive(Debug, Clone, Copy, PartialEq, Eq)]
pub struct Comparison {
    /// Index (into the compared list) of the winning command.
    pub winner_index: usize,
    /// The smallest metric value: the winner's.
    pub min_value: u64,
    /// The largest metric value.
    pub max_value: u64,
}

impl Comparison {
    /// The ratio `max_value / min_value`, in hundredths, rounded down.
    pub fn ratio_hundredths(&self) -> (r: u128)
        requires
            self.min_value > 0,
        ensures
            r == (self.max_value * 100) as int / self.min_value as int,
    {
        (self.max_value as u128 * 100) / (self.min_value as u128)
    }
}

} // verus!
