//! BenchmarkRunner bookkeeping: for one command, the warmup runs come
//! first and are discarded, then the measured runs are collected in
//! execution order.
//!
//! Launching and waiting on the child process is the caller's loop; this
//! type decides whether the next run is a warmup, records each outcome, and
//! says when the benchmark of the command is complete.

use vstd::prelude::*;
use crate::types::RunResult;

verus! {

/// Progress of benchmarking one command: `warmup_target` discarded runs
/// followed by `runs_target` measured ones.
pub struct BenchmarkRun {
    runs_target: usize,
    warmup_target: usize,
    warmups_done: usize,
    measured: Vec<RunResult>,
}

impl BenchmarkRun {
    /// How many measured runs were requested.
    pub closed spec fn spec_runs_target(&self) -> nat {
        self.runs_target as nat
    }

    /// How many warmup runs were requested.
    pub closed spec fn spec_warmup_target(&self) -> nat {
        self.warmup_target as nat
    }

    /// How many warmup runs have completed.
    pub closed spec fn spec_warmups_done(&self) -> nat {
        self.warmups_done as nat
    }

    /// The measured results so far, in execution order.
    pub closed spec fn results(&self) -> Seq<RunResult> {
        self.measured@
    }

    /// Internal consistency: warmups never exceed their target, no more
    /// results are kept than requested, and nothing is measured before the
    /// warmups are done.
    pub closed spec fn wf(&self) -> bool {
        &&& self.runs_target >= 1
        &&& self.warmups_done <= self.warmup_target
        &&& self.measured@.len() <= self.runs_target
        &&& (self.warmups_done < self.warmup_target ==> self.measured@.len() == 0)
    }

    /// All warmup and measured runs have completed.
    pub open spec fn spec_is_complete(&self) -> bool {
        self.spec_warmups_done() == self.spec_warmup_target() && self.results().len()
            == self.spec_runs_target()
    }

    /// Start benchmarking one command: at least one measured run, any
    /// number of warmups.
    pub fn new(runs: usize, warmup: usize) -> (r: BenchmarkRun)
        requires
            runs >= 1,
        ensures
            r.wf(),
            r.spec_runs_target() == runs,
            r.spec_warmup_target() == warmup,
            r.spec_warmups_done() == 0,
            r.results() == Seq::<RunResult>::empty(),
    {
        BenchmarkRun { runs_target: runs, warmup_target: warmup, warmups_done: 0, measured: Vec::new() }
    }

    /// Whether the next run to execute is a warmup, whose result will be
    /// discarded.
    pub fn next_is_warmup(&self) -> (r: bool)
        ensures
            r == (self.spec_warmups_done() < self.spec_warmup_target()),
    {
        self.warmups_done < self.warmup_target
    }

    /// Whether every warmup and measured run has completed.
    pub fn is_complete(&self) -> (r: bool)
        ensures
            r == self.spec_is_complete(),
    {
        self.warmups_done == self.warmup_target && self.measured.len() == self.runs_target
    }

    /// Record the outcome of one run: a warmup is counted and its result
    /// discarded; a measured run is appended in execution order.
    pub fn record(&mut self, outcome: RunResult)
        requires
            old(self).wf(),
            !old(self).spec_is_complete(),
        ensures
            final(self).wf(),
            final(self).spec_runs_target() == old(self).spec_runs_target(),
            final(self).spec_warmup_target() == old(self).spec_warmup_target(),
            old(self).spec_warmups_done() < old(self).spec_warmup_target() ==> {
                &&& final(self).spec_warmups_done() == old(self).spec_warmups_done() + 1
                &&& final(self).results() == old(self).results()
            },
            old(self).spec_warmups_done() == old(self).spec_warmup_target() ==> {
                &&& final(self).spec_warmups_done() == old(self).spec_warmups_done()
                &&& final(self).results() == old(self).results().push(outcome)
            },
    {
        if self.warmups_done < self.warmup_target {
            self.warmups_done += 1;
        } else {
            self.measured.push(outcome);
        }
    }

    /// Hand out the measured results, in execution order.
    pub fn into_results(self) -> (r: Vec<RunResult>)
        ensures
            r@ == self.results(),
            self.spec_is_complete() ==> r@.len() == self.spec_runs_target(),
    {
        self.measured
    }
}

} // verus!
