//! MemorySampler: the running maximum of a child process's sampled
//! resident memory over one run.
//!
//! The caller's sampling loop, on its own thread, calls `sample_step` on a
//! fixed interval while `should_continue` holds; once the orchestrating run
//! observes process exit it calls `request_stop`, and the loop takes exactly
//! one final sample through `finish`, to catch a late peak. A process that
//! exits before the first sample legitimately leaves the peak at 0: that is
//! an accepted measurement gap, not an error.
//!
//! The one guarantee the rest of the library needs is that the recorded
//! peak is monotonically non-decreasing: every method's contract says so.

use vstd::prelude::*;

verus! {

/// sysinfo's snapshot of the OS process table, opaque here: what a sample
/// returns depends on the machine, so only monotonicity of the recorded
/// peak is claimed.
#[verifier::external_type_specification]
#[verifier::external_body]
pub struct ExSystem(sysinfo::System);

/// Relies on `sysinfo::System::refresh_processes_specifics`: refreshes the
/// recorded memory usage of the single given process, removing it from the
/// table if it is dead. Nothing is claimed of the outcome: the process may
/// have exited at any point.
#[verifier::external_body]
fn refresh_process(sys: &mut sysinfo::System, pid: u32) {
    sys.refresh_processes_specifics(
        sysinfo::ProcessesToUpdate::Some(&[sysinfo::Pid::from_u32(pid)]),
        true,
        sysinfo::ProcessRefreshKind::nothing().with_memory(),
    );
}

/// Relies on `sysinfo::System::process` and `sysinfo::Process::memory`: the
/// resident memory, in bytes, recorded at the last refresh, or `None` if
/// the process is not in the table. The value depends on the machine, so
/// nothing is claimed of it.
#[verifier::external_body]
fn process_memory(sys: &sysinfo::System, pid: u32) -> (r: Option<u64>) {
    match sys.process(sysinfo::Pid::from_u32(pid)) {
        Some(p) => Some(p.memory()),
        None => None,
    }
}

/// Per-run shared state of the memory sampling task: the running maximum
/// and the liveness flag, plus whether the final sample was taken.
pub struct MemorySampler {
    peak: u64,
    stop_requested: bool,
    finished: bool,
}

impl MemorySampler {
    /// The largest resident memory observed so far, in bytes.
    pub closed spec fn spec_peak(&self) -> u64 {
        self.peak
    }

    /// Whether the orchestrating run has cleared the liveness flag.
    pub closed spec fn spec_stopped(&self) -> bool {
        self.stop_requested
    }

    /// Whether the final sample after the stop request was taken.
    pub closed spec fn spec_finished(&self) -> bool {
        self.finished
    }

    /// Fresh state for one run: nothing observed yet.
    pub fn new() -> (r: MemorySampler)
        ensures
            r.spec_peak() == 0,
            !r.spec_stopped(),
            !r.spec_finished(),
    {
        MemorySampler { peak: 0, stop_requested: false, finished: false }
    }

    /// Raise the running maximum to the sampled value, if larger.
    pub fn observe(&mut self, sampled: u64)
        requires
            !old(self).spec_finished(),
        ensures
            final(self).spec_peak() == if sampled > old(self).spec_peak() {
                sampled
            } else {
                old(self).spec_peak()
            },
            final(self).spec_peak() >= old(self).spec_peak(),
            final(self).spec_stopped() == old(self).spec_stopped(),
            final(self).spec_finished() == old(self).spec_finished(),
    {
        if sampled > self.peak {
            self.peak = sampled;
        }
    }

    /// One periodic sample: query the OS for the process's resident memory
    /// and raise the running maximum. Whatever the OS reports — the process
    /// may already be gone — the peak never decreases.
    pub fn sample_step(&mut self, sys: &mut sysinfo::System, pid: u32)
        requires
            !old(self).spec_finished(),
        ensures
            final(self).spec_peak() >= old(self).spec_peak(),
            final(self).spec_stopped() == old(self).spec_stopped(),
            final(self).spec_finished() == old(self).spec_finished(),
    {
        refresh_process(sys, pid);
        if let Some(sampled) = process_memory(sys, pid) {
            self.observe(sampled);
        }
    }

    /// Clear the liveness flag: the orchestrating run observed process
    /// exit. The sampling loop will take exactly one more sample.
    pub fn request_stop(&mut self)
        ensures
            final(self).spec_stopped(),
            final(self).spec_peak() == old(self).spec_peak(),
            final(self).spec_finished() == old(self).spec_finished(),
    {
        self.stop_requested = true;
    }

    /// Whether the sampling loop should keep taking periodic samples.
    pub fn should_continue(&self) -> (r: bool)
        ensures
            r == !self.spec_stopped(),
    {
        !self.stop_requested
    }

    /// The one final sample-and-raise after the liveness flag cleared, to
    /// reduce the chance of missing a late memory peak.
    pub fn finish(&mut self, sys: &mut sysinfo::System, pid: u32)
        requires
            old(self).spec_stopped(),
            !old(self).spec_finished(),
        ensures
            final(self).spec_finished(),
            final(self).spec_stopped(),
            final(self).spec_peak() >= old(self).spec_peak(),
    {
        refresh_process(sys, pid);
        if let Some(sampled) = process_memory(sys, pid) {
            self.observe(sampled);
        }
        self.finished = true;
    }

    /// The peak observed over the run, in bytes; 0 if never sampled.
    pub fn peak_bytes(&self) -> (r: u64)
        ensures
            r == self.spec_peak(),
    {
        self.peak
    }
}

} // verus!
