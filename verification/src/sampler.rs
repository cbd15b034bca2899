//! The decision rules of the sampling loop. The loop itself — sleeping a
//! fixed interval, receiving control messages, sending snapshots — lives
//! with the caller; the library decides what a control message does to the
//! engine, so that the decision is the same on every pass.

use vstd::prelude::*;

use crate::proc::prev_cpu::PrevCpu;
use crate::proc::Proc;

verus! {

/// The sampling loop's mode: whether passes enumerate every thread of
/// every process, or one identity per process.
#[derive(Debug, Clone, Copy, PartialEq, Eq, Structural)]
pub struct SamplerMode {
    pub threads: bool,
}

impl SamplerMode {
    /// The starting mode.
    pub fn new(threads: bool) -> (r: SamplerMode)
        ensures
            r.threads == threads,
    {
        SamplerMode { threads }
    }

    /// Applies one control message. A request that changes the mode clears
    /// every retained per-identity baseline: the process-level and
    /// thread-level identity populations are disjoint, so a baseline taken
    /// under one granularity means nothing under the other. A request for
    /// the mode already in force changes nothing at all.
    pub fn apply_control(&mut self, proc: &mut Proc, requested: bool)
        ensures
            final(self).threads == requested,
            final(proc).spec_ticks() == old(proc).spec_ticks(),
            final(proc).spec_page_size() == old(proc).spec_page_size(),
            final(proc).prev_times() == old(proc).prev_times(),
            requested != old(self).threads ==> final(proc).prev() == Map::<
                i32,
                PrevCpu,
            >::empty(),
            requested == old(self).threads ==> final(proc).prev() == old(proc).prev(),
    {
        if self.threads != requested {
            self.threads = requested;
            proc.reset_prev_cpus();
        }
    }
}

} // verus!
