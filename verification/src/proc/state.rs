//! Scheduler state of a process, as the single-letter code in the kernel's
//! per-process stat line reports it.

use vstd::prelude::*;
use vstd::string::StringSliceAdditionalSpecFns;

verus! {

/// A process's scheduler state. A code the kernel may add in the future is
/// kept verbatim under `Unknown`.
#[derive(Debug, Clone)]
pub enum State {
    Unknown(Vec<u8>),
    Running,
    Sleeping,
    Waiting,
    Zombie,
    Stopped,
    Tracing,
    Dead,
    Idle,
}

impl Default for State {
    fn default() -> (r: Self)
        ensures
            r is Unknown && r->Unknown_0@ == Seq::<u8>::empty(),
    {
        State::Unknown(Vec::new())
    }
}

/// The state a known single-letter code denotes, if it is one of the
/// documented codes.
pub open spec fn spec_known_state(s: Seq<u8>) -> Option<State> {
    if s == "R".spec_bytes() {
        Some(State::Running)
    } else if s == "S".spec_bytes() {
        Some(State::Sleeping)
    } else if s == "D".spec_bytes() {
        Some(State::Waiting)
    } else if s == "Z".spec_bytes() {
        Some(State::Zombie)
    } else if s == "T".spec_bytes() {
        Some(State::Stopped)
    } else if s == "t".spec_bytes() {
        Some(State::Tracing)
    } else if s == "X".spec_bytes() {
        Some(State::Dead)
    } else if s == "I".spec_bytes() {
        Some(State::Idle)
    } else {
        None
    }
}

impl State {
    /// Reads a state code; an undocumented code is kept as `Unknown`.
    pub fn from_bytes(v: &[u8]) -> (r: State)
        ensures
            match spec_known_state(v@) {
                Some(st) => r == st,
                None => r is Unknown && r->Unknown_0@ == v@,
            },
    {
        if crate::parse::eq_bytes(v, "R".as_bytes()) {
            State::Running
        } else if crate::parse::eq_bytes(v, "S".as_bytes()) {
            State::Sleeping
        } else if crate::parse::eq_bytes(v, "D".as_bytes()) {
            State::Waiting
        } else if crate::parse::eq_bytes(v, "Z".as_bytes()) {
            State::Zombie
        } else if crate::parse::eq_bytes(v, "T".as_bytes()) {
            State::Stopped
        } else if crate::parse::eq_bytes(v, "t".as_bytes()) {
            State::Tracing
        } else if crate::parse::eq_bytes(v, "X".as_bytes()) {
            State::Dead
        } else if crate::parse::eq_bytes(v, "I".as_bytes()) {
            State::Idle
        } else {
            State::Unknown(vstd::slice::slice_to_vec(v))
        }
    }
}

} // verus!
