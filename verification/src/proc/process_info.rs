//! One process's record in a snapshot, and the classification of an
//! identity as a task, a thread, or a kernel-owned thread.

use vstd::prelude::*;

use crate::parse::{spec_trim, trim_bytes};
use crate::proc::state::State;

verus! {

/// A fully assembled per-process record of one sampling pass. `memory` and
/// `virtual_memory` are in bytes; `cpu_usage` is in hundredths of a percent
/// and absent when the pass had no baseline to compare against.
#[derive(Debug, Clone)]
pub struct ProcessInfo {
    pub pid: i32,
    pub uid: Option<u32>,
    pub name: Vec<u8>,
    pub state: State,
    pub memory: usize,
    pub virtual_memory: usize,
    pub cpu_usage: Option<u64>,
    pub cmdline: Vec<u8>,
    pub process_type: ProcessType,
    pub num_threads: u32,
}

/// What kind of identity a record describes: an ordinary process, one
/// thread of a process, or a kernel-owned thread.
#[derive(Debug, Clone, Copy, Default, PartialEq, Eq, Structural)]
pub enum ProcessType {
    #[default]
    Task,
    Thread,
    KernelThread,
}

/// The single source of truth for classification: an identity with no
/// command line at all belongs to the kernel; otherwise an identity that
/// is its own parent is a task, and any other is a thread.
pub open spec fn spec_classify(tid: i32, parent: i32, cmdline_empty: bool) -> ProcessType {
    if cmdline_empty {
        ProcessType::KernelThread
    } else if tid == parent {
        ProcessType::Task
    } else {
        ProcessType::Thread
    }
}

/// Classifies one identity, as `spec_classify` says.
pub fn classify(tid: i32, parent: i32, cmdline_empty: bool) -> (r: ProcessType)
    ensures
        r == spec_classify(tid, parent, cmdline_empty),
{
    if cmdline_empty {
        ProcessType::KernelThread
    } else if tid == parent {
        ProcessType::Task
    } else {
        ProcessType::Thread
    }
}

/// The command line with its NUL separators turned into spaces.
pub open spec fn spec_replace_nul(s: Seq<u8>) -> Seq<u8> {
    s.map_values(
        |b: u8|
            if b == 0 {
                32u8
            } else {
                b
            },
    )
}

/// A command line as displayed: NUL argument separators become spaces and
/// surrounding whitespace goes. An empty result marks a kernel thread.
pub open spec fn spec_clean_cmdline(s: Seq<u8>) -> Seq<u8> {
    spec_trim(spec_replace_nul(s))
}

/// Cleans a raw command line, as `spec_clean_cmdline` says.
pub fn clean_cmdline(raw: &[u8]) -> (r: Vec<u8>)
    ensures
        r@ == spec_clean_cmdline(raw@),
{
    let mut replaced: Vec<u8> = Vec::new();
    let mut i: usize = 0;
    while i < raw.len()
        invariant
            0 <= i <= raw@.len(),
            replaced@ =~= spec_replace_nul(raw@.take(i as int)),
        decreases raw@.len() - i,
    {
        let b = raw[i];
        let c: u8 = if b == 0 {
            32
        } else {
            b
        };
        replaced.push(c);
        proof {
            assert(replaced@ =~= spec_replace_nul(raw@.take(i + 1)));
        }
        i = i + 1;
    }
    proof {
        assert(raw@.take(raw@.len() as int) =~= raw@);
    }
    let trimmed = trim_bytes(replaced.as_slice());
    vstd::slice::slice_to_vec(trimmed)
}

} // verus!
