//! Whole sampling passes: snapshot assembly, classification counts,
//! first-pass aggregate absence, and eviction across passes.

use fell::proc::process_info::ProcessType;
use fell::proc::{Error, Proc, RawProcess, ThreadCount};

fn raw(tid: i32, parent: i32, cpu_used: u64, nthreads: u64, cmdline: &[u8]) -> RawProcess {
    let stat = format!(
        "{} (proc{}) S 1 {} {} 0 -1 0 0 0 0 0 {} 0 0 0 20 0 {} 0 0 4096 2",
        tid, tid, parent, parent, cpu_used, nthreads
    );
    RawProcess {
        tid,
        parent,
        uid: Some(1000),
        stat: stat.into_bytes(),
        cmdline: cmdline.to_vec(),
    }
}

const UPTIME_1: &[u8] = b"10.00 20.00\n";
const UPTIME_2: &[u8] = b"12.00 24.00\n";
const LOADAVG: &[u8] = b"0.50 0.40 0.30 2/123 4567\n";
const STAT_1: &[u8] = b"cpu  1000 0 0 9000 0 0 0 0 0 0\ncpu0 1000 0 0 9000 0 0 0 0 0 0\n";
const STAT_2: &[u8] = b"cpu  1100 0 0 9300 0 0 0 0 0 0\ncpu0 1100 0 0 9300 0 0 0 0 0 0\n";
const MEMINFO: &[u8] =
    b"MemTotal: 1000 kB\nMemFree: 400 kB\nSwapTotal: 100 kB\nSwapFree: 100 kB\n";

#[test]
fn first_pass_has_no_percentages() {
    let mut proc = Proc::with_params(100, 4096);
    let procs = vec![raw(100, 100, 500, 1, b"/bin/app\0")];
    let sys = proc.get_system(&procs, UPTIME_1, LOADAVG, STAT_1, MEMINFO).unwrap();
    assert_eq!(sys.processes.len(), 1);
    assert_eq!(sys.processes[0].cpu_usage, None);
    assert_eq!(sys.cpu_usage, None);
    assert_eq!(sys.uptime, 1000);
    assert_eq!(sys.load_avg.one, 50);
    assert_eq!(sys.mem_usage.mem_total, 1000 * 1024);
}

#[test]
fn second_pass_reports_percentages() {
    let mut proc = Proc::with_params(100, 4096);
    let first = vec![raw(100, 100, 500, 1, b"/bin/app\0")];
    proc.get_system(&first, UPTIME_1, LOADAVG, STAT_1, MEMINFO).unwrap();
    // two seconds later the process has burnt 200 more ticks: 100%
    let second = vec![raw(100, 100, 700, 1, b"/bin/app\0")];
    let sys = proc.get_system(&second, UPTIME_2, LOADAVG, STAT_2, MEMINFO).unwrap();
    assert_eq!(sys.processes[0].cpu_usage, Some(10000));
    // aggregate: 100 used of 400 elapsed = 25%, on both CPU lines
    let cpus = sys.cpu_usage.unwrap();
    assert_eq!(cpus.len(), 2);
    assert_eq!(cpus[0], Some(2500));
    assert_eq!(cpus[1], Some(2500));
}

#[test]
fn record_fields_come_from_the_raw_material() {
    let mut proc = Proc::with_params(100, 4096);
    let procs = vec![raw(42, 42, 10, 3, b"/bin/app\0--flag\0")];
    let sys = proc.get_system(&procs, UPTIME_1, LOADAVG, STAT_1, MEMINFO).unwrap();
    let p = &sys.processes[0];
    assert_eq!(p.pid, 42);
    assert_eq!(p.uid, Some(1000));
    assert_eq!(p.name, b"proc42".to_vec());
    assert_eq!(p.cmdline, b"/bin/app --flag".to_vec());
    assert!(matches!(p.process_type, ProcessType::Task));
    assert_eq!(p.num_threads, 3);
    // 2 resident pages of 4096 bytes; virtual size is taken as bytes
    assert_eq!(p.memory, 2 * 4096);
    assert_eq!(p.virtual_memory, 4096);
}

#[test]
fn classification_and_counts_cover_every_identity() {
    let mut proc = Proc::with_params(100, 4096);
    let procs = vec![
        raw(1, 1, 10, 2, b"/sbin/init\0"),   // task with one extra thread
        raw(2, 2, 10, 1, b""),               // kernel thread: empty command line
        raw(3, 1, 10, 1, b"/sbin/init\0"),   // thread of pid 1
        raw(4, 4, 10, 1, b"/bin/sh\0"),      // task
    ];
    let sys = proc.get_system(&procs, UPTIME_1, LOADAVG, STAT_1, MEMINFO).unwrap();
    assert!(matches!(sys.processes[0].process_type, ProcessType::Task));
    assert!(matches!(sys.processes[1].process_type, ProcessType::KernelThread));
    assert!(matches!(sys.processes[2].process_type, ProcessType::Thread));
    assert!(matches!(sys.processes[3].process_type, ProcessType::Task));
    // snapshot completeness: every surviving record is in the list, and
    // tasks + kernel threads account for each top-level identity once
    assert_eq!(sys.processes.len(), 4);
    let tc: ThreadCount = sys.num_threads;
    assert_eq!(tc.tasks, 2);
    assert_eq!(tc.kernel_threads, 1);
    assert_eq!(tc.tasks + tc.kernel_threads, 3);
    assert_eq!(tc.threads, 1);
}

#[test]
fn unreadable_stat_line_skips_only_that_process() {
    let mut proc = Proc::with_params(100, 4096);
    let mut bad = raw(9, 9, 10, 1, b"x\0");
    bad.stat = b"garbage without comm".to_vec();
    let procs = vec![raw(1, 1, 10, 1, b"a\0"), bad, raw(2, 2, 10, 1, b"b\0")];
    let sys = proc.get_system(&procs, UPTIME_1, LOADAVG, STAT_1, MEMINFO).unwrap();
    assert_eq!(sys.processes.len(), 2);
    assert_eq!(sys.processes[0].pid, 1);
    assert_eq!(sys.processes[1].pid, 2);
    assert_eq!(sys.num_threads.tasks, 2);
}

#[test]
fn empty_enumeration_yields_an_empty_snapshot() {
    let mut proc = Proc::with_params(100, 4096);
    let sys = proc.get_system(&vec![], UPTIME_1, LOADAVG, STAT_1, MEMINFO).unwrap();
    assert_eq!(sys.processes.len(), 0);
    assert_eq!(sys.num_threads.tasks, 0);
    assert_eq!(sys.num_threads.threads, 0);
    assert_eq!(sys.num_threads.kernel_threads, 0);
}

#[test]
fn identity_gone_for_one_pass_restarts_from_scratch() {
    let mut proc = Proc::with_params(100, 4096);
    let with_pid = vec![raw(100, 100, 500, 1, b"a\0")];
    proc.get_system(&with_pid, UPTIME_1, LOADAVG, STAT_1, MEMINFO).unwrap();
    // a pass without pid 100 evicts its baseline
    proc.get_system(&vec![], b"11.00 1.00\n", LOADAVG, STAT_1, MEMINFO).unwrap();
    // back again: first observation, despite elapsed time and grown ticks
    let back = vec![raw(100, 100, 700, 1, b"a\0")];
    let sys = proc.get_system(&back, UPTIME_2, LOADAVG, STAT_2, MEMINFO).unwrap();
    assert_eq!(sys.processes[0].cpu_usage, None);
}

#[test]
fn unreadable_uptime_fails_the_pass() {
    let mut proc = Proc::with_params(100, 4096);
    let r = proc.get_system(&vec![], b"garbage", LOADAVG, STAT_1, MEMINFO);
    assert!(matches!(r, Err(Error::Uptime(_))));
}

#[test]
fn unreadable_loadavg_fails_the_pass() {
    let mut proc = Proc::with_params(100, 4096);
    let r = proc.get_system(&vec![], UPTIME_1, b"x y z", STAT_1, MEMINFO);
    assert!(matches!(r, Err(Error::LoadAvg(_))));
}

#[test]
fn unreadable_cpu_line_fails_the_pass() {
    let mut proc = Proc::with_params(100, 4096);
    let r = proc.get_system(&vec![], UPTIME_1, LOADAVG, b"cpu bad line\n", MEMINFO);
    assert!(matches!(r, Err(Error::CpuTime(_))));
}

#[test]
fn unreadable_meminfo_fails_the_pass() {
    let mut proc = Proc::with_params(100, 4096);
    let r = proc.get_system(&vec![], UPTIME_1, LOADAVG, STAT_1, b"MemTotal: x kB\n");
    assert!(matches!(r, Err(Error::MemInfo(_))));
}

#[test]
fn engine_with_machine_parameters_samples() {
    // the tick rate and page size come from the running machine here; the
    // synthetic pass must still assemble, with no percentage promised
    let mut proc = Proc::new();
    let procs = vec![raw(5, 5, 100, 1, b"a\0")];
    let sys = proc.get_system(&procs, UPTIME_1, LOADAVG, STAT_1, MEMINFO).unwrap();
    assert_eq!(sys.processes.len(), 1);
    assert_eq!(sys.processes[0].cpu_usage, None);
}
