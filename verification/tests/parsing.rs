//! The textual counter formats: CPU time lines, per-process stat lines,
//! memory and load listings, and the uptime line.

use fell::proc::cputime::{parse_cpu_times, CpuTime};
use fell::proc::loadavg::LoadAvg;
use fell::proc::meminfo::MemInfo;
use fell::proc::read_uptime;
use fell::proc::stat::Stat;
use fell::proc::state::State;
use fell::proc::Error;

#[test]
fn test_cputime_fromstr() {
    let line = "288589 431 105679 37547659 1653040 34363 16790 0 0 0";

    let parsed = CpuTime::from_str(line.as_bytes());

    println!("{:?}", parsed);
}

#[test]
fn cputime_fromstr_values() {
    let line = "288589 431 105679 37547659 1653040 34363 16790 0 0 0";
    let ct = CpuTime::from_str(line.as_bytes()).unwrap();
    assert_eq!(ct.user, 288589);
    assert_eq!(ct.nice, 431);
    assert_eq!(ct.system, 105679);
    assert_eq!(ct.idle, 37547659);
    assert_eq!(ct.iowait, 1653040);
    assert_eq!(ct.irq, 34363);
    assert_eq!(ct.softirq, 16790);
    assert_eq!(ct.steal, 0);
    assert_eq!(ct.guest, 0);
    assert_eq!(ct.guest_nice, 0);
}

#[test]
fn cputime_fromstr_short_line_defaults_to_zero() {
    let ct = CpuTime::from_str(b"7 9").unwrap();
    assert_eq!(ct.user, 7);
    assert_eq!(ct.nice, 9);
    assert_eq!(ct.system, 0);
    assert_eq!(ct.guest_nice, 0);
}

#[test]
fn cputime_fromstr_rejects_non_number() {
    let r = CpuTime::from_str(b"288589 x 105679");
    assert!(matches!(r, Err(Error::CpuTime(_))));
}

#[test]
fn cputime_work_and_total() {
    let ct = CpuTime::from_str(b"100 5 30 800 60 3 2 1 0 0").unwrap();
    // work = user + system + nice + irq + softirq
    assert_eq!(ct.work(), 100 + 30 + 5 + 3 + 2);
    // total = work + idle + iowait + steal + guest + guest_nice
    assert_eq!(ct.total(), 140 + 800 + 60 + 1);
}

#[test]
fn parse_cpu_times_reads_every_cpu_line() {
    let text = b"cpu  1000 0 20 9000 0 0 0 0 0 0\n\
cpu0 500 0 10 4500 0 0 0 0 0 0\n\
cpu1 500 0 10 4500 0 0 0 0 0 0\n\
intr 12345 0 0\n\
ctxt 999\n";
    let times = parse_cpu_times(text).unwrap();
    assert_eq!(times.len(), 3);
    assert_eq!(times[0].user, 1000);
    assert_eq!(times[1].user, 500);
    assert_eq!(times[2].idle, 4500);
}

#[test]
fn parse_cpu_times_rejects_cpu_line_without_fields() {
    let r = parse_cpu_times(b"cpu\nintr 1\n");
    assert!(matches!(r, Err(Error::CpuTime(_))));
}

#[test]
fn stat_fromstr_reads_the_named_fields() {
    let line = b"42 (myproc) S 1 42 42 0 -1 4194560 100 200 300 400 111 222 0 0 20 0 3 0 50 12345 678 99";
    let st = Stat::from_str(line).unwrap();
    assert_eq!(st.name, b"myproc".to_vec());
    assert!(matches!(st.state, State::Sleeping));
    assert_eq!(st.cpu_used, 111 + 222);
    assert_eq!(st.num_threads, 3);
    assert_eq!(st.memory_virtual, 12345);
    assert_eq!(st.memory_res, 678);
}

#[test]
fn stat_fromstr_keeps_spaces_inside_comm() {
    let line = b"7 (Web Content (x)) R 1 7 7 0 -1 0 0 0 0 0 5 5 0 0 20 0 1 0 0 0 0";
    let st = Stat::from_str(line).unwrap();
    // the name ends at the first `) ` after the opening parenthesis
    assert_eq!(st.name, b"Web Content (x)".to_vec());
    assert!(matches!(st.state, State::Running));
}

#[test]
fn stat_fromstr_rejects_missing_comm() {
    let r = Stat::from_str(b"12345 no parens here");
    assert!(matches!(r, Err(Error::StatParsing(_))));
}

#[test]
fn stat_fromstr_rejects_bad_utime() {
    let line = b"42 (p) S 1 42 42 0 -1 4194560 100 200 300 400 abc 222 0 0 20 0 3 0 50 12345 678";
    let r = Stat::from_str(line);
    assert!(matches!(r, Err(Error::StatParsing(_))));
}

#[test]
fn stat_fromstr_short_line_defaults_to_zero() {
    let st = Stat::from_str(b"1 (init) S 0 1").unwrap();
    assert_eq!(st.cpu_used, 0);
    assert_eq!(st.num_threads, 0);
    assert_eq!(st.memory_res, 0);
}

#[test]
fn meminfo_parse_reads_the_four_figures() {
    let text = b"MemTotal:       16384 kB\n\
MemFree:        8192 kB\n\
Buffers:        123 kB\n\
SwapTotal:      100 kB\n\
SwapFree:       40 kB\n\
Ignored: junk that is never read\n";
    let mi = MemInfo::parse(text).unwrap();
    assert_eq!(mi.mem_total, 16384 * 1024);
    assert_eq!(mi.mem_free, 8192 * 1024);
    assert_eq!(mi.swap_total, 100 * 1024);
    assert_eq!(mi.swap_free, 40 * 1024);
    assert_eq!(mi.mem_used(), 8192 * 1024);
    assert_eq!(mi.swap_used(), 60 * 1024);
}

#[test]
fn meminfo_parse_stops_reading_after_swap_free() {
    // a malformed line after the swap-free figure is never reached
    let text = b"MemTotal: 10 kB\nMemFree: 5 kB\nSwapTotal: 4 kB\nSwapFree: 2 kB\nbroken line\n";
    let mi = MemInfo::parse(text).unwrap();
    assert_eq!(mi.mem_total, 10 * 1024);
}

#[test]
fn meminfo_parse_rejects_missing_unit() {
    let r = MemInfo::parse(b"MemTotal:       16384\n");
    assert!(matches!(r, Err(Error::MemInfo(_))));
}

#[test]
fn meminfo_parse_rejects_line_without_colon() {
    let r = MemInfo::parse(b"MemTotal 16384 kB\n");
    assert!(matches!(r, Err(Error::MemInfo(_))));
}

#[test]
fn loadavg_load_reads_hundredths() {
    let la = LoadAvg::load(b"0.52 0.58 1.59 2/1234 12345\n").unwrap();
    assert_eq!(la.one, 52);
    assert_eq!(la.five, 58);
    assert_eq!(la.fifteen, 159);
}

#[test]
fn loadavg_load_rejects_bad_number() {
    let r = LoadAvg::load(b"0.52 abc 1.59 2/1234 12345\n");
    assert!(matches!(r, Err(Error::LoadAvg(_))));
}

#[test]
fn loadavg_load_rejects_missing_fields() {
    let r = LoadAvg::load(b"0.52");
    assert!(matches!(r, Err(Error::LoadAvg(_))));
}

#[test]
fn read_uptime_in_centiseconds() {
    let v = read_uptime(b"12345.67 99999.99\n").unwrap();
    assert_eq!(v, 1234567);
}

#[test]
fn read_uptime_rejects_missing_space() {
    let r = read_uptime(b"12345.67");
    assert!(matches!(r, Err(Error::Uptime(_))));
}

#[test]
fn read_uptime_rejects_bad_number() {
    let r = read_uptime(b"abc.de 1.00\n");
    assert!(matches!(r, Err(Error::Uptime(_))));
}

#[test]
fn state_codes() {
    assert!(matches!(State::from_bytes(b"R"), State::Running));
    assert!(matches!(State::from_bytes(b"S"), State::Sleeping));
    assert!(matches!(State::from_bytes(b"D"), State::Waiting));
    assert!(matches!(State::from_bytes(b"Z"), State::Zombie));
    assert!(matches!(State::from_bytes(b"T"), State::Stopped));
    assert!(matches!(State::from_bytes(b"t"), State::Tracing));
    assert!(matches!(State::from_bytes(b"X"), State::Dead));
    assert!(matches!(State::from_bytes(b"I"), State::Idle));
    match State::from_bytes(b"W") {
        State::Unknown(v) => assert_eq!(v, b"W".to_vec()),
        other => panic!("expected Unknown, got {:?}", other),
    }
}
