//! The delta calculator: first observations, exact percentages, counter
//! resets, zero intervals, eviction, and the mode-switch reset.

use fell::proc::cputime::CpuTime;
use fell::proc::prev_cpu::PrevCpuMap;
use fell::proc::Proc;
use fell::sampler::SamplerMode;

fn cpu(user: u64, idle: u64) -> CpuTime {
    CpuTime {
        user,
        nice: 0,
        system: 0,
        idle,
        iowait: 0,
        irq: 0,
        softirq: 0,
        steal: 0,
        guest: 0,
        guest_nice: 0,
    }
}

#[test]
fn first_observation_is_unknown() {
    let mut store = PrevCpuMap::new();
    assert_eq!(store.observe(100, 1000, 500, 100), None);
}

#[test]
fn two_samples_give_the_exact_percentage() {
    // pid 100: (t=10.00s, 500 ticks) then (t=12.00s, 700 ticks) at 100 Hz
    // is 100 * 200 / (2.0 * 100) = 100%, i.e. 10000 hundredths.
    let mut store = PrevCpuMap::new();
    assert_eq!(store.observe(100, 1000, 500, 100), None);
    assert_eq!(store.observe(100, 1200, 700, 100), Some(10000));
}

#[test]
fn half_load_gives_fifty_percent() {
    let mut store = PrevCpuMap::new();
    assert_eq!(store.observe(7, 1000, 0, 100), None);
    // 100 ticks used over 2.00 s at 100 Hz: 50.00%
    assert_eq!(store.observe(7, 1200, 100, 100), Some(5000));
}

#[test]
fn counter_reset_reports_zero_not_negative() {
    let mut store = PrevCpuMap::new();
    assert_eq!(store.observe(100, 1000, 500, 100), None);
    assert_eq!(store.observe(100, 1200, 300, 100), Some(0));
}

#[test]
fn zero_interval_is_unknown() {
    let mut store = PrevCpuMap::new();
    assert_eq!(store.observe(100, 1000, 500, 100), None);
    assert_eq!(store.observe(100, 1000, 700, 100), None);
}

#[test]
fn backwards_clock_is_unknown() {
    let mut store = PrevCpuMap::new();
    assert_eq!(store.observe(100, 1000, 500, 100), None);
    assert_eq!(store.observe(100, 900, 700, 100), None);
}

#[test]
fn zero_tick_rate_is_unknown() {
    let mut store = PrevCpuMap::new();
    assert_eq!(store.observe(100, 1000, 500, 0), None);
    assert_eq!(store.observe(100, 1200, 700, 0), None);
}

#[test]
fn evicted_identity_starts_fresh() {
    let mut store = PrevCpuMap::new();
    assert_eq!(store.observe(100, 1000, 500, 100), None);
    // pid 100 is absent from the next pass's observed set
    store.evict_stale(&vec![200, 300]);
    // when it reappears, its old baseline is not resurrected
    assert_eq!(store.observe(100, 1200, 700, 100), None);
    // and from the fresh baseline on, deltas work again
    assert_eq!(store.observe(100, 1400, 900, 100), Some(10000));
}

#[test]
fn surviving_identity_keeps_its_baseline() {
    let mut store = PrevCpuMap::new();
    assert_eq!(store.observe(100, 1000, 500, 100), None);
    store.evict_stale(&vec![100]);
    assert_eq!(store.observe(100, 1200, 700, 100), Some(10000));
}

#[test]
fn mode_switch_clears_all_baselines() {
    let mut proc = Proc::with_params(100, 4096);
    let mut mode = SamplerMode::new(false);
    let raw = fell::proc::RawProcess {
        tid: 100,
        parent: 100,
        uid: None,
        stat: b"100 (p) R 1 100 100 0 -1 0 0 0 0 0 500 0 0 0 20 0 1 0 0 0 0".to_vec(),
        cmdline: b"p\0".to_vec(),
    };
    let mut counts = fell::proc::ThreadCount::default();
    let first = proc.get_process_info(&raw, 1000, &mut counts).unwrap();
    assert_eq!(first.cpu_usage, None);

    // toggling thread detail invalidates every baseline
    mode.apply_control(&mut proc, true);
    assert!(mode.threads);

    let again = proc.get_process_info(&raw, 1200, &mut counts).unwrap();
    assert_eq!(again.cpu_usage, None);
}

#[test]
fn unchanged_mode_keeps_baselines() {
    let mut proc = Proc::with_params(100, 4096);
    let mut mode = SamplerMode::new(false);
    let raw = fell::proc::RawProcess {
        tid: 100,
        parent: 100,
        uid: None,
        stat: b"100 (p) R 1 100 100 0 -1 0 0 0 0 0 500 0 0 0 20 0 1 0 0 0 0".to_vec(),
        cmdline: b"p\0".to_vec(),
    };
    let mut counts = fell::proc::ThreadCount::default();
    assert_eq!(proc.get_process_info(&raw, 1000, &mut counts).unwrap().cpu_usage, None);

    mode.apply_control(&mut proc, false);

    let raw2 = fell::proc::RawProcess {
        stat: b"100 (p) R 1 100 100 0 -1 0 0 0 0 0 700 0 0 0 20 0 1 0 0 0 0".to_vec(),
        ..raw
    };
    let again = proc.get_process_info(&raw2, 1200, &mut counts).unwrap();
    assert_eq!(again.cpu_usage, Some(10000));
}

#[test]
fn aggregate_delta_gives_the_exact_percentage() {
    // work 1000 -> 1100, idle 9000 -> 9300: 100 used of 400 elapsed = 25%
    let old = cpu(1000, 9000);
    let new = cpu(1100, 9300);
    assert_eq!(new.cpu_usage(&old), Some(2500));
}

#[test]
fn aggregate_zero_interval_is_unknown() {
    let old = cpu(1000, 9000);
    assert_eq!(old.cpu_usage(&old), None);
}

#[test]
fn aggregate_backwards_counters_saturate_to_zero() {
    // work appears to fall while total still grows: used time counts as zero
    let old = cpu(1000, 9000);
    let new = cpu(900, 9300);
    assert_eq!(new.cpu_usage(&old), Some(0));
}
