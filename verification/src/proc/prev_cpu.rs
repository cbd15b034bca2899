//! The previous-sample store: the Calculator's retained baselines, keyed by
//! process identity, and the two-sample percentage computation for one
//! process's cumulative tick counter.

use std::collections::HashMap;
use vstd::prelude::*;

use crate::proc::cputime::clamp_u64;

verus! {

broadcast use vstd::std_specs::hash::group_hash_axioms;

/// One retained baseline: the timestamp (hundredths of a second since
/// boot) and the cumulative tick count an identity last showed.
#[derive(Debug, Clone, Copy, PartialEq, Eq, Structural)]
pub struct PrevCpu {
    pub uptime: u64,
    pub cpu_used: u64,
}

/// The store of baselines, one per identity currently alive. Owned by the
/// sampling pass alone; every entry is rewritten or evicted each pass.
#[derive(Debug)]
pub struct PrevCpuMap {
    map: HashMap<i32, PrevCpu>,
}

impl View for PrevCpuMap {
    type V = Map<i32, PrevCpu>;

    closed spec fn view(&self) -> Map<i32, PrevCpu> {
        self.map@
    }
}

/// The percentage, in hundredths of a percent, that `used` ticks make of
/// an interval of `dt_cs` hundredths of a second at `tps` ticks per second:
/// 100 * 100 * 100 * used / (dt_cs * tps), the three factors of 100 being
/// the percent scale, the library's centi-percent resolution, and the
/// centisecond timestamp unit.
pub open spec fn spec_pct_centi(used: nat, dt_cs: nat, tps: nat) -> nat {
    used * 1000000 / (dt_cs * tps)
}

/// What one observation does to the store, and what it returns.
///
/// An identity without a baseline stores one and reports no percentage; an
/// identity with a baseline and positive elapsed time reports the
/// percentage of the interval it spent running and has its baseline
/// replaced; an observation with no elapsed time (or a zero tick rate)
/// reports nothing and leaves the baseline alone. A counter that went
/// backward counts as zero used time.
///
/// The percentage is relative to one core's full tick budget and is not
/// normalized by core count: a process running on several cores at once
/// legitimately reports more than 100%.
pub open spec fn spec_observe(
    m: Map<i32, PrevCpu>,
    pid: i32,
    uptime: u64,
    cpu_used: u64,
    ticks: u64,
) -> (Map<i32, PrevCpu>, Option<u64>) {
    if !m.contains_key(pid) {
        (m.insert(pid, PrevCpu { uptime, cpu_used }), None)
    } else {
        let prev = m[pid];
        if uptime > prev.uptime && ticks > 0 {
            let used: nat = if cpu_used >= prev.cpu_used {
                (cpu_used - prev.cpu_used) as nat
            } else {
                0
            };
            (
                m.insert(pid, PrevCpu { uptime, cpu_used }),
                Some(
                    clamp_u64(
                        spec_pct_centi(used, (uptime - prev.uptime) as nat, ticks as nat),
                    ),
                ),
            )
        } else {
            (m, None)
        }
    }
}

impl PrevCpuMap {
    /// An empty store.
    pub fn new() -> (r: Self)
        ensures
            r@ == Map::<i32, PrevCpu>::empty(),
    {
        PrevCpuMap { map: HashMap::new() }
    }

    /// One observation of an identity's cumulative counter at a timestamp,
    /// as `spec_observe` describes it.
    pub fn observe(&mut self, pid: i32, uptime: u64, cpu_used: u64, ticks: u64) -> (r: Option<
        u64,
    >)
        ensures
            final(self)@ == spec_observe(old(self)@, pid, uptime, cpu_used, ticks).0,
            r == spec_observe(old(self)@, pid, uptime, cpu_used, ticks).1,
    {
        let prev = match self.map.get(&pid) {
            Some(p) => Some(*p),
            None => None,
        };
        match prev {
            Some(prev) => {
                if uptime > prev.uptime && ticks > 0 {
                    let used = cpu_used.saturating_sub(prev.cpu_used);
                    let dt = uptime - prev.uptime;
                    proof {
                        assert((used as u128) * 1000000 <= (u64::MAX as u128) * 1000000)
                            by (nonlinear_arith)
                            requires
                                used <= u64::MAX,
                        ;
                    }
                    let num: u128 = (used as u128) * 1000000;
                    proof {
                        assert((dt as u128) * (ticks as u128) <= (u64::MAX as u128) * (
                        u64::MAX as u128)) by (nonlinear_arith)
                            requires
                                dt <= u64::MAX,
                                ticks <= u64::MAX,
                        ;
                        assert((u64::MAX as u128) * (u64::MAX as u128) < u128::MAX)
                            by (nonlinear_arith);
                    }
                    let den: u128 = (dt as u128) * (ticks as u128);
                    proof {
                        assert((dt as u128) * (ticks as u128) == (dt as nat) * (ticks as nat))
                            by (nonlinear_arith);
                        assert((dt as nat) * (ticks as nat) > 0) by (nonlinear_arith)
                            requires
                                dt > 0,
                                ticks > 0,
                        ;
                    }
                    let q = num / den;
                    let pct = if q > u64::MAX as u128 {
                        u64::MAX
                    } else {
                        q as u64
                    };
                    self.map.insert(pid, PrevCpu { uptime, cpu_used });
                    Some(pct)
                } else {
                    None
                }
            },
            None => {
                self.map.insert(pid, PrevCpu { uptime, cpu_used });
                None
            },
        }
    }

    /// Removes every baseline whose identity was not observed this pass.
    /// Only identities seen in the current pass survive, with their
    /// baselines unchanged; an evicted identity that returns later starts
    /// from a clean first observation.
    pub fn evict_stale(&mut self, observed: &Vec<i32>)
        ensures
            forall|k: i32|
                #![trigger final(self)@.contains_key(k)]
                final(self)@.contains_key(k) <==> old(self)@.contains_key(k)
                    && observed@.contains(k),
            forall|k: i32|
                #[trigger] final(self)@.contains_key(k) ==> final(self)@[k] == old(self)@[k],
    {
        let mut kept: HashMap<i32, PrevCpu> = HashMap::new();
        let mut i: usize = 0;
        while i < observed.len()
            invariant
                0 <= i <= observed@.len(),
                forall|k: i32|
                    #[trigger] kept@.contains_key(k) ==> self.map@.contains_key(k) && kept@[k]
                        == self.map@[k],
                forall|k: i32|
                    kept@.contains_key(k) ==> exists|j: int|
                        0 <= j < i && observed@[j] == k,
                forall|j: int|
                    0 <= j < i && self.map@.contains_key(#[trigger] observed@[j])
                        ==> kept@.contains_key(observed@[j]),
            decreases observed@.len() - i,
        {
            let id = observed[i];
            match self.map.get(&id) {
                Some(v) => {
                    kept.insert(id, *v);
                },
                None => {},
            }
            i = i + 1;
        }
        self.map = kept;
    }

    /// Drops every baseline. The next pass starts with first observations
    /// throughout.
    pub fn clear(&mut self)
        ensures
            final(self)@ == Map::<i32, PrevCpu>::empty(),
    {
        self.map.clear()
    }
}

/// First-observation rule: an identity with no retained baseline yields no
/// percentage; the observation only deposits the new baseline.
pub proof fn lemma_first_observation(
    m: Map<i32, PrevCpu>,
    pid: i32,
    uptime: u64,
    cpu_used: u64,
    ticks: u64,
)
    requires
        !m.contains_key(pid),
    ensures
        spec_observe(m, pid, uptime, cpu_used, ticks).1 is None,
        spec_observe(m, pid, uptime, cpu_used, ticks).0 == m.insert(
            pid,
            PrevCpu { uptime, cpu_used },
        ),
{
}

/// Monotonic-delta rule: a baseline (t0, c0) followed by a sample (t1, c1)
/// with t1 > t0 and c1 >= c0 yields exactly the fraction of the elapsed
/// interval spent running: 100% times (c1 - c0) ticks over (t1 - t0)
/// centiseconds at `ticks` ticks per second, in hundredths of a percent.
pub proof fn lemma_monotonic_delta(
    m: Map<i32, PrevCpu>,
    pid: i32,
    t0: u64,
    c0: u64,
    t1: u64,
    c1: u64,
    ticks: u64,
)
    requires
        !m.contains_key(pid),
        t0 < t1,
        c0 <= c1,
        ticks > 0,
    ensures
        ({
            let m1 = spec_observe(m, pid, t0, c0, ticks).0;
            spec_observe(m1, pid, t1, c1, ticks).1 == Some(
                clamp_u64(spec_pct_centi((c1 - c0) as nat, (t1 - t0) as nat, ticks as nat)),
            )
        }),
{
}

/// Counter-reset defense: when the cumulative counter appears to have gone
/// backward (identifier reuse or wraparound), the used time counts as zero
/// and the reported percentage is exactly zero — never a negative value.
pub proof fn lemma_counter_reset(
    m: Map<i32, PrevCpu>,
    pid: i32,
    t0: u64,
    c0: u64,
    t1: u64,
    c1: u64,
    ticks: u64,
)
    requires
        !m.contains_key(pid),
        t0 < t1,
        c1 < c0,
        ticks > 0,
    ensures
        spec_observe(spec_observe(m, pid, t0, c0, ticks).0, pid, t1, c1, ticks).1 == Some(0u64),
{
    let m1 = spec_observe(m, pid, t0, c0, ticks).0;
    assert(m1[pid] == PrevCpu { uptime: t0, cpu_used: c0 });
    assert(spec_pct_centi(0, (t1 - t0) as nat, ticks as nat) == 0) by {
        assert(((t1 - t0) as nat) * (ticks as nat) > 0) by (nonlinear_arith)
            requires
                t0 < t1,
                ticks > 0,
        ;
    }
}

/// Zero-interval defense: a second sample at the very same timestamp
/// yields no percentage — not an infinity, not a fault — and leaves the
/// stored baseline untouched.
pub proof fn lemma_zero_interval(
    m: Map<i32, PrevCpu>,
    pid: i32,
    t0: u64,
    c0: u64,
    c1: u64,
    ticks: u64,
)
    requires
        !m.contains_key(pid),
    ensures
        ({
            let m1 = spec_observe(m, pid, t0, c0, ticks).0;
            &&& spec_observe(m1, pid, t0, c1, ticks).1 is None
            &&& spec_observe(m1, pid, t0, c1, ticks).0 == m1
        }),
{
}

/// Eviction idempotence: after an eviction pass, an identity outside the
/// observed set holds no baseline, and a later observation of it is a
/// fresh first observation with no resurrected value.
pub proof fn lemma_eviction_fresh(
    m: Map<i32, PrevCpu>,
    m_after: Map<i32, PrevCpu>,
    observed: Seq<i32>,
    pid: i32,
    t: u64,
    c: u64,
    ticks: u64,
)
    requires
        forall|k: i32| m_after.contains_key(k) <==> m.contains_key(k) && observed.contains(k),
        !observed.contains(pid),
    ensures
        !m_after.contains_key(pid),
        spec_observe(m_after, pid, t, c, ticks).1 is None,
{
}

/// Mode-switch reset: with every baseline cleared, any identity observed
/// next — under whichever granularity — reports no percentage.
pub proof fn lemma_reset_fresh(pid: i32, t: u64, c: u64, ticks: u64)
    ensures
        spec_observe(Map::<i32, PrevCpu>::empty(), pid, t, c, ticks).1 is None,
{
}

} // verus!
