//! Cumulative per-CPU time counters, their textual form in the kernel's
//! aggregate stat source, and the two-sample utilization computation.

use vstd::prelude::*;
use vstd::string::StringSliceAdditionalSpecFns;

use crate::parse::{
    field_or_zero, find_byte_from, lemma_find_first, parse_u64, spec_find, spec_split, spec_trim,
    split_bytes, starts_with, trim_bytes, valid_u64, views,
};
use crate::proc::Error;

verus! {

/// One reading of the kernel's cumulative time-in-state counters, for the
/// whole machine or for one logical CPU. Units are scheduler ticks; every
/// field only grows over the system's lifetime.
#[derive(Debug, Clone, PartialEq, Eq, Structural)]
pub struct CpuTime {
    pub user: u64,
    pub nice: u64,
    pub system: u64,
    pub idle: u64,
    pub iowait: u64,
    pub irq: u64,
    pub softirq: u64,
    pub steal: u64,
    pub guest: u64,
    pub guest_nice: u64,
}

/// Addition that stops at `u64::MAX` instead of wrapping.
pub open spec fn sat_add(a: nat, b: nat) -> nat {
    if a + b > u64::MAX {
        u64::MAX as nat
    } else {
        (a + b) as nat
    }
}

/// Time spent doing work: user + system + nice + irq + softirq,
/// each addition saturating.
pub open spec fn spec_work(c: CpuTime) -> nat {
    sat_add(
        sat_add(sat_add(sat_add(c.user as nat, c.system as nat), c.nice as nat), c.irq as nat),
        c.softirq as nat,
    )
}

/// All accounted time: work + idle + iowait + steal + guest + guest_nice,
/// each addition saturating.
pub open spec fn spec_total(c: CpuTime) -> nat {
    sat_add(
        sat_add(
            sat_add(sat_add(sat_add(spec_work(c), c.idle as nat), c.iowait as nat), c.steal as nat),
            c.guest as nat,
        ),
        c.guest_nice as nat,
    )
}

/// `n` forced into the `u64` range.
pub open spec fn clamp_u64(n: nat) -> u64 {
    if n > u64::MAX {
        u64::MAX
    } else {
        n as u64
    }
}

/// The utilization two consecutive readings show, in hundredths of a
/// percent: 10000 * (work delta) / (total delta). A work counter that
/// appears to go backward counts as zero work; a total delta that is not
/// positive yields no value at all.
pub open spec fn spec_cpu_usage(new: CpuTime, old: CpuTime) -> Option<u64> {
    if spec_total(new) > spec_total(old) {
        let dtotal = (spec_total(new) - spec_total(old)) as nat;
        let dwork: nat = if spec_work(new) >= spec_work(old) {
            (spec_work(new) - spec_work(old)) as nat
        } else {
            0
        };
        Some(clamp_u64(dwork * 10000 / dtotal))
    } else {
        None
    }
}

/// In any single reading, work time never exceeds total time.
pub proof fn lemma_work_le_total(c: CpuTime)
    ensures
        spec_work(c) <= spec_total(c),
{
}

impl CpuTime {
    /// Time spent doing work, with saturating additions.
    pub fn work(&self) -> (r: u64)
        ensures
            r == spec_work(*self),
    {
        self.user.saturating_add(self.system).saturating_add(self.nice).saturating_add(
            self.irq,
        ).saturating_add(self.softirq)
    }

    /// All accounted time, with saturating additions.
    pub fn total(&self) -> (r: u64)
        ensures
            r == spec_total(*self),
    {
        self.work().saturating_add(self.idle).saturating_add(self.iowait).saturating_add(
            self.steal,
        ).saturating_add(self.guest).saturating_add(self.guest_nice)
    }

    /// The utilization this reading shows against the previous one, in
    /// hundredths of a percent; no value when no total time elapsed.
    pub fn cpu_usage(&self, old: &CpuTime) -> (r: Option<u64>)
        ensures
            r == spec_cpu_usage(*self, *old),
    {
        let t_new = self.total();
        let t_old = old.total();
        if t_new <= t_old {
            return None;
        }
        let dwork = self.work().saturating_sub(old.work());
        let num: u128 = (dwork as u128) * 10000;
        let den: u128 = (t_new - t_old) as u128;
        let q = num / den;
        if q > u64::MAX as u128 {
            Some(u64::MAX)
        } else {
            Some(q as u64)
        }
    }
}

/// Per-CPU utilization for two passes' readings, index by index; readings
/// without a counterpart in the other pass are dropped, as a CPU set change
/// between passes leaves no meaningful delta.
pub fn cpu_usage_all(new: &Vec<CpuTime>, old: &Vec<CpuTime>) -> (r: Vec<Option<u64>>)
    ensures
        r@.len() == if new@.len() <= old@.len() {
            new@.len()
        } else {
            old@.len()
        },
        forall|i: int| 0 <= i < r@.len() ==> r@[i] == spec_cpu_usage(new@[i], old@[i]),
{
    let n = if new.len() <= old.len() {
        new.len()
    } else {
        old.len()
    };
    let mut r: Vec<Option<u64>> = Vec::new();
    let mut i: usize = 0;
    while i < n
        invariant
            0 <= i <= n,
            n == if new@.len() <= old@.len() {
                new@.len()
            } else {
                old@.len()
            },
            r@.len() == i,
            forall|j: int| 0 <= j < i ==> r@[j] == spec_cpu_usage(new@[j], old@[j]),
        decreases n - i,
    {
        r.push(new[i].cpu_usage(&old[i]));
        i = i + 1;
    }
    r
}

/// Whether the numbers of one counter line are well-formed: every field
/// among the first ten that is present must be a decimal `u64`.
pub open spec fn valid_cpu_fields(toks: Seq<Seq<u8>>) -> bool {
    forall|i: int| 0 <= i < toks.len() && i < 10 ==> valid_u64(#[trigger] toks[i])
}

/// The reading a well-formed counter line denotes; absent fields are zero.
pub open spec fn spec_cpu_time(toks: Seq<Seq<u8>>) -> CpuTime {
    CpuTime {
        user: field_or_zero(toks, 0) as u64,
        nice: field_or_zero(toks, 1) as u64,
        system: field_or_zero(toks, 2) as u64,
        idle: field_or_zero(toks, 3) as u64,
        iowait: field_or_zero(toks, 4) as u64,
        irq: field_or_zero(toks, 5) as u64,
        softirq: field_or_zero(toks, 6) as u64,
        steal: field_or_zero(toks, 7) as u64,
        guest: field_or_zero(toks, 8) as u64,
        guest_nice: field_or_zero(toks, 9) as u64,
    }
}

/// Reads one space-separated field as a `u64`; a field beyond the end of
/// the line counts as zero.
fn parse_field(toks: &Vec<Vec<u8>>, i: usize) -> (r: Option<u64>)
    ensures
        r is Some <==> (i < toks@.len() ==> valid_u64(views(toks@)[i as int])),
        r is Some ==> r->Some_0 == field_or_zero(views(toks@), i as int),
{
    if i < toks.len() {
        parse_u64(toks[i].as_slice())
    } else {
        Some(0)
    }
}

impl CpuTime {
    /// Reads the space-separated numbers of one counter line, in the
    /// kernel's fixed order; fields past the tenth are ignored and missing
    /// trailing fields are zero.
    pub fn from_str(s: &[u8]) -> (r: Result<CpuTime, Error>)
        ensures
            r is Ok <==> valid_cpu_fields(spec_split(s@, 32)),
            r is Ok ==> r->Ok_0 == spec_cpu_time(spec_split(s@, 32)),
            r is Err ==> r->Err_0 is CpuTime,
    {
        let toks = split_bytes(s, 32);
        let user = match parse_field(&toks, 0) {
            Some(v) => v,
            None => {
                return Err(Error::CpuTime("Failed to read user time".to_owned()));
            },
        };
        let nice = match parse_field(&toks, 1) {
            Some(v) => v,
            None => {
                return Err(Error::CpuTime("Failed to read nice time".to_owned()));
            },
        };
        let system = match parse_field(&toks, 2) {
            Some(v) => v,
            None => {
                return Err(Error::CpuTime("Failed to read system time".to_owned()));
            },
        };
        let idle = match parse_field(&toks, 3) {
            Some(v) => v,
            None => {
                return Err(Error::CpuTime("Failed to read idle time".to_owned()));
            },
        };
        let iowait = match parse_field(&toks, 4) {
            Some(v) => v,
            None => {
                return Err(Error::CpuTime("Failed to read iowait time".to_owned()));
            },
        };
        let irq = match parse_field(&toks, 5) {
            Some(v) => v,
            None => {
                return Err(Error::CpuTime("Failed to read irq time".to_owned()));
            },
        };
        let softirq = match parse_field(&toks, 6) {
            Some(v) => v,
            None => {
                return Err(Error::CpuTime("Failed to read softirq time".to_owned()));
            },
        };
        let steal = match parse_field(&toks, 7) {
            Some(v) => v,
            None => {
                return Err(Error::CpuTime("Failed to read steal time".to_owned()));
            },
        };
        let guest = match parse_field(&toks, 8) {
            Some(v) => v,
            None => {
                return Err(Error::CpuTime("Failed to read guest time".to_owned()));
            },
        };
        let guest_nice = match parse_field(&toks, 9) {
            Some(v) => v,
            None => {
                return Err(Error::CpuTime("Failed to read guest nice time".to_owned()));
            },
        };
        Ok(
            CpuTime {
                user,
                nice,
                system,
                idle,
                iowait,
                irq,
                softirq,
                steal,
                guest,
                guest_nice,
            },
        )
    }
}

/// A line of the aggregate counter source that reports CPU time: it begins
/// with `cpu` (the machine-wide line, or `cpuN` for one logical CPU).
pub open spec fn is_cpu_line(l: Seq<u8>) -> bool {
    l.len() >= "cpu".spec_bytes().len() && l.take("cpu".spec_bytes().len() as int)
        == "cpu".spec_bytes()
}

/// Whether one CPU line can be read: a space must follow the label and the
/// numbers after it must be well-formed.
pub open spec fn cpu_line_ok(l: Seq<u8>) -> bool {
    match spec_find(l, 32) {
        Some(i) => valid_cpu_fields(spec_split(spec_trim(l.skip(i + 1)), 32)),
        None => false,
    }
}

/// The reading one readable CPU line denotes.
pub open spec fn cpu_line_time(l: Seq<u8>) -> CpuTime {
    match spec_find(l, 32) {
        Some(i) => spec_cpu_time(spec_split(spec_trim(l.skip(i + 1)), 32)),
        None => spec_cpu_time(Seq::empty()),
    }
}

/// The predicate that picks the CPU lines out of the counter source.
pub open spec fn cpu_line_pred() -> spec_fn(Seq<u8>) -> bool {
    |l: Seq<u8>| is_cpu_line(l)
}

/// The CPU lines of the aggregate counter source, in order: machine-wide
/// first, then one per logical CPU.
pub open spec fn spec_cpu_lines(input: Seq<u8>) -> Seq<Seq<u8>> {
    spec_split(input, 10).filter(cpu_line_pred())
}

/// Every CPU line of the counter source is readable.
pub open spec fn cpu_times_ok(input: Seq<u8>) -> bool {
    forall|j: int|
        0 <= j < spec_split(input, 10).len() && is_cpu_line(#[trigger] spec_split(input, 10)[j])
            ==> cpu_line_ok(spec_split(input, 10)[j])
}

/// Reads every CPU line of the aggregate counter source. The whole read
/// fails if any single CPU line is malformed, since a partial set of
/// per-CPU readings could not be paired with the previous pass's.
pub fn parse_cpu_times(input: &[u8]) -> (r: Result<Vec<CpuTime>, Error>)
    ensures
        r is Ok <==> cpu_times_ok(input@),
        r is Ok ==> r->Ok_0@ == spec_cpu_lines(input@).map_values(|l: Seq<u8>| cpu_line_time(l)),
        r is Err ==> r->Err_0 is CpuTime,
{
    let lines = split_bytes(input, 10);
    let mut r: Vec<CpuTime> = Vec::new();
    let mut i: usize = 0;
    proof {
        reveal(Seq::<_>::filter);
        assert(views(lines@).take(0) =~= Seq::<Seq<u8>>::empty());
        assert(views(lines@).take(0).filter(cpu_line_pred()) =~= Seq::<Seq<u8>>::empty());
    }
    while i < lines.len()
        invariant
            0 <= i <= lines@.len(),
            views(lines@) == spec_split(input@, 10),
            forall|j: int|
                0 <= j < i && is_cpu_line(#[trigger] views(lines@)[j]) ==> cpu_line_ok(
                    views(lines@)[j],
                ),
            r@.len() == views(lines@).take(i as int).filter(cpu_line_pred()).len(),
            forall|j: int|
                0 <= j < r@.len() ==> r@[j] == cpu_line_time(
                    #[trigger] views(lines@).take(i as int).filter(cpu_line_pred())[j],
                ),
        decreases lines@.len() - i,
    {
        let line: &Vec<u8> = &lines[i];
        let llen = line.len();
        let is_cpu = starts_with(line.as_slice(), "cpu".as_bytes());
        proof {
            reveal(Seq::<_>::filter);
            assert(views(lines@)[i as int] == line@);
            let prev = views(lines@).take(i as int);
            let cur = views(lines@).take(i + 1);
            assert(cur =~= prev.push(line@));
            assert(cur.drop_last() =~= prev);
            assert(cur.last() == line@);
            assert(cur.filter(cpu_line_pred()) == if cpu_line_pred()(line@) {
                prev.filter(cpu_line_pred()).push(line@)
            } else {
                prev.filter(cpu_line_pred())
            });
        }
        if is_cpu {
            let times = match find_byte_from(line.as_slice(), 32, 0) {
                Some(p) => {
                    proof {
                        lemma_find_first(line@, 32);
                        match spec_find(line@, 32) {
                            Some(k) => {
                                assert(k == p);
                            },
                            None => {
                                assert(false);
                            },
                        }
                    }
                    vstd::slice::slice_subrange(line.as_slice(), p + 1, llen)
                },
                None => {
                    proof {
                        lemma_find_first(line@, 32);
                        match spec_find(line@, 32) {
                            Some(k) => {
                                assert(false);
                            },
                            None => {},
                        }
                        assert(!cpu_line_ok(line@));
                        assert(is_cpu_line(views(lines@)[i as int]) && !cpu_line_ok(
                            views(lines@)[i as int],
                        ));
                    }
                    return Err(Error::CpuTime("Failed to parse CPU time".to_owned()));
                },
            };
            proof {
                assert(times@ =~= line@.skip(spec_find(line@, 32)->Some_0 + 1));
            }
            let trimmed = trim_bytes(times);
            let cpu_time = match CpuTime::from_str(trimmed) {
                Ok(c) => c,
                Err(e) => {
                    proof {
                        assert(!cpu_line_ok(line@));
                        assert(is_cpu_line(views(lines@)[i as int]) && !cpu_line_ok(
                            views(lines@)[i as int],
                        ));
                    }
                    return Err(e);
                },
            };
            proof {
                assert(cpu_line_ok(line@));
                assert(cpu_time == cpu_line_time(line@));
            }
            r.push(cpu_time);
        }
        i = i + 1;
    }
    proof {
        assert(views(lines@).take(lines@.len() as int) =~= views(lines@));
        assert(r@ =~= spec_cpu_lines(input@).map_values(|l: Seq<u8>| cpu_line_time(l)));
    }
    Ok(r)
}

} // verus!
