//! The sampling core: raw counter formats, the previous-sample store, and
//! assembly of a complete snapshot from one pass's raw readings.
//!
//! The operating-system reads themselves (directory walks, file reads)
//! stay outside the library; one pass hands in the raw bytes it read and a
//! `RawProcess` per enumerated identity, and gets back a fully assembled
//! `System` snapshot.

use vstd::prelude::*;

pub mod cputime;
pub mod loadavg;
pub mod meminfo;
pub mod prev_cpu;
pub mod process_info;
pub mod stat;
pub mod state;

use crate::parse::{
    centi_val, field_or_zero, find_byte_from, lemma_find_first, spec_find, spec_split, valid_centi,
};
use crate::proc::cputime::CpuTime;
use crate::proc::loadavg::{valid_loadavg, LoadAvg};
use crate::proc::meminfo::{spec_meminfo, MemInfo};
use crate::proc::prev_cpu::{spec_observe, PrevCpu, PrevCpuMap};
use crate::proc::process_info::{
    classify, clean_cmdline, spec_classify, spec_clean_cmdline, ProcessInfo, ProcessType,
};
use crate::proc::stat::{spec_stat_name, spec_stat_ok, spec_stat_rest, stat_state_matches, Stat};

verus! {

/// A failure while interpreting one of the kernel's textual counter sources.
/// Each variant carries a short human-readable description.
#[derive(Debug)]
pub enum Error {
    StatParsing(String),
    Uptime(String),
    LoadAvg(String),
    CpuTime(String),
    MemInfo(String),
}

/// The raw material one enumerated identity contributes to a pass: the
/// identity itself, the identity of the process it belongs to (equal for a
/// top-level process), the owner if it could be read, and the bytes of the
/// identity's stat line and command line.
#[derive(Debug, Clone)]
pub struct RawProcess {
    pub tid: i32,
    pub parent: i32,
    pub uid: Option<u32>,
    pub stat: Vec<u8>,
    pub cmdline: Vec<u8>,
}

/// How many identities of each kind one pass saw: top-level processes,
/// their extra threads, and kernel-owned threads.
#[derive(Debug, Clone, Copy, Default, PartialEq, Eq, Structural)]
pub struct ThreadCount {
    pub tasks: u32,
    pub threads: u32,
    pub kernel_threads: u32,
}

/// The assembled result of one sampling pass.
///
/// `uptime` is in hundredths of a second since boot. `cpu_usage` is absent
/// as a whole on the very first pass (no previous aggregate reading), and
/// a single entry of it is absent when that CPU's counters showed no
/// elapsed time. All percentages are in hundredths of a percent.
#[derive(Debug)]
pub struct System {
    pub processes: Vec<ProcessInfo>,
    pub num_threads: ThreadCount,
    pub uptime: u64,
    pub load_avg: LoadAvg,
    pub cpu_usage: Option<Vec<Option<u64>>>,
    pub mem_usage: MemInfo,
}

/// The sampling engine: the machine's tick rate and page size, and the
/// state retained between passes — per-identity baselines and the previous
/// aggregate CPU readings.
#[derive(Debug)]
pub struct Proc {
    ticks: u64,
    page_size: usize,
    prev_cpus: PrevCpuMap,
    prev_cpu_time: Vec<CpuTime>,
}

/// Relies on `rustix::param::clock_ticks_per_second`: `sysconf(_SC_CLK_TCK)`,
/// the rate at which the kernel counts cumulative process time. The value
/// depends on the machine alone, so nothing is promised of it; a zero rate
/// simply leaves every percentage unknown.
#[verifier::external_body]
fn clock_ticks_per_second() -> u64 {
    rustix::param::clock_ticks_per_second()
}

/// Relies on `rustix::param::page_size`: `sysconf(_SC_PAGESIZE)`, the size
/// of one page of process memory, used to scale resident page counts to
/// bytes. Machine-dependent, so nothing is promised of the value.
#[verifier::external_body]
fn read_page_size() -> usize {
    rustix::param::page_size()
}

/// The space-separated fields after a stat line's command name.
pub open spec fn stat_toks(s: Seq<u8>) -> Seq<Seq<u8>> {
    spec_split(spec_stat_rest(s)->Some_0, 32)
}

/// The cumulative CPU time a stat line reports: user ticks plus kernel
/// ticks, added saturating.
pub open spec fn spec_stat_cpu_used(s: Seq<u8>) -> u64 {
    (field_or_zero(stat_toks(s), 11) as u64).saturating_add(field_or_zero(stat_toks(s), 12) as u64)
}

/// The thread count a stat line reports.
pub open spec fn spec_stat_nthreads(s: Seq<u8>) -> u32 {
    field_or_zero(stat_toks(s), 17) as u32
}

/// Addition on `u32` counters that stops at the maximum instead of
/// wrapping.
pub open spec fn sat_add_u32(a: u32, b: u32) -> u32 {
    if a + b > u32::MAX {
        u32::MAX
    } else {
        (a + b) as u32
    }
}

/// Multiplication of a page count by the page size, stopping at
/// `usize::MAX` instead of wrapping.
pub open spec fn sat_mul_usize(a: nat, b: nat) -> usize {
    if a * b > usize::MAX {
        usize::MAX
    } else {
        (a * b) as usize
    }
}

/// What one identity adds to the pass's counts: a top-level identity is a
/// kernel thread or a task by its classification and contributes its extra
/// threads; an identity that is itself a thread adds nothing, as its
/// parent already accounted for it.
pub open spec fn spec_count_one(tc: ThreadCount, raw: RawProcess) -> ThreadCount {
    if raw.tid == raw.parent {
        let kernel = spec_clean_cmdline(raw.cmdline@).len() == 0;
        let tc1 = if kernel {
            ThreadCount { kernel_threads: sat_add_u32(tc.kernel_threads, 1), ..tc }
        } else {
            ThreadCount { tasks: sat_add_u32(tc.tasks, 1), ..tc }
        };
        let nt = spec_stat_nthreads(raw.stat@);
        let extra: u32 = if nt >= 1 {
            (nt - 1) as u32
        } else {
            0
        };
        ThreadCount { threads: sat_add_u32(tc1.threads, extra), ..tc1 }
    } else {
        tc
    }
}

/// The process half of a pass, from position `i` on: which raw records
/// survive (those whose stat line reads), what percentage each got from
/// the store, how the store ends up, and the counts. Records are kept in
/// order, as `(index, percentage)` pairs.
pub open spec fn spec_pass(
    procs: Seq<RawProcess>,
    i: int,
    m: Map<i32, PrevCpu>,
    tc: ThreadCount,
    uptime: u64,
    ticks: u64,
) -> (Seq<(int, Option<u64>)>, Map<i32, PrevCpu>, ThreadCount)
    decreases procs.len() - i,
{
    if i < 0 || i >= procs.len() {
        (Seq::empty(), m, tc)
    } else {
        let raw = procs[i];
        if spec_stat_ok(raw.stat@) {
            let ob = spec_observe(m, raw.tid, uptime, spec_stat_cpu_used(raw.stat@), ticks);
            let rest = spec_pass(procs, i + 1, ob.0, spec_count_one(tc, raw), uptime, ticks);
            (seq![(i, ob.1)] + rest.0, rest.1, rest.2)
        } else {
            spec_pass(procs, i + 1, m, tc, uptime, ticks)
        }
    }
}

/// A whole pass over the raw records, with counts starting at zero.
pub open spec fn spec_pass_full(
    procs: Seq<RawProcess>,
    m: Map<i32, PrevCpu>,
    uptime: u64,
    ticks: u64,
) -> (Seq<(int, Option<u64>)>, Map<i32, PrevCpu>, ThreadCount) {
    spec_pass(procs, 0, m, ThreadCount { tasks: 0, threads: 0, kernel_threads: 0 }, uptime, ticks)
}

/// The identities of the surviving records, in pass order.
pub open spec fn spec_kept_ids(procs: Seq<RawProcess>, pairs: Seq<(int, Option<u64>)>) -> Seq<
    i32,
> {
    pairs.map_values(|p: (int, Option<u64>)| procs[p.0].tid)
}

/// `after` is `before` restricted to the identities in `ids`: exactly the
/// re-observed identities survive, with their baselines unchanged.
pub open spec fn evicted_from(
    after: Map<i32, PrevCpu>,
    before: Map<i32, PrevCpu>,
    ids: Seq<i32>,
) -> bool {
    &&& (forall|k: i32|
        #![trigger after.contains_key(k)]
        after.contains_key(k) <==> before.contains_key(k) && ids.contains(k))
    &&& (forall|k: i32| #[trigger] after.contains_key(k) ==> after[k] == before[k])
}

/// One snapshot record agrees with its raw material: every field is what
/// the stat line, the command line, and the store's answer say.
pub open spec fn process_record_matches(
    info: ProcessInfo,
    raw: RawProcess,
    pct: Option<u64>,
    page: usize,
) -> bool {
    let toks = stat_toks(raw.stat@);
    &&& info.pid == raw.tid
    &&& info.uid == raw.uid
    &&& info.name@ == spec_stat_name(raw.stat@)
    &&& stat_state_matches(info.state, toks)
    &&& info.memory == sat_mul_usize(field_or_zero(toks, 21), page as nat)
    &&& info.virtual_memory == field_or_zero(toks, 20)
    &&& info.cpu_usage == pct
    &&& info.cmdline@ == spec_clean_cmdline(raw.cmdline@)
    &&& info.process_type == spec_classify(
        raw.tid,
        raw.parent,
        spec_clean_cmdline(raw.cmdline@).len() == 0,
    )
    &&& info.num_threads == spec_stat_nthreads(raw.stat@)
}

/// The uptime line is readable: a space-terminated first field holding a
/// fixed-point number of seconds with two fractional digits.
pub open spec fn uptime_ok(data: Seq<u8>) -> bool {
    match spec_find(data, 32) {
        None => false,
        Some(i) => valid_centi(data.take(i)),
    }
}

/// The uptime the line denotes, in hundredths of a second.
pub open spec fn spec_uptime(data: Seq<u8>) -> nat {
    match spec_find(data, 32) {
        None => 0,
        Some(i) => centi_val(data.take(i)),
    }
}

/// Reads the first field of the uptime line — seconds since boot — as a
/// count of hundredths of a second. The second field (idle time) is not
/// the library's concern.
pub fn read_uptime(data: &[u8]) -> (r: Result<u64, Error>)
    ensures
        r is Ok <==> uptime_ok(data@),
        r is Ok ==> r->Ok_0 == spec_uptime(data@),
        r is Err ==> r->Err_0 is Uptime,
{
    proof {
        lemma_find_first(data@, 32);
    }
    match find_byte_from(data, 32, 0) {
        Some(i) => {
            proof {
                match spec_find(data@, 32) {
                    Some(k) => {
                        assert(k == i);
                    },
                    None => {
                        assert(false);
                    },
                }
            }
            let head = vstd::slice::slice_subrange(data, 0, i);
            proof {
                assert(head@ =~= data@.take(i as int));
            }
            match crate::parse::parse_centi(head) {
                Some(v) => Ok(v),
                None => Err(Error::Uptime("Failed to parse uptime".to_owned())),
            }
        },
        None => {
            proof {
                match spec_find(data@, 32) {
                    Some(k) => {
                        assert(false);
                    },
                    None => {},
                }
            }
            Err(Error::Uptime("Failed to split string".to_owned()))
        },
    }
}

impl Proc {
    /// The machine's tick rate, as the engine will use it.
    pub closed spec fn spec_ticks(&self) -> u64 {
        self.ticks
    }

    /// The machine's page size, as the engine will use it.
    pub closed spec fn spec_page_size(&self) -> usize {
        self.page_size
    }

    /// The retained per-identity baselines.
    pub closed spec fn prev(&self) -> Map<i32, PrevCpu> {
        self.prev_cpus@
    }

    /// The previous pass's aggregate CPU readings; empty before the first
    /// pass.
    pub closed spec fn prev_times(&self) -> Seq<CpuTime> {
        self.prev_cpu_time@
    }

    /// An engine with the machine's own tick rate and page size, and no
    /// retained state.
    pub fn new() -> (r: Proc)
        ensures
            r.prev() == Map::<i32, PrevCpu>::empty(),
            r.prev_times() == Seq::<CpuTime>::empty(),
    {
        Proc {
            ticks: clock_ticks_per_second(),
            page_size: read_page_size(),
            prev_cpus: PrevCpuMap::new(),
            prev_cpu_time: Vec::new(),
        }
    }

    /// An engine with a given tick rate and page size, and no retained
    /// state.
    pub fn with_params(ticks: u64, page_size: usize) -> (r: Proc)
        ensures
            r.spec_ticks() == ticks,
            r.spec_page_size() == page_size,
            r.prev() == Map::<i32, PrevCpu>::empty(),
            r.prev_times() == Seq::<CpuTime>::empty(),
    {
        Proc { ticks, page_size, prev_cpus: PrevCpuMap::new(), prev_cpu_time: Vec::new() }
    }

    /// Drops every retained per-identity baseline. Used when the tracked
    /// identity space changes (process-level against thread-level), since
    /// old baselines then mean nothing.
    pub fn reset_prev_cpus(&mut self)
        ensures
            final(self).prev() == Map::<i32, PrevCpu>::empty(),
            final(self).spec_ticks() == old(self).spec_ticks(),
            final(self).spec_page_size() == old(self).spec_page_size(),
            final(self).prev_times() == old(self).prev_times(),
    {
        self.prev_cpus.clear()
    }

    /// Builds the record for one raw identity and accounts it in the
    /// pass's counts; a stat line that does not read leaves the engine,
    /// the counts, and the store untouched.
    pub fn get_process_info(
        &mut self,
        raw: &RawProcess,
        uptime: u64,
        num_threads: &mut ThreadCount,
    ) -> (r: Option<ProcessInfo>)
        ensures
            final(self).spec_ticks() == old(self).spec_ticks(),
            final(self).spec_page_size() == old(self).spec_page_size(),
            final(self).prev_times() == old(self).prev_times(),
            r is Some <==> spec_stat_ok(raw.stat@),
            r is None ==> final(self).prev() == old(self).prev() && *final(num_threads) == *old(
                num_threads,
            ),
            r is Some ==> {
                let ob = spec_observe(
                    old(self).prev(),
                    raw.tid,
                    uptime,
                    spec_stat_cpu_used(raw.stat@),
                    old(self).spec_ticks(),
                );
                &&& final(self).prev() == ob.0
                &&& process_record_matches(r->Some_0, *raw, ob.1, old(self).spec_page_size())
                &&& *final(num_threads) == spec_count_one(*old(num_threads), *raw)
            },
    {
        match ProcessInfo::read(self, raw, uptime) {
            Ok(info) => {
                if raw.tid == raw.parent {
                    if matches!(info.process_type, ProcessType::KernelThread) {
                        num_threads.kernel_threads = num_threads.kernel_threads.saturating_add(1);
                    } else {
                        num_threads.tasks = num_threads.tasks.saturating_add(1);
                    }
                    num_threads.threads = num_threads.threads.saturating_add(
                        info.num_threads.saturating_sub(1),
                    );
                }
                Some(info)
            },
            Err(_) => None,
        }
    }
}

impl Proc {
    /// Assembles one whole pass into a snapshot.
    ///
    /// The caller hands in the raw bytes of the uptime, loadavg, aggregate
    /// CPU and meminfo sources, and one `RawProcess` per enumerated
    /// identity. An unreadable uptime line aborts the pass before anything
    /// changes. Otherwise every readable process record is routed through
    /// the baseline store, stale baselines are evicted, and the aggregate
    /// sources are read; an unreadable one of those aborts the pass (the
    /// per-process work of this pass stands, as its baselines must carry
    /// to the next pass). On the very first pass the snapshot carries no
    /// aggregate percentages at all.
    pub fn get_system(
        &mut self,
        procs: &Vec<RawProcess>,
        uptime_data: &[u8],
        loadavg_data: &[u8],
        stat_data: &[u8],
        meminfo_data: &[u8],
    ) -> (r: Result<System, Error>)
        ensures
            final(self).spec_ticks() == old(self).spec_ticks(),
            final(self).spec_page_size() == old(self).spec_page_size(),
            !uptime_ok(uptime_data@) ==> r is Err && r->Err_0 is Uptime && final(self).prev()
                == old(self).prev() && final(self).prev_times() == old(self).prev_times(),
            uptime_ok(uptime_data@) ==> ({
                let uptime = spec_uptime(uptime_data@) as u64;
                let full = spec_pass_full(
                    procs@,
                    old(self).prev(),
                    uptime,
                    old(self).spec_ticks(),
                );
                let loadavg_good = valid_loadavg(spec_split(loadavg_data@, 32));
                let times_good = crate::proc::cputime::cpu_times_ok(stat_data@);
                let mem_good = spec_meminfo(meminfo_data@) is Some;
                &&& evicted_from(final(self).prev(), full.1, spec_kept_ids(procs@, full.0))
                &&& (r is Ok <==> loadavg_good && times_good && mem_good)
                &&& (!loadavg_good ==> r is Err && r->Err_0 is LoadAvg)
                &&& (loadavg_good && !times_good ==> r is Err && r->Err_0 is CpuTime)
                &&& (loadavg_good && times_good && !mem_good ==> r is Err && r->Err_0 is MemInfo)
                &&& (r is Err ==> final(self).prev_times() == old(self).prev_times())
                &&& (r is Ok ==> ({
                    let sys = r->Ok_0;
                    let times = crate::proc::cputime::spec_cpu_lines(stat_data@).map_values(
                        |l: Seq<u8>| crate::proc::cputime::cpu_line_time(l),
                    );
                    let prev_t = old(self).prev_times();
                    &&& sys.uptime == uptime
                    &&& sys.num_threads == full.2
                    &&& sys.processes@.len() == full.0.len()
                    &&& (forall|j: int|
                        0 <= j < full.0.len() ==> process_record_matches(
                            #[trigger] sys.processes@[j],
                            procs@[full.0[j].0],
                            full.0[j].1,
                            old(self).spec_page_size(),
                        ))
                    &&& sys.load_avg.one == centi_val(spec_split(loadavg_data@, 32)[0])
                    &&& sys.load_avg.five == centi_val(spec_split(loadavg_data@, 32)[1])
                    &&& sys.load_avg.fifteen == centi_val(spec_split(loadavg_data@, 32)[2])
                    &&& Some(sys.mem_usage) == spec_meminfo(meminfo_data@)
                    &&& final(self).prev_times() == times
                    &&& (match sys.cpu_usage {
                        None => prev_t.len() == 0,
                        Some(v) => {
                            &&& prev_t.len() > 0
                            &&& v@.len() == (if times.len() <= prev_t.len() {
                                times.len()
                            } else {
                                prev_t.len()
                            })
                            &&& (forall|k: int|
                                0 <= k < v@.len() ==> v@[k]
                                    == crate::proc::cputime::spec_cpu_usage(
                                    times[k],
                                    prev_t[k],
                                ))
                        },
                    })
                }))
            }),
    {
        let uptime = match read_uptime(uptime_data) {
            Ok(v) => v,
            Err(e) => {
                return Err(e);
            },
        };
        let mut processes: Vec<ProcessInfo> = Vec::new();
        let mut num_threads = ThreadCount { tasks: 0, threads: 0, kernel_threads: 0 };
        let mut observed: Vec<i32> = Vec::new();
        let ghost ticks0 = self.spec_ticks();
        let ghost page0 = self.spec_page_size();
        let ghost m0 = self.prev();
        let ghost pt0 = self.prev_times();
        let ghost tc0 = num_threads;
        let ghost mut pairs: Seq<(int, Option<u64>)> = Seq::empty();
        let mut i: usize = 0;
        proof {
            assert(pairs + spec_pass(procs@, 0, m0, tc0, uptime, ticks0).0 =~= spec_pass(
                procs@,
                0,
                m0,
                tc0,
                uptime,
                ticks0,
            ).0);
        }
        while i < procs.len()
            invariant
                0 <= i <= procs@.len(),
                self.spec_ticks() == ticks0,
                self.spec_page_size() == page0,
                self.prev_times() == pt0,
                spec_pass_full(procs@, m0, uptime, ticks0) == ({
                    let rest = spec_pass(
                        procs@,
                        i as int,
                        self.prev(),
                        num_threads,
                        uptime,
                        ticks0,
                    );
                    (pairs + rest.0, rest.1, rest.2)
                }),
                tc0 == (ThreadCount { tasks: 0, threads: 0, kernel_threads: 0 }),
                processes@.len() == pairs.len(),
                observed@.len() == pairs.len(),
                forall|j: int| 0 <= j < pairs.len() ==> 0 <= #[trigger] pairs[j].0 < procs@.len(),
                forall|j: int|
                    0 <= j < pairs.len() ==> observed@[j] == procs@[#[trigger] pairs[j].0].tid,
                forall|j: int|
                    0 <= j < pairs.len() ==> process_record_matches(
                        #[trigger] processes@[j],
                        procs@[pairs[j].0],
                        pairs[j].1,
                        page0,
                    ),
            decreases procs@.len() - i,
        {
            let raw = &procs[i];
            let ghost m_before = self.prev();
            let ghost tc_before = num_threads;
            let got = self.get_process_info(raw, uptime, &mut num_threads);
            match got {
                Some(info) => {
                    proof {
                        let ob = spec_observe(
                            m_before,
                            raw.tid,
                            uptime,
                            spec_stat_cpu_used(raw.stat@),
                            ticks0,
                        );
                        let rest_next = spec_pass(
                            procs@,
                            i + 1,
                            ob.0,
                            spec_count_one(tc_before, procs@[i as int]),
                            uptime,
                            ticks0,
                        );
                        assert(spec_pass(procs@, i as int, m_before, tc_before, uptime, ticks0)
                            == (seq![(i as int, ob.1)] + rest_next.0, rest_next.1, rest_next.2));
                        assert(pairs + (seq![(i as int, ob.1)] + rest_next.0) =~= pairs.push(
                            (i as int, ob.1),
                        ) + rest_next.0);
                        pairs = pairs.push((i as int, ob.1));
                    }
                    processes.push(info);
                    observed.push(raw.tid);
                },
                None => {
                    proof {
                        assert(spec_pass(procs@, i as int, m_before, tc_before, uptime, ticks0)
                            == spec_pass(
                            procs@,
                            i + 1,
                            m_before,
                            tc_before,
                            uptime,
                            ticks0,
                        ));
                    }
                },
            }
            i = i + 1;
        }
        proof {
            assert(spec_pass(procs@, procs@.len() as int, self.prev(), num_threads, uptime, ticks0)
                == (Seq::<(int, Option<u64>)>::empty(), self.prev(), num_threads));
            assert(pairs + Seq::<(int, Option<u64>)>::empty() =~= pairs);
            assert(spec_pass_full(procs@, m0, uptime, ticks0).0 == pairs);
            assert(observed@ =~= spec_kept_ids(procs@, pairs));
        }
        self.prev_cpus.evict_stale(&observed);
        let load_avg = match LoadAvg::load(loadavg_data) {
            Ok(l) => l,
            Err(e) => {
                return Err(e);
            },
        };
        let cpu_time = match crate::proc::cputime::parse_cpu_times(stat_data) {
            Ok(c) => c,
            Err(e) => {
                return Err(e);
            },
        };
        let cpu_usage = if self.prev_cpu_time.len() > 0 {
            Some(crate::proc::cputime::cpu_usage_all(&cpu_time, &self.prev_cpu_time))
        } else {
            None
        };
        let mem_usage = match MemInfo::parse(meminfo_data) {
            Ok(m) => m,
            Err(e) => {
                return Err(e);
            },
        };
        self.prev_cpu_time = cpu_time;
        Ok(System { processes, num_threads, uptime, load_avg, cpu_usage, mem_usage })
    }
}

/// How many records from position `i` on are readable at all: their stat
/// line parses, so they survive into the snapshot.
pub open spec fn count_ok(procs: Seq<RawProcess>, i: int) -> nat
    decreases procs.len() - i,
{
    if i < 0 || i >= procs.len() {
        0
    } else {
        (if spec_stat_ok(procs[i].stat@) {
            1nat
        } else {
            0nat
        }) + count_ok(procs, i + 1)
    }
}

/// Snapshot completeness, record count: a pass keeps one record per
/// readable raw identity, no more and no fewer.
pub proof fn lemma_pass_len(
    procs: Seq<RawProcess>,
    i: int,
    m: Map<i32, PrevCpu>,
    tc: ThreadCount,
    uptime: u64,
    ticks: u64,
)
    ensures
        spec_pass(procs, i, m, tc, uptime, ticks).0.len() == count_ok(procs, i),
    decreases procs.len() - i,
{
    if 0 <= i < procs.len() {
        let raw = procs[i];
        if spec_stat_ok(raw.stat@) {
            let ob = spec_observe(m, raw.tid, uptime, spec_stat_cpu_used(raw.stat@), ticks);
            lemma_pass_len(procs, i + 1, ob.0, spec_count_one(tc, raw), uptime, ticks);
        } else {
            lemma_pass_len(procs, i + 1, m, tc, uptime, ticks);
        }
    }
}

/// How many records from position `i` on are readable top-level
/// identities: those whose stat line reads and whose identity equals its
/// parent's. Exactly these are counted as tasks or kernel threads.
pub open spec fn count_top_ok(procs: Seq<RawProcess>, i: int) -> nat
    decreases procs.len() - i,
{
    if i < 0 || i >= procs.len() {
        0
    } else {
        (if spec_stat_ok(procs[i].stat@) && procs[i].tid == procs[i].parent {
            1nat
        } else {
            0nat
        }) + count_top_ok(procs, i + 1)
    }
}

/// Snapshot completeness: as long as the counters cannot saturate, the
/// tasks and kernel threads of a pass add up to exactly the number of
/// readable top-level identities the pass observed — every such identity
/// lands in exactly one of the two counts.
pub proof fn lemma_snapshot_counts(
    procs: Seq<RawProcess>,
    i: int,
    m: Map<i32, PrevCpu>,
    tc: ThreadCount,
    uptime: u64,
    ticks: u64,
)
    requires
        tc.tasks + tc.kernel_threads + count_top_ok(procs, i) <= u32::MAX,
    ensures
        ({
            let full = spec_pass(procs, i, m, tc, uptime, ticks);
            full.2.tasks + full.2.kernel_threads == tc.tasks + tc.kernel_threads + count_top_ok(
                procs,
                i,
            )
        }),
    decreases procs.len() - i,
{
    if 0 <= i < procs.len() {
        let raw = procs[i];
        if spec_stat_ok(raw.stat@) {
            let ob = spec_observe(m, raw.tid, uptime, spec_stat_cpu_used(raw.stat@), ticks);
            let tc1 = spec_count_one(tc, raw);
            assert(tc1.tasks + tc1.kernel_threads == tc.tasks + tc.kernel_threads + (
            if raw.tid == raw.parent {
                1int
            } else {
                0int
            }));
            lemma_snapshot_counts(procs, i + 1, ob.0, tc1, uptime, ticks);
        } else {
            lemma_snapshot_counts(procs, i + 1, m, tc, uptime, ticks);
        }
    }
}

/// After the store was cleared — as a mode switch clears it — the very
/// next pass reports no percentage for any identity it observes: with
/// distinct identities and no retained baseline for any of them, every
/// observation of the pass is a first observation.
pub proof fn lemma_fresh_pass_all_unknown(
    procs: Seq<RawProcess>,
    i: int,
    m: Map<i32, PrevCpu>,
    tc: ThreadCount,
    uptime: u64,
    ticks: u64,
)
    requires
        forall|j: int, k: int|
            #![trigger procs[j], procs[k]]
            i <= j < k < procs.len() ==> procs[j].tid != procs[k].tid,
        forall|j: int| i <= j < procs.len() ==> !m.contains_key((#[trigger] procs[j]).tid),
    ensures
        forall|j: int|
            #![trigger spec_pass(procs, i, m, tc, uptime, ticks).0[j]]
            0 <= j < spec_pass(procs, i, m, tc, uptime, ticks).0.len() ==> spec_pass(
                procs,
                i,
                m,
                tc,
                uptime,
                ticks,
            ).0[j].1 is None,
    decreases procs.len() - i,
{
    if 0 <= i < procs.len() {
        let raw = procs[i];
        if spec_stat_ok(raw.stat@) {
            let ob = spec_observe(m, raw.tid, uptime, spec_stat_cpu_used(raw.stat@), ticks);
            assert(ob.1 is None);
            assert forall|j: int| i + 1 <= j < procs.len() implies !ob.0.contains_key(
                (#[trigger] procs[j]).tid,
            ) by {
                assert(procs[j].tid != raw.tid);
            }
            lemma_fresh_pass_all_unknown(
                procs,
                i + 1,
                ob.0,
                spec_count_one(tc, raw),
                uptime,
                ticks,
            );
        } else {
            lemma_fresh_pass_all_unknown(procs, i + 1, m, tc, uptime, ticks);
        }
    }
}

impl ProcessInfo {
    /// Assembles one identity's record: reads its stat line, cleans its
    /// command line, classifies it, and asks the store for the percentage
    /// since its last observation. Only the store changes, and only when
    /// the stat line reads.
    pub fn read(proc: &mut Proc, raw: &RawProcess, uptime: u64) -> (r: Result<ProcessInfo, Error>)
        ensures
            final(proc).spec_ticks() == old(proc).spec_ticks(),
            final(proc).spec_page_size() == old(proc).spec_page_size(),
            final(proc).prev_times() == old(proc).prev_times(),
            r is Ok <==> spec_stat_ok(raw.stat@),
            r is Err ==> r->Err_0 is StatParsing && final(proc).prev() == old(proc).prev(),
            r is Ok ==> {
                let ob = spec_observe(
                    old(proc).prev(),
                    raw.tid,
                    uptime,
                    spec_stat_cpu_used(raw.stat@),
                    old(proc).spec_ticks(),
                );
                &&& final(proc).prev() == ob.0
                &&& process_record_matches(r->Ok_0, *raw, ob.1, old(proc).spec_page_size())
            },
    {
        let stat = match Stat::from_str(raw.stat.as_slice()) {
            Ok(s) => s,
            Err(e) => {
                return Err(e);
            },
        };
        let cmdline = clean_cmdline(raw.cmdline.as_slice());
        let process_type = classify(raw.tid, raw.parent, cmdline.len() == 0);
        let cpu_usage = proc.prev_cpus.observe(raw.tid, uptime, stat.cpu_used, proc.ticks);
        let memory = match stat.memory_res.checked_mul(proc.page_size) {
            Some(v) => v,
            None => usize::MAX,
        };
        Ok(
            ProcessInfo {
                pid: raw.tid,
                uid: raw.uid,
                name: stat.name,
                state: stat.state,
                memory,
                virtual_memory: stat.memory_virtual,
                cpu_usage,
                cmdline,
                process_type,
                num_threads: stat.num_threads,
            },
        )
    }
}

} // verus!
