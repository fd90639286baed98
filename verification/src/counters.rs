//! The performance-counter group: a fixed, ordered list of hardware and
//! software events, opened together so they can be enabled, disabled and
//! read as one atomic unit, and a verified lifecycle around the underlying
//! OS handles (opened, then enabled and disabled in alternation, read after
//! a disable; the handles are released when the group is dropped).

use perf_event::events::Hardware;
use perf_event::events::Software;
use vstd::prelude::*;

verus! {

/// Why a benchmark run cannot proceed.
#[derive(Clone, Copy, PartialEq, Eq, Structural, Debug)]
pub enum BenchError {
    /// The iteration-count text is not a base-10 number that fits in 64 bits.
    MalformedArgument,
    /// A requested counter could not be opened on this host.
    CounterUnavailable,
    /// A counter operation was applied in the wrong lifecycle state, or
    /// failed mid-run; the trial's data cannot be trusted.
    CounterStateError,
}

/// Hardware events, counted by the processor itself.
#[derive(Clone, Copy, PartialEq, Eq, Structural, Debug)]
pub enum HardwareKind {
    CpuCycles,
    Instructions,
    CacheReferences,
    CacheMisses,
    BranchInstructions,
    BranchMisses,
    RefCpuCycles,
}

/// Software events, counted by the kernel.
#[derive(Clone, Copy, PartialEq, Eq, Structural, Debug)]
pub enum SoftwareKind {
    CpuClock,
    TaskClock,
    PageFaults,
    ContextSwitches,
    CpuMigrations,
    PageFaultsMin,
    PageFaultsMaj,
}

/// One countable event.
#[derive(Clone, Copy, PartialEq, Eq, Structural, Debug)]
pub enum CounterKind {
    Hardware(HardwareKind),
    Software(SoftwareKind),
}

impl CounterKind {
    /// The column name this event reports under.
    pub open spec fn spec_name(self) -> Seq<char> {
        match self {
            CounterKind::Hardware(HardwareKind::CpuCycles) => "cpu_cycles"@,
            CounterKind::Hardware(HardwareKind::Instructions) => "instructions"@,
            CounterKind::Hardware(HardwareKind::CacheReferences) => "cache_references"@,
            CounterKind::Hardware(HardwareKind::CacheMisses) => "cache_missed"@,
            CounterKind::Hardware(HardwareKind::BranchInstructions) => "branch_instructions"@,
            CounterKind::Hardware(HardwareKind::BranchMisses) => "branch_misses"@,
            CounterKind::Hardware(HardwareKind::RefCpuCycles) => "ref_cpu_cycles"@,
            CounterKind::Software(SoftwareKind::CpuClock) => "cpu_clock"@,
            CounterKind::Software(SoftwareKind::TaskClock) => "task_clock"@,
            CounterKind::Software(SoftwareKind::PageFaults) => "page_faults"@,
            CounterKind::Software(SoftwareKind::ContextSwitches) => "context_switches"@,
            CounterKind::Software(SoftwareKind::CpuMigrations) => "cpu_migrations"@,
            CounterKind::Software(SoftwareKind::PageFaultsMin) => "page_faults_min"@,
            CounterKind::Software(SoftwareKind::PageFaultsMaj) => "page_faults_maj"@,
        }
    }

    /// The column name this event reports under.
    pub fn name(self) -> (r: &'static str)
        ensures
            r@ == self.spec_name(),
    {
        match self {
            CounterKind::Hardware(HardwareKind::CpuCycles) => "cpu_cycles",
            CounterKind::Hardware(HardwareKind::Instructions) => "instructions",
            CounterKind::Hardware(HardwareKind::CacheReferences) => "cache_references",
            CounterKind::Hardware(HardwareKind::CacheMisses) => "cache_missed",
            CounterKind::Hardware(HardwareKind::BranchInstructions) => "branch_instructions",
            CounterKind::Hardware(HardwareKind::BranchMisses) => "branch_misses",
            CounterKind::Hardware(HardwareKind::RefCpuCycles) => "ref_cpu_cycles",
            CounterKind::Software(SoftwareKind::CpuClock) => "cpu_clock",
            CounterKind::Software(SoftwareKind::TaskClock) => "task_clock",
            CounterKind::Software(SoftwareKind::PageFaults) => "page_faults",
            CounterKind::Software(SoftwareKind::ContextSwitches) => "context_switches",
            CounterKind::Software(SoftwareKind::CpuMigrations) => "cpu_migrations",
            CounterKind::Software(SoftwareKind::PageFaultsMin) => "page_faults_min",
            CounterKind::Software(SoftwareKind::PageFaultsMaj) => "page_faults_maj",
        }
    }
}

/// The fixed, ordered event list: the order fixes the CSV column order.
pub open spec fn spec_counter_list() -> Seq<CounterKind> {
    seq![
        CounterKind::Hardware(HardwareKind::CpuCycles),
        CounterKind::Hardware(HardwareKind::Instructions),
        CounterKind::Hardware(HardwareKind::CacheReferences),
        CounterKind::Hardware(HardwareKind::CacheMisses),
        CounterKind::Hardware(HardwareKind::BranchInstructions),
        CounterKind::Hardware(HardwareKind::BranchMisses),
        CounterKind::Hardware(HardwareKind::RefCpuCycles),
        CounterKind::Software(SoftwareKind::CpuClock),
        CounterKind::Software(SoftwareKind::TaskClock),
        CounterKind::Software(SoftwareKind::PageFaults),
        CounterKind::Software(SoftwareKind::ContextSwitches),
        CounterKind::Software(SoftwareKind::CpuMigrations),
        CounterKind::Software(SoftwareKind::PageFaultsMin),
        CounterKind::Software(SoftwareKind::PageFaultsMaj),
    ]
}

/// The fixed, ordered event list, as a vector.
pub fn counter_specs() -> (v: Vec<CounterKind>)
    ensures
        v@ == spec_counter_list(),
{
    let mut v: Vec<CounterKind> = Vec::new();
    v.push(CounterKind::Hardware(HardwareKind::CpuCycles));
    v.push(CounterKind::Hardware(HardwareKind::Instructions));
    v.push(CounterKind::Hardware(HardwareKind::CacheReferences));
    v.push(CounterKind::Hardware(HardwareKind::CacheMisses));
    v.push(CounterKind::Hardware(HardwareKind::BranchInstructions));
    v.push(CounterKind::Hardware(HardwareKind::BranchMisses));
    v.push(CounterKind::Hardware(HardwareKind::RefCpuCycles));
    v.push(CounterKind::Software(SoftwareKind::CpuClock));
    v.push(CounterKind::Software(SoftwareKind::TaskClock));
    v.push(CounterKind::Software(SoftwareKind::PageFaults));
    v.push(CounterKind::Software(SoftwareKind::ContextSwitches));
    v.push(CounterKind::Software(SoftwareKind::CpuMigrations));
    v.push(CounterKind::Software(SoftwareKind::PageFaultsMin));
    v.push(CounterKind::Software(SoftwareKind::PageFaultsMaj));
    proof {
        assert(v@ =~= spec_counter_list());
    }
    v
}

#[verifier::external_type_specification]
#[verifier::external_body]
pub struct ExPerfGroup(perf_event::Group);

#[verifier::external_type_specification]
#[verifier::external_body]
pub struct ExPerfCounter(perf_event::Counter);

#[verifier::external_type_specification]
#[verifier::external_body]
pub struct ExIoError(std::io::Error);

/// Relies on perf_event::Group::new: opens a new, empty counter group,
/// or reports the OS error.
#[verifier::external_body]
fn perf_group_new() -> (r: Result<perf_event::Group, std::io::Error>) {
    perf_event::Group::new()
}

/// Relies on perf_event::Builder::build with a hardware event: opens one
/// counter for `kind` as a member of `g`, or reports the OS error.
#[verifier::external_body]
fn perf_open_hw(g: &mut perf_event::Group, kind: &HardwareKind) -> (r: Result<
    perf_event::Counter,
    std::io::Error,
>) {
    let ev = match kind {
        HardwareKind::CpuCycles => Hardware::CPU_CYCLES,
        HardwareKind::Instructions => Hardware::INSTRUCTIONS,
        HardwareKind::CacheReferences => Hardware::CACHE_REFERENCES,
        HardwareKind::CacheMisses => Hardware::CACHE_MISSES,
        HardwareKind::BranchInstructions => Hardware::BRANCH_INSTRUCTIONS,
        HardwareKind::BranchMisses => Hardware::BRANCH_MISSES,
        HardwareKind::RefCpuCycles => Hardware::REF_CPU_CYCLES,
    };
    perf_event::Builder::new().group(g).kind(ev).build()
}

/// Relies on perf_event::Builder::build with a software event: opens one
/// counter for `kind` as a member of `g`, or reports the OS error.
#[verifier::external_body]
fn perf_open_sw(g: &mut perf_event::Group, kind: &SoftwareKind) -> (r: Result<
    perf_event::Counter,
    std::io::Error,
>) {
    let ev = match kind {
        SoftwareKind::CpuClock => Software::CPU_CLOCK,
        SoftwareKind::TaskClock => Software::TASK_CLOCK,
        SoftwareKind::PageFaults => Software::PAGE_FAULTS,
        SoftwareKind::ContextSwitches => Software::CONTEXT_SWITCHES,
        SoftwareKind::CpuMigrations => Software::CPU_MIGRATIONS,
        SoftwareKind::PageFaultsMin => Software::PAGE_FAULTS_MIN,
        SoftwareKind::PageFaultsMaj => Software::PAGE_FAULTS_MAJ,
    };
    perf_event::Builder::new().group(g).kind(ev).build()
}

/// Relies on perf_event::Group::enable: every member counter starts (or
/// resumes) counting together, or the OS error is reported.
#[verifier::external_body]
fn perf_enable(g: &mut perf_event::Group) -> (r: Result<(), std::io::Error>) {
    g.enable()
}

/// Relies on perf_event::Group::disable: every member counter stops
/// counting together, freezing its accumulated count, or the OS error is
/// reported.
#[verifier::external_body]
fn perf_disable(g: &mut perf_event::Group) -> (r: Result<(), std::io::Error>) {
    g.disable()
}

/// Relies on perf_event::Group::read and Counts::get: one atomic read of
/// the whole group, handing back each member's accumulated count, in the
/// order the members are handed in; a member the read did not cover comes
/// back as None. (Group::read itself checks the kernel-reported record
/// shape.)
#[verifier::external_body]
fn perf_read(g: &mut perf_event::Group, members: &Vec<perf_event::Counter>) -> (r: Result<
    Vec<Option<u64>>,
    std::io::Error,
>)
    ensures
        r is Ok ==> r->Ok_0@.len() == members@.len(),
{
    let counts = g.read()?;
    Ok(members.iter().map(|c| counts.get(c).copied()).collect())
}

/// The lifecycle state of a counter group.
#[derive(Clone, Copy, PartialEq, Eq, Structural, Debug)]
pub enum GroupState {
    /// Opened, never yet enabled: no counts accumulated.
    Opened,
    /// Counting.
    Enabled,
    /// Not counting; accumulated counts are frozen and readable.
    Disabled,
}

/// A group of performance counters that share one enable/disable schedule,
/// so that all values cover exactly the same window. The OS handles are
/// released when the group is dropped, on every exit path.
pub struct CounterGroup {
    group: perf_event::Group,
    members: Vec<perf_event::Counter>,
    state: GroupState,
}

impl CounterGroup {
    /// Where the group stands in its lifecycle.
    pub closed spec fn state(&self) -> GroupState {
        self.state
    }

    /// How many counters the group holds.
    pub closed spec fn n_counters(&self) -> int {
        self.members@.len() as int
    }

    /// Open one counter per requested event, all as members of one new
    /// group. Either every counter opens, or the whole operation fails
    /// with `CounterUnavailable` and no group exists.
    pub fn open(kinds: &Vec<CounterKind>) -> (r: Result<CounterGroup, BenchError>)
        ensures
            r is Ok ==> r->Ok_0.state() == GroupState::Opened && r->Ok_0.n_counters()
                == kinds@.len(),
            r is Err ==> r->Err_0 == BenchError::CounterUnavailable,
    {
        let mut group = match perf_group_new() {
            Ok(g) => g,
            Err(_) => {
                return Err(BenchError::CounterUnavailable);
            },
        };
        let mut members: Vec<perf_event::Counter> = Vec::new();
        let mut idx: usize = 0;
        while idx < kinds.len()
            invariant
                idx <= kinds@.len(),
                members@.len() == idx,
            decreases kinds@.len() - idx,
        {
            let res = match kinds[idx] {
                CounterKind::Hardware(h) => perf_open_hw(&mut group, &h),
                CounterKind::Software(s) => perf_open_sw(&mut group, &s),
            };
            match res {
                Ok(c) => {
                    members.push(c);
                },
                Err(_) => {
                    return Err(BenchError::CounterUnavailable);
                },
            }
            idx = idx + 1;
        }
        Ok(CounterGroup { group, members, state: GroupState::Opened })
    }

    /// Start counting. Fails with `CounterStateError` when already counting,
    /// or when the OS refuses; the lifecycle state is unchanged on failure.
    pub fn enable(&mut self) -> (r: Result<(), BenchError>)
        ensures
            final(self).n_counters() == old(self).n_counters(),
            r is Ok ==> final(self).state() == GroupState::Enabled && old(self).state()
                != GroupState::Enabled,
            r is Err ==> r->Err_0 == BenchError::CounterStateError && final(self).state() == old(
                self,
            ).state(),
            old(self).state() == GroupState::Enabled ==> r is Err,
    {
        match self.state {
            GroupState::Enabled => Err(BenchError::CounterStateError),
            _ => {
                match perf_enable(&mut self.group) {
                    Ok(_) => {
                        self.state = GroupState::Enabled;
                        Ok(())
                    },
                    Err(_) => Err(BenchError::CounterStateError),
                }
            },
        }
    }

    /// Stop counting, freezing the accumulated counts. Fails with
    /// `CounterStateError` when not counting, or when the OS refuses; the
    /// lifecycle state is unchanged on failure.
    pub fn disable(&mut self) -> (r: Result<(), BenchError>)
        ensures
            final(self).n_counters() == old(self).n_counters(),
            r is Ok ==> final(self).state() == GroupState::Disabled && old(self).state()
                == GroupState::Enabled,
            r is Err ==> r->Err_0 == BenchError::CounterStateError && final(self).state() == old(
                self,
            ).state(),
            old(self).state() != GroupState::Enabled ==> r is Err,
    {
        match self.state {
            GroupState::Enabled => {
                match perf_disable(&mut self.group) {
                    Ok(_) => {
                        self.state = GroupState::Disabled;
                        Ok(())
                    },
                    Err(_) => Err(BenchError::CounterStateError),
                }
            },
            _ => Err(BenchError::CounterStateError),
        }
    }

    /// Read the frozen counts: one value per counter, in the order the
    /// counters were requested. Only valid after a disable; any failure
    /// is `CounterStateError`.
    pub fn read(&mut self) -> (r: Result<Vec<u64>, BenchError>)
        ensures
            final(self).n_counters() == old(self).n_counters(),
            final(self).state() == old(self).state(),
            r is Ok ==> r->Ok_0@.len() == old(self).n_counters(),
            r is Err ==> r->Err_0 == BenchError::CounterStateError,
            old(self).state() != GroupState::Disabled ==> r is Err,
    {
        match self.state {
            GroupState::Disabled => {
                match perf_read(&mut self.group, &self.members) {
                    Ok(vals) => {
                        let mut out: Vec<u64> = Vec::new();
                        let mut k: usize = 0;
                        while k < vals.len()
                            invariant
                                k <= vals@.len(),
                                out@.len() == k,
                                self.state == old(self).state,
                                self.members@.len() == old(self).members@.len(),
                                vals@.len() == old(self).members@.len(),
                            decreases vals@.len() - k,
                        {
                            match vals[k] {
                                Some(v) => {
                                    out.push(v);
                                },
                                None => {
                                    return Err(BenchError::CounterStateError);
                                },
                            }
                            k = k + 1;
                        }
                        Ok(out)
                    },
                    Err(_) => Err(BenchError::CounterStateError),
                }
            },
            _ => Err(BenchError::CounterStateError),
        }
    }
}

} // verus!
