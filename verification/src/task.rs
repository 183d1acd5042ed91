//! Tasks and their kinds.

use vstd::prelude::*;

verus! {

/// Whether a task waits on input/output or computes.
#[derive(Debug, Clone, Copy, PartialEq, Eq, Structural)]
pub enum Kind {
    Io,
    Cpu,
}

/// Share of the CPU budget that a task of kind `k` holds while it runs.
pub open spec fn kind_cost(k: Kind) -> nat {
    match k {
        Kind::Io => 10,
        Kind::Cpu => 35,
    }
}

/// An IO task holds 10 of the CPU budget and a CPU task 35: more than three
/// times as much.
pub proof fn lemma_kind_costs()
    ensures
        kind_cost(Kind::Io) == 10,
        kind_cost(Kind::Cpu) == 35,
        3 * kind_cost(Kind::Io) < kind_cost(Kind::Cpu),
{
}

impl Kind {
    /// The CPU budget share of this kind: 10 for IO, 35 for CPU.
    pub fn cpu_cost(&self) -> (cost: usize)
        ensures
            cost == kind_cost(*self),
            *self == Kind::Io ==> cost == 10,
            *self == Kind::Cpu ==> cost == 35,
    {
        match self {
            Kind::Io => 10,
            Kind::Cpu => 35,
        }
    }
}

/// How long every task runs, in milliseconds.
pub const TASK_DURATION_MS: u64 = 200;

/// A unit of work. Times are plain numbers: `arrival_ns` counts nanoseconds
/// from the start of the simulation to the moment the task was created.
#[derive(Debug, Clone, Copy, PartialEq, Eq, Structural)]
pub struct Task {
    pub id: usize,
    pub kind: Kind,
    pub cpu_cost: usize,
    pub duration_ms: u64,
    pub arrival_ns: u64,
}

impl Task {
    /// A task is consistent when its cost is the cost of its kind.
    pub open spec fn well_formed(self) -> bool {
        self.cpu_cost == kind_cost(self.kind)
    }

    /// Creates task `id` of kind `kind`, arrived at `arrival_ns`; it costs what
    /// its kind costs and runs for `TASK_DURATION_MS`.
    pub fn new(id: usize, kind: Kind, arrival_ns: u64) -> (task: Task)
        ensures
            task.id == id,
            task.kind == kind,
            task.cpu_cost == kind_cost(kind),
            task.duration_ms == TASK_DURATION_MS,
            task.arrival_ns == arrival_ns,
            task.well_formed(),
    {
        Task { id, kind, cpu_cost: kind.cpu_cost(), duration_ms: TASK_DURATION_MS, arrival_ns }
    }
}

/// Whole milliseconds from `from_ns` to `to_ns`, or 0 when `to_ns` comes first,
/// as a `usize` (truncated where `usize` is narrower than the value).
pub open spec fn spec_elapsed_ms(from_ns: u64, to_ns: u64) -> usize {
    if to_ns >= from_ns {
        ((to_ns - from_ns) / 1_000_000) as usize
    } else {
        0
    }
}

/// Elapsed time counts whole milliseconds: `ms` of them fit in the interval
/// and `ms + 1` do not (where the count fits in a `usize`); an interval that
/// ends before it starts counts 0; and a later end never counts less.
pub proof fn lemma_elapsed_whole_ms(from_ns: u64, to_ns: u64, later_ns: u64)
    ensures
        to_ns < from_ns ==> spec_elapsed_ms(from_ns, to_ns) == 0,
        to_ns >= from_ns && (to_ns - from_ns) / 1_000_000 <= usize::MAX ==> {
            &&& spec_elapsed_ms(from_ns, to_ns) * 1_000_000 <= to_ns - from_ns
            &&& to_ns - from_ns < (spec_elapsed_ms(from_ns, to_ns) + 1) * 1_000_000
        },
        from_ns <= to_ns <= later_ns && (later_ns - from_ns) / 1_000_000 <= usize::MAX
            ==> spec_elapsed_ms(from_ns, to_ns) <= spec_elapsed_ms(from_ns, later_ns),
{
    if to_ns >= from_ns {
        let d = (to_ns - from_ns) as int;
        vstd::arithmetic::div_mod::lemma_fundamental_div_mod(d, 1_000_000);
        vstd::arithmetic::div_mod::lemma_mod_bound(d, 1_000_000);
        if to_ns <= later_ns {
            let e = (later_ns - from_ns) as int;
            vstd::arithmetic::div_mod::lemma_div_is_ordered(d, e, 1_000_000);
            vstd::arithmetic::div_mod::lemma_div_is_ordered(0, d, 1_000_000);
        }
    }
}

/// Milliseconds elapsed between two instants given in nanoseconds; an
/// instant earlier than the start gives 0.
pub fn elapsed_ms(from_ns: u64, to_ns: u64) -> (ms: usize)
    ensures
        ms == spec_elapsed_ms(from_ns, to_ns),
        to_ns < from_ns ==> ms == 0,
        to_ns >= from_ns && (to_ns - from_ns) / 1_000_000 <= usize::MAX ==> ms == (to_ns - from_ns)
            / 1_000_000,
{
    if to_ns >= from_ns {
        let d: u64 = (to_ns - from_ns) / 1_000_000;
        d as usize
    } else {
        0
    }
}

} // verus!
