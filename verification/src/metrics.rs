//! Counters of completed work.

use vstd::prelude::*;
use crate::task::Kind;

verus! {

/// `x` reduced modulo the range of `usize`: what a `usize` counter shows
/// after adding up to `x` with wrap-around.
pub open spec fn wrap(x: int) -> int {
    x % (usize::MAX as int + 1)
}

/// Running totals of a simulation. Each counter adds with wrap-around, as an
/// atomic `fetch_add` does.
#[derive(Debug, Clone, Copy, PartialEq, Eq, Structural)]
pub struct Metrics {
    pub completed: usize,
    pub io_completed: usize,
    pub cpu_completed: usize,
    pub total_wait_ms: usize,
    pub total_turnaround_ms: usize,
    pub max_wait_ms: usize,
}

/// What recording one completion does to the metrics.
pub open spec fn metrics_step(m: Metrics, kind: Kind, wait_ms: usize, turnaround_ms: usize) -> Metrics {
    Metrics {
        completed: wrap(m.completed + 1) as usize,
        io_completed: if kind == Kind::Io { wrap(m.io_completed + 1) as usize } else { m.io_completed },
        cpu_completed: if kind == Kind::Cpu { wrap(m.cpu_completed + 1) as usize } else { m.cpu_completed },
        total_wait_ms: wrap(m.total_wait_ms + wait_ms) as usize,
        total_turnaround_ms: wrap(m.total_turnaround_ms + turnaround_ms) as usize,
        max_wait_ms: if wait_ms > m.max_wait_ms { wait_ms } else { m.max_wait_ms },
    }
}

/// The metrics after recording the completions `rs` (kind, wait, turnaround),
/// in order, from zero.
pub open spec fn metrics_after(rs: Seq<(Kind, usize, usize)>) -> Metrics
    decreases rs.len(),
{
    if rs.len() == 0 {
        Metrics {
            completed: 0,
            io_completed: 0,
            cpu_completed: 0,
            total_wait_ms: 0,
            total_turnaround_ms: 0,
            max_wait_ms: 0,
        }
    } else {
        let r = rs.last();
        metrics_step(metrics_after(rs.drop_last()), r.0, r.1, r.2)
    }
}

/// How many of the completions `rs` are of kind `k`.
pub open spec fn count_kind(rs: Seq<(Kind, usize, usize)>, k: Kind) -> nat
    decreases rs.len(),
{
    if rs.len() == 0 {
        0
    } else {
        count_kind(rs.drop_last(), k) + if rs.last().0 == k { 1nat } else { 0nat }
    }
}

/// The sum of the waits of the completions `rs`.
pub open spec fn sum_waits(rs: Seq<(Kind, usize, usize)>) -> nat
    decreases rs.len(),
{
    if rs.len() == 0 {
        0
    } else {
        sum_waits(rs.drop_last()) + rs.last().1 as nat
    }
}

/// The sum of the turnaround times of the completions `rs`.
pub open spec fn sum_turnarounds(rs: Seq<(Kind, usize, usize)>) -> nat
    decreases rs.len(),
{
    if rs.len() == 0 {
        0
    } else {
        sum_turnarounds(rs.drop_last()) + rs.last().2 as nat
    }
}

/// The longest wait among the completions `rs`, 0 for none.
pub open spec fn longest_wait(rs: Seq<(Kind, usize, usize)>) -> nat
    decreases rs.len(),
{
    if rs.len() == 0 {
        0
    } else {
        let m = longest_wait(rs.drop_last());
        if rs.last().1 > m { rs.last().1 as nat } else { m }
    }
}

impl Metrics {
    /// All counters at zero.
    pub fn new() -> (m: Metrics)
        ensures
            m == metrics_after(Seq::empty()),
            m.completed == 0,
            m.io_completed == 0,
            m.cpu_completed == 0,
            m.total_wait_ms == 0,
            m.total_turnaround_ms == 0,
            m.max_wait_ms == 0,
    {
        Metrics {
            completed: 0,
            io_completed: 0,
            cpu_completed: 0,
            total_wait_ms: 0,
            total_turnaround_ms: 0,
            max_wait_ms: 0,
        }
    }

    /// Records one finished task of kind `kind` that waited `wait_ms` before
    /// it started and took `turnaround_ms` from arrival to completion.
    pub fn record_completion(&mut self, kind: Kind, wait_ms: usize, turnaround_ms: usize)
        ensures
            *final(self) == metrics_step(*old(self), kind, wait_ms, turnaround_ms),
            old(self).completed < usize::MAX ==> final(self).completed == old(self).completed + 1,
            old(self).completed == usize::MAX ==> final(self).completed == 0,
            kind == Kind::Io && old(self).io_completed < usize::MAX ==> final(self).io_completed == old(self).io_completed + 1,
            kind == Kind::Io && old(self).io_completed == usize::MAX ==> final(self).io_completed == 0,
            kind == Kind::Io ==> final(self).cpu_completed == old(self).cpu_completed,
            kind == Kind::Cpu && old(self).cpu_completed < usize::MAX ==> final(self).cpu_completed == old(self).cpu_completed + 1,
            kind == Kind::Cpu && old(self).cpu_completed == usize::MAX ==> final(self).cpu_completed == 0,
            kind == Kind::Cpu ==> final(self).io_completed == old(self).io_completed,
            old(self).total_wait_ms + wait_ms <= usize::MAX ==> final(self).total_wait_ms == old(self).total_wait_ms + wait_ms,
            old(self).total_wait_ms + wait_ms > usize::MAX ==> final(self).total_wait_ms
                == old(self).total_wait_ms + wait_ms - usize::MAX - 1,
            old(self).total_turnaround_ms + turnaround_ms <= usize::MAX ==> final(self).total_turnaround_ms
                == old(self).total_turnaround_ms + turnaround_ms,
            old(self).total_turnaround_ms + turnaround_ms > usize::MAX ==> final(self).total_turnaround_ms
                == old(self).total_turnaround_ms + turnaround_ms - usize::MAX - 1,
            final(self).max_wait_ms >= wait_ms,
            final(self).max_wait_ms >= old(self).max_wait_ms,
            final(self).max_wait_ms == wait_ms || final(self).max_wait_ms == old(self).max_wait_ms,
    {
        proof {
            lemma_record_counts_once(*self, kind, wait_ms, turnaround_ms);
            lemma_wrapping_add_is_wrap(self.completed, 1);
            lemma_wrapping_add_is_wrap(self.io_completed, 1);
            lemma_wrapping_add_is_wrap(self.cpu_completed, 1);
            lemma_wrapping_add_is_wrap(self.total_wait_ms, wait_ms);
            lemma_wrapping_add_is_wrap(self.total_turnaround_ms, turnaround_ms);
        }
        self.completed = self.completed.wrapping_add(1);
        match kind {
            Kind::Io => {
                self.io_completed = self.io_completed.wrapping_add(1);
            },
            Kind::Cpu => {
                self.cpu_completed = self.cpu_completed.wrapping_add(1);
            },
        }
        self.total_wait_ms = self.total_wait_ms.wrapping_add(wait_ms);
        self.total_turnaround_ms = self.total_turnaround_ms.wrapping_add(turnaround_ms);
        if wait_ms > self.max_wait_ms {
            self.max_wait_ms = wait_ms;
        }
    }
}

proof fn lemma_wrapping_add_is_wrap(x: usize, y: usize)
    ensures
        vstd::wrapping::usize_specs::wrapping_add(x, y) == wrap(x + y),
{
    let r = usize::MAX as int + 1;
    if x + y > usize::MAX {
        vstd::arithmetic::div_mod::lemma_mod_sub_multiples_vanish(x + y - r, r);
        vstd::arithmetic::div_mod::lemma_small_mod((x + y - r) as nat, r as nat);
    } else {
        vstd::arithmetic::div_mod::lemma_small_mod((x + y) as nat, r as nat);
    }
}

proof fn lemma_wrap_add(a: int, b: int)
    requires
        a >= 0,
        b >= 0,
    ensures
        wrap(wrap(a) + b) == wrap(a + b),
        0 <= wrap(a) <= usize::MAX,
{
    let r = usize::MAX as int + 1;
    vstd::arithmetic::div_mod::lemma_add_mod_noop(a, b, r);
    vstd::arithmetic::div_mod::lemma_add_mod_noop(a % r, b, r);
    vstd::arithmetic::div_mod::lemma_mod_twice(a, r);
    vstd::arithmetic::div_mod::lemma_mod_bound(a, r);
}

/// Recording a completion counts it once overall and once for its kind,
/// adds its wait and turnaround to the totals (each counter wrapping to 0
/// past `usize::MAX`), and keeps the longest wait seen.
pub proof fn lemma_record_counts_once(m: Metrics, kind: Kind, wait_ms: usize, turnaround_ms: usize)
    ensures
        ({
            let n = metrics_step(m, kind, wait_ms, turnaround_ms);
            &&& n.completed == (if m.completed < usize::MAX { m.completed + 1 } else { 0 })
            &&& n.total_wait_ms == (if m.total_wait_ms + wait_ms <= usize::MAX {
                m.total_wait_ms + wait_ms
            } else {
                m.total_wait_ms + wait_ms - usize::MAX - 1
            })
            &&& n.total_turnaround_ms == (if m.total_turnaround_ms + turnaround_ms <= usize::MAX {
                m.total_turnaround_ms + turnaround_ms
            } else {
                m.total_turnaround_ms + turnaround_ms - usize::MAX - 1
            })
            &&& kind == Kind::Io ==> n.io_completed == (if m.io_completed < usize::MAX { m.io_completed + 1 } else { 0 })
                && n.cpu_completed == m.cpu_completed
            &&& kind == Kind::Cpu ==> n.cpu_completed == (if m.cpu_completed < usize::MAX { m.cpu_completed + 1 } else { 0 })
                && n.io_completed == m.io_completed
            &&& n.max_wait_ms >= wait_ms && n.max_wait_ms >= m.max_wait_ms
            &&& (n.max_wait_ms == wait_ms || n.max_wait_ms == m.max_wait_ms)
        }),
{
    lemma_wrap_small(m.completed + 1);
    lemma_wrap_small(m.io_completed + 1);
    lemma_wrap_small(m.cpu_completed + 1);
    lemma_wrap_small(m.total_wait_ms + wait_ms);
    lemma_wrap_small(m.total_turnaround_ms + turnaround_ms);
}

proof fn lemma_wrap_small(x: int)
    requires
        0 <= x <= 2 * usize::MAX as int,
    ensures
        x <= usize::MAX ==> wrap(x) == x,
        x > usize::MAX ==> wrap(x) == x - usize::MAX - 1,
{
    let r = usize::MAX as int + 1;
    if x <= usize::MAX {
        vstd::arithmetic::div_mod::lemma_small_mod(x as nat, r as nat);
    } else {
        vstd::arithmetic::div_mod::lemma_mod_sub_multiples_vanish(x - r, r);
        vstd::arithmetic::div_mod::lemma_small_mod((x - r) as nat, r as nat);
    }
}

/// Recording one more completion on the metrics of `rs` gives the metrics of
/// `rs` followed by that completion.
pub proof fn lemma_record_extends(rs: Seq<(Kind, usize, usize)>, kind: Kind, wait_ms: usize, turnaround_ms: usize)
    ensures
        metrics_step(metrics_after(rs), kind, wait_ms, turnaround_ms)
            == metrics_after(rs.push((kind, wait_ms, turnaround_ms))),
{
    assert(rs.push((kind, wait_ms, turnaround_ms)).drop_last() =~= rs);
}

/// The metrics summarize every completion recorded: the counts of all tasks
/// and of each kind, the summed waits and turnarounds (each modulo the range
/// of `usize`), and the longest wait; and the completed count is always the
/// IO count plus the CPU count.
pub proof fn lemma_metrics_summarize(rs: Seq<(Kind, usize, usize)>)
    ensures
        metrics_after(rs).completed == wrap(rs.len() as int),
        metrics_after(rs).io_completed == wrap(count_kind(rs, Kind::Io) as int),
        metrics_after(rs).cpu_completed == wrap(count_kind(rs, Kind::Cpu) as int),
        metrics_after(rs).total_wait_ms == wrap(sum_waits(rs) as int),
        metrics_after(rs).total_turnaround_ms == wrap(sum_turnarounds(rs) as int),
        metrics_after(rs).max_wait_ms == longest_wait(rs),
        metrics_after(rs).completed == wrap(
            metrics_after(rs).io_completed + metrics_after(rs).cpu_completed,
        ),
        count_kind(rs, Kind::Io) + count_kind(rs, Kind::Cpu) == rs.len(),
    decreases rs.len(),
{
    let r = usize::MAX as int + 1;
    if rs.len() == 0 {
        vstd::arithmetic::div_mod::lemma_small_mod(0, r as nat);
    } else {
        let prev = rs.drop_last();
        lemma_metrics_summarize(prev);
        lemma_wrap_add(prev.len() as int, 1);
        lemma_wrap_add(count_kind(prev, Kind::Io) as int, 1);
        lemma_wrap_add(count_kind(prev, Kind::Cpu) as int, 1);
        lemma_wrap_add(sum_waits(prev) as int, rs.last().1 as int);
        lemma_wrap_add(sum_turnarounds(prev) as int, rs.last().2 as int);
        let io = count_kind(rs, Kind::Io) as int;
        let cpu = count_kind(rs, Kind::Cpu) as int;
        // both counters, reduced, add up to the reduced total
        vstd::arithmetic::div_mod::lemma_add_mod_noop(io, cpu, r);
        vstd::arithmetic::div_mod::lemma_mod_bound(io, r);
        vstd::arithmetic::div_mod::lemma_mod_bound(cpu, r);
        vstd::arithmetic::div_mod::lemma_mod_bound(rs.len() as int, r);
    }
}

} // verus!
