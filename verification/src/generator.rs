//! The task generator: a seeded random stream decides the kind of each task.

use vstd::prelude::*;
use rand::rngs::StdRng;
use crate::config::Config;
use crate::task::{Kind, Task, kind_cost, TASK_DURATION_MS};

verus! {

#[verifier::external_type_specification]
#[verifier::external_body]
pub struct ExStdRng(StdRng);

/// Calls `StdRng::seed_from_u64` (rand_core's `SeedableRng`). The generator
/// is opaque here, so nothing is claimed of it.
#[verifier::external_body]
fn seeded_rng(seed: u64) -> (rng: StdRng) {
    <StdRng as rand::SeedableRng>::seed_from_u64(seed)
}

/// Calls `Rng::random_ratio(rng, numerator, denominator)`: `true` with chance
/// `numerator / denominator`. rand panics unless `0 < denominator` and
/// `numerator <= denominator`, so those are required. Its source returns
/// `false` whenever `numerator == 0` and `true` whenever
/// `numerator == denominator`; what it returns otherwise depends on the
/// generator's state and is left unsaid. Within those bounds it does not panic.
#[verifier::external_body]
fn random_ratio(rng: &mut StdRng, numerator: u32, denominator: u32) -> (b: bool)
    requires
        denominator > 0,
        numerator <= denominator,
    ensures
        numerator == 0 ==> !b,
        numerator == denominator ==> b,
    no_unwind
{
    rand::Rng::random_ratio(rng, numerator, denominator)
}

/// The kind of a task, given whether the random draw picked IO.
pub fn kind_for_draw(draw_is_io: bool) -> (k: Kind)
    ensures
        k == (if draw_is_io { Kind::Io } else { Kind::Cpu }),
{
    if draw_is_io {
        Kind::Io
    } else {
        Kind::Cpu
    }
}

/// Produces the tasks of a run in order: ids 0, 1, ... up to the configured
/// total, each of a kind drawn from a generator seeded with the run's seed.
pub struct TaskGenerator {
    rng: StdRng,
    next_id: usize,
    total: usize,
    io_numerator: u32,
    io_denominator: u32,
}

impl TaskGenerator {
    #[verifier::type_invariant]
    spec fn inv(self) -> bool {
        &&& self.next_id <= self.total
        &&& self.total > 0 ==> {
            &&& self.io_denominator > 0
            &&& self.io_numerator <= self.io_denominator
        }
    }

    /// Id of the next task to be produced, which is also how many were produced.
    pub closed spec fn issued(&self) -> nat {
        self.next_id as nat
    }

    /// How many tasks the run produces.
    pub closed spec fn total(&self) -> nat {
        self.total as nat
    }

    /// The IO chance's numerator.
    pub closed spec fn io_numerator(&self) -> nat {
        self.io_numerator as nat
    }

    /// The IO chance's denominator.
    pub closed spec fn io_denominator(&self) -> nat {
        self.io_denominator as nat
    }

    /// A generator for `config`, seeded with `config.seed`; `None` when the run
    /// has tasks to draw and the IO chance of `config` is no probability. A run
    /// of no tasks never draws, so any chance will do for it.
    pub fn new(config: &Config) -> (g: Option<TaskGenerator>)
        ensures
            g is Some <==> (config.total_tasks == 0 || config.valid_ratio()),
            g is Some <==> (config.total_tasks == 0 || (config.io_denominator > 0
                && config.io_numerator <= config.io_denominator)),
            g matches Some(g) ==> {
                &&& g.issued() == 0
                &&& g.total() == config.total_tasks
                &&& g.io_numerator() == config.io_numerator
                &&& g.io_denominator() == config.io_denominator
            },
    {
        if config.total_tasks > 0 && (config.io_denominator == 0
            || config.io_numerator > config.io_denominator) {
            return None;
        }
        Some(TaskGenerator {
            rng: seeded_rng(config.seed),
            next_id: 0,
            total: config.total_tasks,
            io_numerator: config.io_numerator,
            io_denominator: config.io_denominator,
        })
    }

    /// Whether every task of the run was produced.
    pub fn is_finished(&self) -> (b: bool)
        ensures
            b == (self.issued() == self.total()),
    {
        self.next_id == self.total
    }

    /// Produces the next task, arrived at `arrival_ns`, and `None` once all
    /// were produced. The task carries the next id; its kind is IO with the
    /// configured chance, never IO when that chance is 0 and always IO when
    /// it is 1.
    pub fn next_task(&mut self, arrival_ns: u64) -> (t: Option<Task>)
        ensures
            final(self).total() == old(self).total(),
            final(self).io_numerator() == old(self).io_numerator(),
            final(self).io_denominator() == old(self).io_denominator(),
            t is None <==> old(self).issued() == old(self).total(),
            t is None ==> final(self).issued() == old(self).issued(),
            t matches Some(t) ==> {
                &&& final(self).issued() == old(self).issued() + 1
                &&& t.id == old(self).issued()
                &&& t.cpu_cost == kind_cost(t.kind)
                &&& t.duration_ms == TASK_DURATION_MS
                &&& t.arrival_ns == arrival_ns
                &&& old(self).io_numerator() == 0 ==> t.kind == Kind::Cpu
                &&& old(self).io_numerator() == old(self).io_denominator() ==> t.kind == Kind::Io
            },
    {
        proof {
            use_type_invariant(&*self);
        }
        if self.next_id == self.total {
            return None;
        }
        let draw = random_ratio(&mut self.rng, self.io_numerator, self.io_denominator);
        let kind = kind_for_draw(draw);
        let task = Task::new(self.next_id, kind, arrival_ns);
        self.next_id = self.next_id + 1;
        Some(task)
    }
}

} // verus!
