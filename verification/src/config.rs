//! Parameters of a simulation run.

use vstd::prelude::*;

verus! {

/// The knobs of a run. The chance that a generated task is an IO task is
/// `io_numerator / io_denominator`.
#[derive(Debug, Clone, Copy, PartialEq, Eq, Structural)]
pub struct Config {
    pub total_tasks: usize,
    pub num_workers: usize,
    pub io_numerator: u32,
    pub io_denominator: u32,
    pub cpu_budget: usize,
    pub monitor_tick_ms: u64,
    pub seed: u64,
}

impl Config {
    /// The IO chance is a probability: a nonzero denominator no smaller
    /// than the numerator.
    pub open spec fn valid_ratio(self) -> bool {
        &&& self.io_denominator > 0
        &&& self.io_numerator <= self.io_denominator
    }

    /// The standard run: 1000 tasks, 8 workers, an IO chance of 1 in 5
    /// (20%), a CPU budget of 100, a monitor tick of 10 ms and seed 42.
    pub fn default() -> (c: Config)
        ensures
            c.total_tasks == 1000,
            c.num_workers == 8,
            c.io_numerator == 1,
            c.io_denominator == 5,
            c.cpu_budget == 100,
            c.monitor_tick_ms == 10,
            c.seed == 42,
            c.valid_ratio(),
    {
        Config {
            total_tasks: 1000,
            num_workers: 8,
            io_numerator: 1,
            io_denominator: 5,
            cpu_budget: 100,
            monitor_tick_ms: 10,
            seed: 42,
        }
    }
}

} // verus!
