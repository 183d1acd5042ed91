use sched_sim::config::Config;
use sched_sim::task::{elapsed_ms, Kind, Task, TASK_DURATION_MS};

#[test]
fn kind_costs() {
    assert_eq!(Kind::Io.cpu_cost(), 10);
    assert_eq!(Kind::Cpu.cpu_cost(), 35);
}

#[test]
fn new_task_takes_the_cost_of_its_kind() {
    let t = Task::new(7, Kind::Cpu, 123);
    assert_eq!(t.id, 7);
    assert_eq!(t.kind, Kind::Cpu);
    assert_eq!(t.cpu_cost, 35);
    assert_eq!(t.duration_ms, 200);
    assert_eq!(t.duration_ms, TASK_DURATION_MS);
    assert_eq!(t.arrival_ns, 123);
    let u = Task::new(0, Kind::Io, 0);
    assert_eq!(u.cpu_cost, 10);
}

#[test]
fn elapsed_whole_milliseconds() {
    assert_eq!(elapsed_ms(1_000_000, 3_500_000), 2);
    assert_eq!(elapsed_ms(0, 999_999), 0);
    assert_eq!(elapsed_ms(0, 1_000_000), 1);
    assert_eq!(elapsed_ms(5, 5), 0);
    // an end before the start counts as no time
    assert_eq!(elapsed_ms(10_000_000, 1), 0);
    assert_eq!(elapsed_ms(0, u64::MAX), (u64::MAX / 1_000_000) as usize);
}

#[test]
fn default_config() {
    let c = Config::default();
    assert_eq!(c.total_tasks, 1000);
    assert_eq!(c.num_workers, 8);
    assert_eq!((c.io_numerator, c.io_denominator), (1, 5));
    assert_eq!(c.cpu_budget, 100);
    assert_eq!(c.monitor_tick_ms, 10);
    assert_eq!(c.seed, 42);
}
