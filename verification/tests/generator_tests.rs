use rand::rngs::StdRng;
use rand::{Rng, SeedableRng};
use sched_sim::config::Config;
use sched_sim::generator::{kind_for_draw, TaskGenerator};
use sched_sim::task::Kind;

fn config_with(total: usize, num: u32, den: u32) -> Config {
    let mut c = Config::default();
    c.total_tasks = total;
    c.io_numerator = num;
    c.io_denominator = den;
    c
}

#[test]
fn draw_decides_kind() {
    assert_eq!(kind_for_draw(true), Kind::Io);
    assert_eq!(kind_for_draw(false), Kind::Cpu);
}

#[test]
fn invalid_chances_are_refused() {
    assert!(TaskGenerator::new(&config_with(3, 1, 0)).is_none());
    assert!(TaskGenerator::new(&config_with(3, 6, 5)).is_none());
    assert!(TaskGenerator::new(&config_with(3, 0, 1)).is_some());
    assert!(TaskGenerator::new(&config_with(3, 5, 5)).is_some());
}

#[test]
fn a_run_of_no_tasks_takes_any_chance() {
    for (num, den) in [(6, 5), (1, 0), (0, 0)] {
        let mut g = TaskGenerator::new(&config_with(0, num, den)).unwrap();
        assert!(g.is_finished());
        assert!(g.next_task(0).is_none());
    }
}

#[test]
fn ids_run_in_order_up_to_the_total() {
    let mut g = TaskGenerator::new(&config_with(3, 1, 5)).unwrap();
    assert!(!g.is_finished());
    for id in 0..3 {
        let t = g.next_task(id as u64 * 10).unwrap();
        assert_eq!(t.id, id);
        assert_eq!(t.arrival_ns, id as u64 * 10);
        assert_eq!(t.cpu_cost, t.kind.cpu_cost());
    }
    assert!(g.is_finished());
    assert!(g.next_task(99).is_none());
    assert!(g.next_task(100).is_none());
}

#[test]
fn empty_run_is_finished_at_once() {
    let mut g = TaskGenerator::new(&config_with(0, 1, 5)).unwrap();
    assert!(g.is_finished());
    assert!(g.next_task(0).is_none());
}

#[test]
fn zero_chance_gives_only_cpu_tasks() {
    let mut g = TaskGenerator::new(&config_with(50, 0, 7)).unwrap();
    while let Some(t) = g.next_task(0) {
        assert_eq!(t.kind, Kind::Cpu);
    }
}

#[test]
fn certain_chance_gives_only_io_tasks() {
    let mut g = TaskGenerator::new(&config_with(50, 7, 7)).unwrap();
    while let Some(t) = g.next_task(0) {
        assert_eq!(t.kind, Kind::Io);
    }
}

#[test]
fn one_in_five_matches_a_twenty_percent_draw() {
    // The stream of kinds is the one that a 0.2 Bernoulli draw from the same
    // seed gives.
    let config = Config::default();
    let mut g = TaskGenerator::new(&config).unwrap();
    let mut rng = StdRng::seed_from_u64(config.seed);
    let mut io = 0;
    for _ in 0..config.total_tasks {
        let expected = if rng.random_bool(0.20) { Kind::Io } else { Kind::Cpu };
        let t = g.next_task(0).unwrap();
        assert_eq!(t.kind, expected);
        if t.kind == Kind::Io {
            io += 1;
        }
    }
    assert!(g.is_finished());
    // about a fifth of the tasks are IO tasks
    assert!(io > 120 && io < 280);
}

#[test]
fn same_seed_same_tasks() {
    let mut a = TaskGenerator::new(&config_with(100, 1, 2)).unwrap();
    let mut b = TaskGenerator::new(&config_with(100, 1, 2)).unwrap();
    for _ in 0..100 {
        assert_eq!(a.next_task(0).unwrap().kind, b.next_task(0).unwrap().kind);
    }
}
