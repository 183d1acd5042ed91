use std::collections::VecDeque;
use sched_sim::scheduler::{admits, dispatch, pick_task, prefers_io_first, should_stop};
use sched_sim::task::{Kind, Task};

fn io(id: usize) -> Task {
    Task::new(id, Kind::Io, 0)
}

fn cpu(id: usize) -> Task {
    Task::new(id, Kind::Cpu, 0)
}

fn ids(q: &VecDeque<Task>) -> Vec<usize> {
    q.iter().map(|t| t.id).collect()
}

#[test]
fn dispatch_routes_by_kind() {
    let mut io_q = VecDeque::new();
    let mut cpu_q = VecDeque::new();
    dispatch(io(0), &mut io_q, &mut cpu_q);
    dispatch(cpu(1), &mut io_q, &mut cpu_q);
    dispatch(io(2), &mut io_q, &mut cpu_q);
    assert_eq!(ids(&io_q), vec![0, 2]);
    assert_eq!(ids(&cpu_q), vec![1]);
    assert!(io_q.iter().all(|t| t.kind == Kind::Io));
    assert!(cpu_q.iter().all(|t| t.kind == Kind::Cpu));
}

#[test]
fn preferred_queue_first_then_the_other() {
    let mut io_q: VecDeque<Task> = VecDeque::from(vec![io(0), io(1)]);
    let mut cpu_q: VecDeque<Task> = VecDeque::from(vec![cpu(2)]);
    let mut prefer_io = true;
    assert_eq!(pick_task(&mut io_q, &mut cpu_q, &mut prefer_io).unwrap().id, 0);
    assert!(!prefer_io);
    assert_eq!(pick_task(&mut io_q, &mut cpu_q, &mut prefer_io).unwrap().id, 2);
    assert!(prefer_io);
    // preferring CPU with the CPU queue empty falls back to IO
    prefer_io = false;
    assert_eq!(pick_task(&mut io_q, &mut cpu_q, &mut prefer_io).unwrap().id, 1);
    assert!(prefer_io);
    assert!(pick_task(&mut io_q, &mut cpu_q, &mut prefer_io).is_none());
    assert!(!prefer_io);
    assert!(io_q.is_empty() && cpu_q.is_empty());
}

#[test]
fn no_kind_starves() {
    for start in [true, false] {
        let mut io_q: VecDeque<Task> = VecDeque::from(vec![io(0), io(1), io(2)]);
        let mut cpu_q: VecDeque<Task> = VecDeque::from(vec![cpu(3), cpu(4), cpu(5)]);
        let mut prefer_io = start;
        let a = pick_task(&mut io_q, &mut cpu_q, &mut prefer_io).unwrap();
        let b = pick_task(&mut io_q, &mut cpu_q, &mut prefer_io).unwrap();
        if start {
            assert_eq!((a.id, b.id), (0, 3));
        } else {
            assert_eq!((a.id, b.id), (3, 0));
        }
    }
}

#[test]
fn picks_conserve_tasks() {
    let mut io_q: VecDeque<Task> = VecDeque::from(vec![io(0), io(1)]);
    let mut cpu_q: VecDeque<Task> = VecDeque::from(vec![cpu(2), cpu(3), cpu(4)]);
    let mut prefer_io = true;
    let mut seen = Vec::new();
    while let Some(t) = pick_task(&mut io_q, &mut cpu_q, &mut prefer_io) {
        seen.push(t.id);
    }
    assert_eq!(seen, vec![0, 2, 1, 3, 4]);
}

#[test]
fn dispatched_into_empty_queues_comes_straight_back() {
    for prefer in [true, false] {
        let mut io_q = VecDeque::new();
        let mut cpu_q = VecDeque::new();
        dispatch(cpu(9), &mut io_q, &mut cpu_q);
        let mut prefer_io = prefer;
        assert_eq!(pick_task(&mut io_q, &mut cpu_q, &mut prefer_io).unwrap().id, 9);
        assert!(io_q.is_empty() && cpu_q.is_empty());
    }
}

#[test]
fn admission_within_budget() {
    assert!(admits(0, 35, 100));
    assert!(admits(65, 35, 100));
    assert!(!admits(66, 35, 100));
    assert!(!admits(0, 101, 100));
    assert!(admits(0, 0, 0));
    assert!(!admits(usize::MAX, 1, usize::MAX));
    assert!(!admits(1, usize::MAX, usize::MAX));
}

#[test]
fn worker_stops_only_when_all_is_done() {
    assert!(should_stop(true, true, true));
    assert!(!should_stop(false, true, true));
    assert!(!should_stop(true, false, true));
    assert!(!should_stop(true, true, false));
}

#[test]
fn workers_alternate_starting_preference() {
    assert!(prefers_io_first(0));
    assert!(!prefers_io_first(1));
    assert!(prefers_io_first(6));
    for w in 1..9 {
        assert_ne!(prefers_io_first(w), prefers_io_first(w - 1));
    }
}
