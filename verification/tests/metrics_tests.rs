use sched_sim::metrics::Metrics;
use sched_sim::monitor::{push_decimal, sample_totals, MonitorSample};
use sched_sim::task::Kind;

#[test]
fn new_metrics_are_zero() {
    let m = Metrics::new();
    assert_eq!(m.completed, 0);
    assert_eq!(m.io_completed, 0);
    assert_eq!(m.cpu_completed, 0);
    assert_eq!(m.total_wait_ms, 0);
    assert_eq!(m.total_turnaround_ms, 0);
    assert_eq!(m.max_wait_ms, 0);
}

#[test]
fn metrics_summarize_completions() {
    let mut m = Metrics::new();
    m.record_completion(Kind::Io, 30, 230);
    m.record_completion(Kind::Cpu, 50, 250);
    m.record_completion(Kind::Cpu, 10, 210);
    assert_eq!(m.completed, 3);
    assert_eq!(m.io_completed, 1);
    assert_eq!(m.cpu_completed, 2);
    assert_eq!(m.completed, m.io_completed + m.cpu_completed);
    assert_eq!(m.total_wait_ms, 90);
    assert_eq!(m.total_turnaround_ms, 690);
    assert_eq!(m.max_wait_ms, 50);
}

#[test]
fn counters_wrap_around() {
    let mut m = Metrics::new();
    m.total_wait_ms = usize::MAX;
    m.completed = usize::MAX;
    m.record_completion(Kind::Io, 2, 0);
    assert_eq!(m.total_wait_ms, 1);
    assert_eq!(m.completed, 0);
    assert_eq!(m.max_wait_ms, 2);
}

fn sample(ts: u128, cpu: usize, workers: usize, io: usize, cq: usize) -> MonitorSample {
    MonitorSample {
        timestamp_ms: ts,
        cpu_usage: cpu,
        active_workers: workers,
        io_queue_size: io,
        cpu_queue_size: cq,
    }
}

#[test]
fn totals_of_samples() {
    let samples = vec![sample(0, 10, 1, 0, 0), sample(10, 80, 3, 2, 5), sample(20, 100, 4, 0, 1)];
    assert_eq!(sample_totals(&samples), (190, 8));
    assert_eq!(sample_totals(&Vec::new()), (0, 0));
    let big = vec![sample(0, usize::MAX, usize::MAX, 0, 0); 3];
    assert_eq!(sample_totals(&big), (3 * usize::MAX as u128, 3 * usize::MAX as u128));
}

#[test]
fn decimal_digits() {
    for n in [0u128, 7, 10, 105, 1940, u128::MAX] {
        let mut out = b"x".to_vec();
        push_decimal(&mut out, n);
        assert_eq!(out, format!("x{}", n).into_bytes());
    }
}

#[test]
fn csv_line_of_a_sample() {
    let s = sample(1234, 80, 3, 0, 17);
    assert_eq!(s.csv_line(), b"1234,80,3,0,17\n".to_vec());
    let z = sample(0, 0, 0, 0, 0);
    assert_eq!(String::from_utf8(z.csv_line()).unwrap(), "0,0,0,0,0\n");
}
