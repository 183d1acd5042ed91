use sched_sim::budget::CpuBudget;

#[test]
fn acquire_within_budget() {
    let mut b = CpuBudget::new(100);
    assert_eq!(b.current_usage(), 0);
    assert!(b.try_acquire(35));
    assert!(b.try_acquire(35));
    assert_eq!(b.current_usage(), 70);
    // a third CPU task does not fit, an IO task does
    assert!(!b.try_acquire(35));
    assert_eq!(b.current_usage(), 70);
    assert!(b.try_acquire(10));
    assert!(b.try_acquire(10));
    assert!(b.try_acquire(10));
    assert_eq!(b.current_usage(), 100);
    assert!(!b.try_acquire(1));
    assert!(b.try_acquire(0));
}

#[test]
fn release_restores_usage() {
    let mut b = CpuBudget::new(100);
    assert!(b.try_acquire(35));
    assert!(b.try_acquire(10));
    b.release(10);
    assert_eq!(b.current_usage(), 35);
    b.release(35);
    assert_eq!(b.current_usage(), 0);
    // giving back more than is in use leaves nothing in use
    assert!(b.try_acquire(10));
    b.release(35);
    assert_eq!(b.current_usage(), 0);
}

#[test]
fn a_task_larger_than_the_budget_never_starts() {
    let mut b = CpuBudget::new(30);
    assert!(!b.try_acquire(35));
    assert_eq!(b.current_usage(), 0);
    let mut big = CpuBudget::new(usize::MAX);
    assert!(big.try_acquire(usize::MAX));
    assert!(!big.try_acquire(1));
}
