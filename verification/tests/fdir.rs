use std::time::Duration;

use satrs::fdir::FaultCounterStd;

fn sleep_for(duration: Duration) {
    let start = std::time::Instant::now();
    while start.elapsed() < duration {
        std::hint::spin_loop();
    }
}

#[test]
fn threshold_not_exceeded_below_limit() {
    let mut fc = FaultCounterStd::new(2, Duration::from_secs(60));
    assert!(!fc.increment_and_check());
    assert!(!fc.increment_and_check());
    assert_eq!(fc.fault_count(), 2);
}

#[test]
fn threshold_exceeded_resets_counter() {
    let mut fc = FaultCounterStd::new(2, Duration::from_secs(60));
    fc.increment_n(3);
    assert!(fc.above_threshold());
    assert_eq!(fc.fault_count(), 0);
    assert!(!fc.above_threshold());
}

#[test]
fn decrement_only_after_timeout() {
    let mut fc = FaultCounterStd::new(5, Duration::from_millis(20));
    fc.increment();
    assert!(!fc.try_decrement());
    sleep_for(Duration::from_millis(30));
    assert!(fc.try_decrement());
    assert_eq!(fc.fault_count(), 0);
}

#[test]
fn decrement_noop_when_empty() {
    let mut fc = FaultCounterStd::new(5, Duration::from_millis(1));
    sleep_for(Duration::from_millis(2));
    assert!(!fc.try_decrement());
}

#[test]
fn increment_after_empty_resets_decrement_timing() {
    let mut fc = FaultCounterStd::new(5, Duration::from_millis(20));
    fc.increment();
    sleep_for(Duration::from_millis(30));
    assert!(fc.try_decrement());
    // Counter is 0 again, incrementing should require a fresh decrement_after wait.
    fc.increment();
    assert!(!fc.try_decrement());
}

#[test]
fn clear_resets_state() {
    let mut fc = FaultCounterStd::new(1, Duration::from_secs(60));
    fc.increment_n(2);
    fc.clear();
    assert_eq!(fc.fault_count(), 0);
    assert!(!fc.above_threshold());
}

#[test]
fn threshold_setters_apply() {
    let mut fc = FaultCounterStd::new(10, Duration::from_secs(60));
    fc.increment_n(3);
    assert!(!fc.above_threshold());
    fc.set_failure_threshold(2);
    assert!(fc.above_threshold());
    fc.set_decrement_after(Duration::from_millis(0));
    fc.increment();
    assert!(fc.try_decrement());
}

#[test]
fn decrement_is_due_at_once_with_zero_interval() {
    let mut counter = FaultCounterStd::new(5, Duration::ZERO);
    counter.increment();
    counter.increment();
    assert!(counter.try_decrement());
    assert_eq!(counter.fault_count(), 1);
    assert!(counter.try_decrement());
    assert_eq!(counter.fault_count(), 0);
    assert!(!counter.try_decrement());
}

#[test]
fn duration_parts_compare_seconds_then_nanoseconds() {
    assert!(satrs::time::duration_parts_ge(2, 0, 1, 999_999_999));
    assert!(satrs::time::duration_parts_ge(1, 5, 1, 5));
    assert!(!satrs::time::duration_parts_ge(1, 4, 1, 5));
    assert!(!satrs::time::duration_parts_ge(0, 999_999_999, 1, 0));
}

#[test]
fn decrement_at_given_instant_restarts_clock_there() {
    let mut fc = FaultCounterStd::new(5, Duration::from_secs(10));
    let start = std::time::Instant::now();
    fc.increment_at(start);
    fc.increment_at(start);
    assert!(!fc.try_decrement_at(Duration::from_secs(9), start));
    assert_eq!(fc.fault_count(), 2);
    let later = start + Duration::from_secs(10);
    assert!(fc.try_decrement_at(Duration::from_secs(10), later));
    assert_eq!(fc.fault_count(), 1);
    assert_eq!(fc.last_decrement(), Some(later));
}

#[test]
fn increment_n_at_starts_clock_only_from_zero() {
    let mut fc = FaultCounterStd::new(10, Duration::from_secs(10));
    let start = std::time::Instant::now();
    fc.increment_n_at(0, start);
    assert_eq!(fc.last_decrement(), None);
    fc.increment_n_at(3, start);
    assert_eq!(fc.fault_count(), 3);
    assert_eq!(fc.last_decrement(), Some(start));
    fc.increment_n_at(2, start + Duration::from_secs(1));
    assert_eq!(fc.fault_count(), 5);
    assert_eq!(fc.last_decrement(), Some(start));
}

#[test]
fn increment_n_matches_single_increments() {
    let mut bulk = FaultCounterStd::new(10, Duration::from_secs(60));
    let mut single = FaultCounterStd::new(10, Duration::from_secs(60));
    bulk.increment_n(3);
    for _ in 0..3 {
        single.increment();
    }
    assert_eq!(bulk.fault_count(), single.fault_count());
    assert!(bulk.last_decrement().is_some());
    assert!(single.last_decrement().is_some());
    let start = std::time::Instant::now();
    let mut at = FaultCounterStd::new(10, Duration::from_secs(60));
    at.increment_at(start);
    at.increment_at(start + Duration::from_secs(1));
    let mut at_n = FaultCounterStd::new(10, Duration::from_secs(60));
    at_n.increment_n_at(2, start);
    assert_eq!(at.fault_count(), at_n.fault_count());
    assert_eq!(at.last_decrement(), at_n.last_decrement());
}
