use analysis_backend::clock::{deadline, longer_than, monotonic_now, reading_from_parts};
use std::time::Instant;

#[test]
fn readings_from_spans() {
    assert_eq!(reading_from_parts(0, 0, 0), 0);
    assert_eq!(reading_from_parts(1, 5, 0), 1_000_000_005);
    assert_eq!(reading_from_parts(1, 5, 2_000_000_000), 2_000_000_000);
    assert_eq!(reading_from_parts(18_446_744_073, 709_551_615, 0), u64::MAX);
    assert_eq!(reading_from_parts(18_446_744_073, 709_551_616, 0), u64::MAX);
    assert_eq!(reading_from_parts(u64::MAX, 999_999_999, 0), u64::MAX);
    assert_eq!(reading_from_parts(0, u32::MAX, 0), u32::MAX as u64);
}

#[test]
fn the_clock_does_not_run_backwards() {
    let origin = Instant::now();
    let first = monotonic_now(&origin, 0);
    let second = monotonic_now(&origin, first);
    assert!(second >= first);
    assert_eq!(monotonic_now(&origin, u64::MAX), u64::MAX);
}

#[test]
fn deadlines_and_spans() {
    assert_eq!(deadline(5, 2), 2_000_000_005);
    assert_eq!(deadline(u64::MAX, 1), u64::MAX);
    assert_eq!(deadline(0, u64::MAX), u64::MAX);
    assert!(!longer_than(0, 60_000_000_000, 60));
    assert!(longer_than(0, 60_000_000_001, 60));
    assert!(!longer_than(10, 5, 0));
    assert!(longer_than(5, 10, 0));
}
