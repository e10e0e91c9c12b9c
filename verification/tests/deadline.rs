use overpower::clock::{elapsed, reading, NANOS_PER_SEC};
use overpower::deadline::{check_deadline, Deadline};
use overpower::duration::RunDuration;

#[test]
fn elapsed_is_the_difference() {
    assert_eq!(elapsed(10, 35), 25);
    assert_eq!(elapsed(0, u64::MAX), u64::MAX);
    assert_eq!(elapsed(7, 7), 0);
}

#[test]
fn elapsed_never_goes_negative() {
    assert_eq!(elapsed(35, 10), 0);
    assert_eq!(elapsed(u64::MAX, 0), 0);
}

#[test]
fn deadline_boundary_is_inclusive() {
    let one = RunDuration::from_secs(1);
    assert_eq!(check_deadline(5, 5 + NANOS_PER_SEC - 1, one), Deadline::Continue);
    assert_eq!(check_deadline(5, 5 + NANOS_PER_SEC, one), Deadline::Stop);
    assert_eq!(check_deadline(5, 5 + NANOS_PER_SEC + 1, one), Deadline::Stop);
}

#[test]
fn zero_duration_stops_at_once() {
    let none = RunDuration::from_secs(0);
    assert_eq!(check_deadline(100, 100, none), Deadline::Stop);
    assert_eq!(check_deadline(100, 50, none), Deadline::Stop);
}

#[test]
fn reading_before_start_counts_as_no_time() {
    assert_eq!(check_deadline(100, 50, RunDuration::from_secs(1)), Deadline::Continue);
}

#[test]
fn duration_beyond_the_clock_never_stops() {
    let long = RunDuration::from_secs(u64::MAX);
    assert_eq!(check_deadline(0, u64::MAX, long), Deadline::Continue);
    // 18 446 744 073 s is the last whole second the clock can reach.
    assert_eq!(check_deadline(0, u64::MAX, RunDuration::from_secs(18_446_744_073)), Deadline::Stop);
    assert_eq!(
        check_deadline(0, u64::MAX, RunDuration::from_secs(18_446_744_074)),
        Deadline::Continue
    );
}

#[test]
fn reading_joins_seconds_and_nanoseconds() {
    assert_eq!(reading(0, 0), 0);
    assert_eq!(reading(0, 999_999_999), 999_999_999);
    assert_eq!(reading(3, 250), 3_000_000_250);
    // A span may carry more than a second in its nanoseconds.
    assert_eq!(reading(1, 2_500_000_000), 3_500_000_000);
}

#[test]
fn reading_ends_at_the_last_instant() {
    assert_eq!(reading(18_446_744_073, 709_551_615), u64::MAX);
    assert_eq!(reading(18_446_744_073, 709_551_614), u64::MAX - 1);
    assert_eq!(reading(18_446_744_073, 709_551_616), u64::MAX);
    assert_eq!(reading(18_446_744_074, 0), u64::MAX);
    assert_eq!(reading(u64::MAX, u32::MAX), u64::MAX);
}
