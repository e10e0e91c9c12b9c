use overpower::timed::{
    timekeeping, InnerPoll, PolledState, RequestOutcome, TimedPoll, TimekeepingFuture,
};

fn ready<F, T, E>(out: TimedPoll<F, T, E>) -> RequestOutcome<T, E> {
    match out {
        TimedPoll::Ready(outcome) => outcome,
        TimedPoll::NotReady(_) => panic!("the operation should be over"),
    }
}

fn pending<F, T, E>(out: TimedPoll<F, T, E>) -> TimekeepingFuture<F> {
    match out {
        TimedPoll::NotReady(op) => op,
        TimedPoll::Ready(_) => panic!("the operation should be pending"),
    }
}

#[test]
fn wrapping_records_nothing() {
    let op = timekeeping("work");
    assert_eq!(op.state(), PolledState::Unpolled);
    assert_eq!(*op.inner(), "work");
}

#[test]
fn first_drive_records_its_instant() {
    let op = timekeeping(());
    let op = pending(op.record_poll::<u8, u8>(17, InnerPoll::NotReady));
    assert_eq!(op.state(), PolledState::Polled(17));
}

#[test]
fn elapsed_counts_from_the_first_drive() {
    let mut op = timekeeping(());
    for now in [100, 250, 900] {
        op = pending(op.record_poll::<u8, u8>(now, InnerPoll::NotReady));
        assert_eq!(op.state(), PolledState::Polled(100));
    }
    let outcome = ready(op.record_poll::<u8, u8>(1_500, InnerPoll::Ready(200)));
    assert_eq!(outcome.result, Ok(200));
    assert_eq!(outcome.elapsed, 1_400);
}

#[test]
fn immediate_completion_takes_no_time() {
    let op = timekeeping(());
    let outcome = ready(op.record_poll::<&str, u8>(77, InnerPoll::Ready("done")));
    assert_eq!(outcome.result, Ok("done"));
    assert_eq!(outcome.elapsed, 0);
}

#[test]
fn failure_is_passed_on_untouched() {
    let op = timekeeping(());
    let op = pending(op.record_poll::<u8, String>(5, InnerPoll::NotReady));
    let outcome = ready(op.record_poll::<u8, String>(9, InnerPoll::Failed("refused".to_string())));
    assert_eq!(outcome.result, Err("refused".to_string()));
    assert_eq!(outcome.elapsed, 4);
}

#[test]
fn failure_on_the_first_drive_is_passed_on() {
    let outcome = ready(timekeeping(()).record_poll::<u8, u32>(5, InnerPoll::Failed(404)));
    assert_eq!(outcome.result, Err(404));
    assert_eq!(outcome.elapsed, 0);
}

#[test]
fn failure_after_many_drives_counts_from_the_first() {
    let mut op = timekeeping(());
    for now in [1_000, 2_000, 7_000] {
        op = pending(op.record_poll::<u8, &str>(now, InnerPoll::NotReady));
    }
    let outcome = ready(op.record_poll::<u8, &str>(9_500, InnerPoll::Failed("timed out")));
    assert_eq!(outcome.result, Err("timed out"));
    assert_eq!(outcome.elapsed, 8_500);
}

#[test]
fn clock_reading_before_the_first_drive_counts_as_no_time() {
    let op = timekeeping(());
    let op = pending(op.record_poll::<u8, u8>(500, InnerPoll::NotReady));
    let op = pending(op.record_poll::<u8, u8>(400, InnerPoll::NotReady));
    assert_eq!(op.state(), PolledState::Polled(500));
    let outcome = ready(op.record_poll::<u8, u8>(400, InnerPoll::Ready(1)));
    assert_eq!(outcome.elapsed, 0);
}

#[test]
fn driving_keeps_the_wrapped_work() {
    let op = timekeeping(vec![1, 2, 3]);
    let op = pending(op.record_poll::<u8, u8>(1, InnerPoll::NotReady));
    assert_eq!(op.inner(), &vec![1, 2, 3]);
    let op = pending(op.record_poll::<u8, u8>(2, InnerPoll::NotReady));
    assert_eq!(op.inner(), &vec![1, 2, 3]);
}

#[test]
fn wrapped_work_can_be_driven_in_place() {
    let mut op = timekeeping(vec![1]);
    op.inner_mut().push(2);
    assert_eq!(op.inner(), &vec![1, 2]);
    assert_eq!(op.state(), PolledState::Unpolled);
    let mut op = pending(op.record_poll::<u8, u8>(30, InnerPoll::NotReady));
    op.inner_mut().push(3);
    assert_eq!(op.inner(), &vec![1, 2, 3]);
    assert_eq!(op.state(), PolledState::Polled(30));
}

#[test]
fn largest_span_is_reported_in_full() {
    let op = timekeeping(());
    let op = pending(op.record_poll::<u8, u8>(0, InnerPoll::NotReady));
    let outcome = ready(op.record_poll::<u8, u8>(u64::MAX, InnerPoll::Ready(1)));
    assert_eq!(outcome.elapsed, u64::MAX);
}
