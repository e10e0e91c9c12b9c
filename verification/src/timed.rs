//! Timed operations: latency measured from the first drive.
//!
//! A timed operation wraps one pending unit of work. Its clock starts when
//! the work is first driven, not when the wrapper is made. When the work
//! is over, with a value or with a failure, the operation yields one
//! outcome: the result and the time since that first drive. Yielding it
//! uses the operation up, so that each yields one outcome at most.

use vstd::prelude::*;
use crate::clock::{elapsed, elapsed_between};

verus! {

/// Whether a timed operation has been driven yet, and if so, since when.
#[derive(Clone, Copy, Debug, PartialEq, Eq, Structural)]
pub enum PolledState {
    /// Never driven: no instant is on record.
    Unpolled,
    /// First driven at this instant.
    Polled(u64),
}

/// A pending unit of work together with the record of its first drive.
/// Only driving puts an instant on record.
#[derive(Debug)]
pub struct TimekeepingFuture<F> {
    inner: F,
    state: PolledState,
}

/// What the wrapped work answered to one drive.
#[derive(Debug)]
pub enum InnerPoll<T, E> {
    /// The work is done and gave this value.
    Ready(T),
    /// The work is still pending.
    NotReady,
    /// The work failed with this cause.
    Failed(E),
}

/// The outcome of one request: its result, which is a value or the cause
/// of a failure, and the nanoseconds it took, counted from the first
/// drive.
#[derive(Debug)]
pub struct RequestOutcome<T, E> {
    pub result: Result<T, E>,
    pub elapsed: u64,
}

/// What a timed operation answers to one drive.
#[derive(Debug)]
pub enum TimedPoll<F, T, E> {
    /// The work is over; here is its outcome.
    Ready(RequestOutcome<T, E>),
    /// The work is still pending; here is the operation to drive again,
    /// with its first drive on record.
    NotReady(TimekeepingFuture<F>),
}

impl PolledState {
    /// The instant from which a drive at `now` measures: the instant on
    /// record, or `now` itself if this is the first drive.
    pub open spec fn started_at(self, now: u64) -> u64 {
        match self {
            PolledState::Unpolled => now,
            PolledState::Polled(first) => first,
        }
    }

    /// The state after a drive at `now` that left the work pending.
    pub open spec fn driven(self, now: u64) -> PolledState {
        PolledState::Polled(self.started_at(now))
    }

    /// The state after one such drive at each of `times`, in order.
    pub open spec fn driven_at_each(self, times: Seq<u64>) -> PolledState
        decreases times.len(),
    {
        if times.len() == 0 {
            self
        } else {
            self.driven_at_each(times.drop_last()).driven(times.last())
        }
    }

    /// The nanoseconds that a drive at `now` reports if the work is over
    /// on it.
    pub open spec fn reported(self, now: u64) -> u64 {
        elapsed_between(self.started_at(now), now) as u64
    }

    /// The outcome that a drive at `now` yields when the wrapped work
    /// answered `inner`, if it yields one. A value and a failure both end
    /// the work; the cause of a failure goes into the outcome as it came.
    pub open spec fn outcome<T, E>(self, now: u64, inner: InnerPoll<T, E>) -> Option<
        RequestOutcome<T, E>,
    > {
        match inner {
            InnerPoll::Ready(value) => Some(
                RequestOutcome { result: Ok(value), elapsed: self.reported(now) },
            ),
            InnerPoll::NotReady => None,
            InnerPoll::Failed(cause) => Some(
                RequestOutcome { result: Err(cause), elapsed: self.reported(now) },
            ),
        }
    }
}

impl<F> TimekeepingFuture<F> {
    /// The wrapped work.
    pub closed spec fn work(self) -> F {
        self.inner
    }

    /// Whether and when the work was first driven.
    pub closed spec fn polled(self) -> PolledState {
        self.state
    }

    /// The wrapped work, to look at.
    pub fn inner(&self) -> (work: &F)
        ensures
            *work == self.work(),
    {
        &self.inner
    }

    /// The wrapped work, to drive. The record of the first drive stays as
    /// it is.
    pub fn inner_mut(&mut self) -> (work: &mut F)
        ensures
            *work == old(self).work(),
            final(self).work() == *final(work),
            final(self).polled() == old(self).polled(),
    {
        &mut self.inner
    }

    /// Whether and when the work was first driven.
    pub fn state(&self) -> (state: PolledState)
        ensures
            state == self.polled(),
    {
        self.state
    }

    /// Accounts for one drive. The caller reads the clock, drives the
    /// wrapped work and hands in both. Work that is over, with a value or
    /// with a failure, yields its outcome. Work that is pending comes back
    /// to be driven again, with the instant of its first drive on record.
    pub fn record_poll<T, E>(self, now: u64, inner: InnerPoll<T, E>) -> (out: TimedPoll<F, T, E>)
        ensures
            match out {
                TimedPoll::Ready(outcome) => self.polled().outcome(now, inner) == Some(outcome),
                TimedPoll::NotReady(pending) => {
                    &&& self.polled().outcome(now, inner) is None
                    &&& pending.work() == self.work()
                    &&& pending.polled() == self.polled().driven(now)
                },
            },
    {
        let first: u64 = match self.state {
            PolledState::Unpolled => now,
            PolledState::Polled(first) => first,
        };
        match inner {
            InnerPoll::Ready(value) => TimedPoll::Ready(
                RequestOutcome { result: Ok(value), elapsed: elapsed(first, now) },
            ),
            InnerPoll::NotReady => TimedPoll::NotReady(
                TimekeepingFuture { inner: self.inner, state: PolledState::Polled(first) },
            ),
            InnerPoll::Failed(cause) => TimedPoll::Ready(
                RequestOutcome { result: Err(cause), elapsed: elapsed(first, now) },
            ),
        }
    }
}

/// Wraps `future` without driving it: no instant is recorded.
pub fn timekeeping<F>(future: F) -> (timed: TimekeepingFuture<F>)
    ensures
        timed.work() == future,
        timed.polled() == PolledState::Unpolled,
{
    TimekeepingFuture { inner: future, state: PolledState::Unpolled }
}

/// However often an operation is driven, the instant on record is that of
/// its first drive.
pub proof fn law_first_drive_is_remembered(times: Seq<u64>)
    requires
        times.len() > 0,
    ensures
        PolledState::Unpolled.driven_at_each(times) == PolledState::Polled(times[0]),
    decreases times.len(),
{
    if times.len() > 1 {
        law_first_drive_is_remembered(times.drop_last());
        assert(times.drop_last()[0] == times[0]);
    } else {
        assert(PolledState::Unpolled.driven_at_each(times.drop_last()) == PolledState::Unpolled);
    }
}

/// An operation that was driven at each of `times` and completes on a
/// further drive at `now` reports the time from its first drive to `now`,
/// whatever the number of drives in between.
pub proof fn law_elapsed_counts_from_first_drive<T, E>(times: Seq<u64>, now: u64, value: T)
    requires
        times.len() > 0,
    ensures
        PolledState::Unpolled.driven_at_each(times).outcome::<T, E>(now, InnerPoll::Ready(value))
            == Some(
            RequestOutcome::<T, E> {
                result: Ok(value),
                elapsed: elapsed_between(times[0], now) as u64,
            },
        ),
{
    law_first_drive_is_remembered(times);
}

/// An operation that was driven at each of `times` and fails on a further
/// drive at `now` yields an outcome all the same: the cause as it came,
/// and the time from the first drive to `now`.
pub proof fn law_failure_keeps_cause_and_time<T, E>(times: Seq<u64>, now: u64, cause: E)
    requires
        times.len() > 0,
    ensures
        PolledState::Unpolled.driven_at_each(times).outcome::<T, E>(now, InnerPoll::Failed(cause))
            == Some(
            RequestOutcome::<T, E> {
                result: Err(cause),
                elapsed: elapsed_between(times[0], now) as u64,
            },
        ),
{
    law_first_drive_is_remembered(times);
}

/// Work that is over on its very first drive, with a value or with a
/// failure, yields an outcome that reports no time.
pub proof fn law_first_drive_takes_no_time<T, E>(now: u64, value: T, cause: E)
    ensures
        PolledState::Unpolled.outcome::<T, E>(now, InnerPoll::Ready(value)) == Some(
            RequestOutcome::<T, E> { result: Ok(value), elapsed: 0 },
        ),
        PolledState::Unpolled.outcome::<T, E>(now, InnerPoll::Failed(cause)) == Some(
            RequestOutcome::<T, E> { result: Err(cause), elapsed: 0 },
        ),
{
}

/// Every drive yields an outcome or leaves the work pending, never both,
/// and an outcome is a failure exactly if the work failed.
pub proof fn law_outcome_tells_how_the_work_ended<T, E>(
    state: PolledState,
    now: u64,
    inner: InnerPoll<T, E>,
)
    ensures
        state.outcome(now, inner) is None <==> inner is NotReady,
        inner matches InnerPoll::Ready(value) ==> state.outcome(now, inner)->Some_0.result == Ok::<
            T,
            E,
        >(value),
        inner matches InnerPoll::Failed(cause) ==> state.outcome(now, inner)->Some_0.result
            == Err::<T, E>(cause),
{
}

/// Between two drives that are not earlier than the first, the reported
/// time grows by what the clock moved on.
pub proof fn law_reported_time_follows_the_clock(first: u64, earlier: u64, later: u64)
    requires
        first <= earlier <= later,
    ensures
        PolledState::Polled(first).reported(later) - PolledState::Polled(first).reported(earlier)
            == later - earlier,
{
}

} // verus!
