//! The arrival schedule as a mathematical object: what a scheduler knows
//! between two ticks, and what one tick makes of it.

use vstd::prelude::*;
use crate::clock::{elapsed_between, NANOS_PER_SEC};
use crate::duration::RunDuration;
use crate::deadline::deadline_reached;

verus! {

/// The scheduler's verdict on one tick.
#[derive(Clone, Copy, Debug, PartialEq, Eq, Structural)]
pub enum Tick {
    /// Dispatch a request now.
    Admit,
    /// Too soon after the last admission; dispatch nothing.
    Skip,
    /// The run is over; no request is admitted any more.
    Stop,
}

/// Whether `later` lies more than one `rate`-th of a second after
/// `earlier`. The comparison is exact: the gap in nanoseconds times the
/// rate against the nanoseconds of one second.
pub open spec fn spaced(earlier: u64, later: u64, rate: u32) -> bool {
    elapsed_between(earlier, later) * rate > NANOS_PER_SEC
}

/// Whether an admission at `arrival` is at most one second old at `now`.
pub open spec fn is_recent(arrival: u64, now: u64) -> bool {
    elapsed_between(arrival, now) <= NANOS_PER_SEC
}

/// How many admissions at the front of `arrivals` are more than one
/// second old at `now`.
pub open spec fn stale_front(arrivals: Seq<u64>, now: u64) -> nat
    decreases arrivals.len(),
{
    if arrivals.len() == 0 || is_recent(arrivals[0], now) {
        0
    } else {
        1 + stale_front(arrivals.skip(1), now)
    }
}

/// The state of a run between two ticks.
pub struct Schedule {
    /// When the run began.
    pub start: u64,
    /// How long admission stays open.
    pub duration: RunDuration,
    /// Target admissions per second; zero lifts the limit.
    pub rate: u32,
    /// Whether the deadline has been seen.
    pub stopped: bool,
    /// The instants of the admissions on record, oldest first.
    pub arrivals: Seq<u64>,
}

impl Schedule {
    /// A run that has just begun: nothing admitted, not stopped.
    pub open spec fn fresh(start: u64, duration: RunDuration, rate: u32) -> Schedule {
        Schedule { start, duration, rate, stopped: false, arrivals: Seq::empty() }
    }

    /// Whether the rate limit lets a request through at `now`. Only the
    /// latest admission counts; the first request of a run always passes.
    pub open spec fn admits(self, now: u64) -> bool {
        self.rate == 0 || self.arrivals.len() == 0 || spaced(
            self.arrivals.last(),
            now,
            self.rate,
        )
    }

    /// The earliest instant at which the rate limit lets a request
    /// through, if the clock reaches one: the start of the clock where
    /// nothing limits, else the first whole nanosecond more than one
    /// `rate`-th of a second after the latest admission.
    pub open spec fn next_admission(self) -> Option<u64> {
        if self.rate == 0 || self.arrivals.len() == 0 {
            Some(0)
        } else if self.arrivals.last() + NANOS_PER_SEC / (self.rate as u64) + 1 <= u64::MAX {
            Some((self.arrivals.last() + NANOS_PER_SEC / (self.rate as u64) + 1) as u64)
        } else {
            None
        }
    }

    /// The verdict on a tick at `now`.
    pub open spec fn decide(self, now: u64) -> Tick {
        if self.stopped || deadline_reached(self.start, now, self.duration) {
            Tick::Stop
        } else if self.admits(now) {
            Tick::Admit
        } else {
            Tick::Skip
        }
    }

    /// The state after a tick at `now`.
    pub open spec fn step(self, now: u64) -> Schedule {
        match self.decide(now) {
            Tick::Stop => Schedule {
                start: self.start,
                duration: self.duration,
                rate: self.rate,
                stopped: true,
                arrivals: self.arrivals,
            },
            Tick::Admit => Schedule {
                start: self.start,
                duration: self.duration,
                rate: self.rate,
                stopped: self.stopped,
                arrivals: self.arrivals.push(now),
            },
            Tick::Skip => self,
        }
    }

    /// The state after one tick at each of `ticks`, in order.
    pub open spec fn run(self, ticks: Seq<u64>) -> Schedule
        decreases ticks.len(),
    {
        if ticks.len() == 0 {
            self
        } else {
            self.run(ticks.drop_last()).step(ticks.last())
        }
    }

    /// Every admission lies before the deadline.
    pub open spec fn within_deadline(self) -> bool {
        forall|i: int|
            0 <= i < self.arrivals.len() ==> !deadline_reached(
                self.start,
                #[trigger] self.arrivals[i],
                self.duration,
            )
    }

    /// Under a rate limit, each admission lies more than one `rate`-th of
    /// a second after the one before it.
    pub open spec fn paced(self) -> bool {
        self.rate > 0 ==> forall|i: int|
            0 <= i < self.arrivals.len() - 1 ==> spaced(
                #[trigger] self.arrivals[i],
                self.arrivals[i + 1],
                self.rate,
            )
    }

    /// What holds of every state a run can reach.
    pub open spec fn wf(self) -> bool {
        self.within_deadline() && self.paced()
    }

    /// The admissions that are at most one second old at `now`.
    pub open spec fn recent(self, now: u64) -> Seq<u64> {
        self.arrivals.filter(|a: u64| is_recent(a, now))
    }

    /// The state after one tick at each of `ticks`, in order, where stale
    /// admissions are forgotten before every tick.
    pub open spec fn tidy_run(self, ticks: Seq<u64>) -> Schedule
        decreases ticks.len(),
    {
        if ticks.len() == 0 {
            self
        } else {
            self.tidy_run(ticks.drop_last()).forget_stale(ticks.last()).step(ticks.last())
        }
    }

    /// Whether this schedule and `kept` give the same verdict on every
    /// tick at or after `now`: they agree on everything but the history,
    /// and either their latest admissions are the same, or `kept` has
    /// none and the latest of this one is stale at `now`.
    pub open spec fn same_outlook(self, kept: Schedule, now: u64) -> bool {
        &&& kept.start == self.start
        &&& kept.duration == self.duration
        &&& kept.rate == self.rate
        &&& kept.stopped == self.stopped
        &&& if kept.arrivals.len() > 0 {
            self.arrivals.len() > 0 && kept.arrivals.last() == self.arrivals.last()
        } else {
            self.arrivals.len() > 0 ==> !is_recent(self.arrivals.last(), now)
        }
    }

    /// The state once the oldest admissions have been forgotten, up to
    /// the first that is at most one second old at `now`.
    pub open spec fn forget_stale(self, now: u64) -> Schedule {
        Schedule {
            start: self.start,
            duration: self.duration,
            rate: self.rate,
            stopped: self.stopped,
            arrivals: self.arrivals.skip(stale_front(self.arrivals, now) as int),
        }
    }
}

} // verus!
