//! The arrival scheduler: one call per tick, one verdict per call.

use std::collections::VecDeque;
use vstd::prelude::*;
use crate::clock::{elapsed, NANOS_PER_SEC};
use crate::duration::RunDuration;
use crate::deadline::{check_deadline, Deadline};
use crate::laws::{lemma_forget_preserves_wf, lemma_stale_front, lemma_step_preserves_wf};
use crate::schedule::{is_recent, stale_front, Schedule, Tick};

verus! {

/// Decides, tick by tick, whether to dispatch a new request. It keeps the
/// instants of its admissions in a queue, oldest first, and never admits
/// once the deadline has passed.
pub struct ArrivalScheduler {
    start: u64,
    duration: RunDuration,
    rate: u32,
    stopped: bool,
    arrivals: VecDeque<u64>,
}

impl View for ArrivalScheduler {
    type V = Schedule;

    closed spec fn view(&self) -> Schedule {
        Schedule {
            start: self.start,
            duration: self.duration,
            rate: self.rate,
            stopped: self.stopped,
            arrivals: self.arrivals@,
        }
    }
}

impl ArrivalScheduler {
    #[verifier::type_invariant]
    spec fn inv(&self) -> bool {
        self@.wf()
    }

    /// Begins a run at `start` that admits for `duration`, at most `rate`
    /// times per second unless `rate` is zero.
    pub fn new(start: u64, duration: RunDuration, rate: u32) -> (s: ArrivalScheduler)
        ensures
            s@ == Schedule::fresh(start, duration, rate),
    {
        ArrivalScheduler { start, duration, rate, stopped: false, arrivals: VecDeque::new() }
    }

    /// One tick at clock reading `now`. On `Tick::Admit` the reading has
    /// been recorded as an admission and the caller dispatches a request.
    pub fn tick(&mut self, now: u64) -> (t: Tick)
        ensures
            t == old(self)@.decide(now),
            final(self)@ == old(self)@.step(now),
            final(self)@.wf(),
    {
        proof {
            use_type_invariant(&*self);
            lemma_step_preserves_wf(self@, now);
        }
        if self.stopped {
            return Tick::Stop;
        }
        match check_deadline(self.start, now, self.duration) {
            Deadline::Stop => {
                self.stopped = true;
                Tick::Stop
            },
            Deadline::Continue => {
                if self.admits(now) {
                    // The history leaves the scheduler while it grows, so
                    // that the scheduler is whole at every step.
                    let mut history: VecDeque<u64> = VecDeque::new();
                    std::mem::swap(&mut self.arrivals, &mut history);
                    history.push_back(now);
                    std::mem::swap(&mut self.arrivals, &mut history);
                    Tick::Admit
                } else {
                    Tick::Skip
                }
            },
        }
    }

    /// Whether the rate limit lets a request through at `now`.
    fn admits(&self, now: u64) -> (through: bool)
        ensures
            through == self@.admits(now),
    {
        let n: usize = self.arrivals.len();
        if self.rate == 0 || n == 0 {
            return true;
        }
        let gap: u64 = elapsed(self.arrivals[n - 1], now);
        assert(gap * self.rate <= u128::MAX) by (nonlinear_arith)
            requires
                gap <= u64::MAX,
                self.rate <= u32::MAX,
        ;
        (gap as u128) * (self.rate as u128) > NANOS_PER_SEC as u128
    }

    /// The earliest instant at which the rate limit lets a request
    /// through, for a caller that would rather wait than tick in vain.
    /// `None` says that the clock ends before the limit is passed.
    pub fn next_admission(&self) -> (earliest: Option<u64>)
        ensures
            earliest == self@.next_admission(),
    {
        let n: usize = self.arrivals.len();
        if self.rate == 0 || n == 0 {
            return Some(0);
        }
        let interval: u64 = NANOS_PER_SEC / (self.rate as u64);
        match self.arrivals[n - 1].checked_add(interval) {
            Some(edge) => edge.checked_add(1),
            None => None,
        }
    }

    /// Whether the deadline has been seen. Once it has, every tick stops.
    pub fn is_stopped(&self) -> (stopped: bool)
        ensures
            stopped == self@.stopped,
    {
        self.stopped
    }

    /// The instants of the admissions on record, oldest first.
    pub fn arrivals(&self) -> (history: &VecDeque<u64>)
        ensures
            history@ == self@.arrivals,
            self@.wf(),
    {
        proof {
            use_type_invariant(self);
        }
        &self.arrivals
    }

    /// Forgets the oldest admissions, up to the first that is at most one
    /// second old at `now`, and says how many it forgot. With a clock that
    /// does not run backwards no later verdict depends on them.
    pub fn forget_stale(&mut self, now: u64) -> (forgotten: usize)
        ensures
            forgotten == stale_front(old(self)@.arrivals, now),
            final(self)@ == old(self)@.forget_stale(now),
            final(self)@.wf(),
    {
        proof {
            use_type_invariant(&*self);
            lemma_forget_preserves_wf(self@, now);
        }
        let ghost before = self.arrivals@;
        proof {
            vstd::std_specs::vecdeque::axiom_spec_len(&self.arrivals);
        }
        let mut history: VecDeque<u64> = VecDeque::new();
        std::mem::swap(&mut self.arrivals, &mut history);
        let mut forgotten: usize = 0;
        while history.len() > 0
            invariant
                forgotten + history@.len() == before.len() <= usize::MAX,
                history@ == before.skip(forgotten as int),
                forall|j: int| 0 <= j < forgotten ==> !is_recent(#[trigger] before[j], now),
            ensures
                forgotten <= before.len(),
                history@ == before.skip(forgotten as int),
                forall|j: int| 0 <= j < forgotten ==> !is_recent(#[trigger] before[j], now),
                forgotten < before.len() ==> is_recent(before[forgotten as int], now),
            decreases history@.len(),
        {
            if elapsed(history[0], now) <= NANOS_PER_SEC {
                break;
            }
            history.pop_front();
            forgotten = forgotten + 1;
        }
        proof {
            lemma_stale_front(before, now, forgotten as int);
        }
        std::mem::swap(&mut self.arrivals, &mut history);
        forgotten
    }

    /// How many admissions are at most one second old at `now`.
    pub fn admitted_within_last_second(&self, now: u64) -> (count: usize)
        ensures
            count == self@.recent(now).len(),
    {
        let ghost recent = |a: u64| is_recent(a, now);
        let mut count: usize = 0;
        let mut i: usize = 0;
        while i < self.arrivals.len()
            invariant
                i <= self.arrivals.len(),
                count <= i,
                recent == (|a: u64| is_recent(a, now)),
                count == self.arrivals@.take(i as int).filter(recent).len(),
            decreases self.arrivals.len() - i,
        {
            proof {
                let upto = self.arrivals@.take(i + 1);
                assert(upto.drop_last() == self.arrivals@.take(i as int));
                reveal(Seq::filter);
            }
            if elapsed(self.arrivals[i], now) <= NANOS_PER_SEC {
                count = count + 1;
            }
            i = i + 1;
        }
        assert(self.arrivals@.take(i as int) == self.arrivals@);
        count
    }
}

} // verus!
