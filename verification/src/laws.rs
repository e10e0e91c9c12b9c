//! What holds of every run: the deadline ends admission, the rate limit
//! keeps admissions apart, and forgetting stale admissions goes unnoticed.

use vstd::prelude::*;
use crate::clock::{elapsed_between, NANOS_PER_SEC};
use crate::deadline::deadline_reached;
use crate::duration::RunDuration;
use crate::schedule::{is_recent, spaced, stale_front, Schedule, Tick};

verus! {

// What every reachable schedule satisfies.

/// One tick keeps a well-formed schedule well formed.
pub proof fn lemma_step_preserves_wf(s: Schedule, now: u64)
    requires
        s.wf(),
    ensures
        s.step(now).wf(),
{
    let next = s.step(now);
    if s.decide(now) == Tick::Admit {
        assert forall|i: int| 0 <= i < next.arrivals.len() implies !deadline_reached(
            next.start,
            #[trigger] next.arrivals[i],
            next.duration,
        ) by {
            if i < s.arrivals.len() {
                assert(next.arrivals[i] == s.arrivals[i]);
            }
        }
        if next.rate > 0 {
            assert forall|i: int| 0 <= i < next.arrivals.len() - 1 implies spaced(
                #[trigger] next.arrivals[i],
                next.arrivals[i + 1],
                next.rate,
            ) by {
                if i < s.arrivals.len() - 1 {
                    assert(next.arrivals[i] == s.arrivals[i]);
                    assert(next.arrivals[i + 1] == s.arrivals[i + 1]);
                }
            }
        }
    }
}

/// A run never changes when it began, how long it lasts or how fast it
/// may admit.
pub proof fn lemma_run_keeps_settings(s: Schedule, ticks: Seq<u64>)
    ensures
        s.run(ticks).start == s.start,
        s.run(ticks).duration == s.duration,
        s.run(ticks).rate == s.rate,
    decreases ticks.len(),
{
    if ticks.len() > 0 {
        lemma_run_keeps_settings(s, ticks.drop_last());
    }
}

/// Any number of ticks keep a well-formed schedule well formed.
pub proof fn lemma_run_preserves_wf(s: Schedule, ticks: Seq<u64>)
    requires
        s.wf(),
    ensures
        s.run(ticks).wf(),
    decreases ticks.len(),
{
    if ticks.len() > 0 {
        lemma_run_preserves_wf(s, ticks.drop_last());
        lemma_step_preserves_wf(s.run(ticks.drop_last()), ticks.last());
    }
}

// The deadline.

/// A tick at or after the deadline stops the run and admits nothing, and
/// a tick before it never stops a run that was still going.
pub proof fn law_deadline_stops_admission(s: Schedule, now: u64)
    ensures
        elapsed_between(s.start, now) >= s.duration.secs * NANOS_PER_SEC ==> {
            &&& s.decide(now) == Tick::Stop
            &&& s.step(now).stopped
            &&& s.step(now).arrivals == s.arrivals
        },
        elapsed_between(s.start, now) < s.duration.secs * NANOS_PER_SEC && !s.stopped
            ==> s.decide(now) != Tick::Stop && !s.step(now).stopped,
{
}

/// Stopping is final: a stopped run answers every further tick with
/// `Tick::Stop` and never changes again.
pub proof fn law_stopped_stays_stopped(s: Schedule, ticks: Seq<u64>)
    requires
        s.stopped,
    ensures
        s.run(ticks) == s,
        forall|now: u64| s.decide(now) == Tick::Stop,
    decreases ticks.len(),
{
    if ticks.len() > 0 {
        law_stopped_stays_stopped(s, ticks.drop_last());
    }
}

/// A run stays open as long as its ticks come before the deadline,
/// whatever its rate.
pub proof fn law_run_stays_open_before_deadline(
    start: u64,
    duration: RunDuration,
    rate: u32,
    ticks: Seq<u64>,
)
    requires
        forall|i: int| 0 <= i < ticks.len() ==> !deadline_reached(start, #[trigger] ticks[i], duration),
    ensures
        !Schedule::fresh(start, duration, rate).run(ticks).stopped,
    decreases ticks.len(),
{
    let fresh = Schedule::fresh(start, duration, rate);
    if ticks.len() > 0 {
        let before = ticks.drop_last();
        assert forall|i: int| 0 <= i < before.len() implies !deadline_reached(
            start,
            #[trigger] before[i],
            duration,
        ) by {
            assert(before[i] == ticks[i]);
        }
        law_run_stays_open_before_deadline(start, duration, rate, before);
        lemma_run_keeps_settings(fresh, before);
    }
}

/// Whatever the ticks of a run, each of its admissions lies less than the
/// configured duration after its start.
pub proof fn law_admissions_precede_deadline(
    start: u64,
    duration: RunDuration,
    rate: u32,
    ticks: Seq<u64>,
)
    ensures
        ({
            let arrivals = Schedule::fresh(start, duration, rate).run(ticks).arrivals;
            forall|i: int|
                0 <= i < arrivals.len() ==> elapsed_between(start, #[trigger] arrivals[i])
                    < duration.secs * NANOS_PER_SEC
        }),
{
    let fresh = Schedule::fresh(start, duration, rate);
    lemma_run_preserves_wf(fresh, ticks);
    lemma_run_keeps_settings(fresh, ticks);
}

// The rate limit.

/// Under a rate limit, whatever the ticks of a run, each admission comes
/// later than the one before it, and by more than one `rate`-th of a
/// second: the gap in nanoseconds times the rate exceeds a billion.
pub proof fn law_admissions_are_paced(
    start: u64,
    duration: RunDuration,
    rate: u32,
    ticks: Seq<u64>,
)
    requires
        rate > 0,
    ensures
        ({
            let arrivals = Schedule::fresh(start, duration, rate).run(ticks).arrivals;
            forall|i: int|
                0 <= i < arrivals.len() - 1 ==> {
                    &&& #[trigger] arrivals[i] < arrivals[i + 1]
                    &&& (arrivals[i + 1] - arrivals[i]) * rate > NANOS_PER_SEC
                }
        }),
{
    let fresh = Schedule::fresh(start, duration, rate);
    lemma_run_preserves_wf(fresh, ticks);
    lemma_run_keeps_settings(fresh, ticks);
    let arrivals = fresh.run(ticks).arrivals;
    assert forall|i: int| 0 <= i < arrivals.len() - 1 implies {
        &&& #[trigger] arrivals[i] < arrivals[i + 1]
        &&& (arrivals[i + 1] - arrivals[i]) * rate > NANOS_PER_SEC
    } by {
        assert(spaced(arrivals[i], arrivals[i + 1], rate));
    }
}

/// A gap passes the rate limit exactly if it is longer than the whole
/// nanoseconds of one `rate`-th of a second.
pub proof fn lemma_gap_passes(gap: nat, rate: u32)
    requires
        rate > 0,
    ensures
        gap * rate > NANOS_PER_SEC <==> gap > NANOS_PER_SEC / (rate as u64),
{
    let whole = NANOS_PER_SEC as int / rate as int;
    let rest = NANOS_PER_SEC as int % rate as int;
    assert(whole == NANOS_PER_SEC / (rate as u64));
    assert(NANOS_PER_SEC == whole * rate + rest && 0 <= rest < rate) by (nonlinear_arith)
        requires
            rate > 0,
            whole == NANOS_PER_SEC as int / rate as int,
            rest == NANOS_PER_SEC as int % rate as int,
    ;
    assert(gap * rate > whole * rate + rest <==> gap > whole) by (nonlinear_arith)
        requires
            rate > 0,
            0 <= rest < rate,
    ;
}

/// The rate limit lets a request through from `next_admission` on and
/// never before; where there is no such instant, it lets none through.
pub proof fn law_next_admission_is_earliest(s: Schedule, now: u64)
    ensures
        match s.next_admission() {
            Some(earliest) => s.admits(now) <==> now >= earliest,
            None => !s.admits(now),
        },
{
    if s.rate > 0 && s.arrivals.len() > 0 {
        lemma_gap_passes(elapsed_between(s.arrivals.last(), now), s.rate);
    }
}

/// Every admission of a run is one of its ticks or was there before:
/// ticks that do not precede `floor` give admissions that do not either.
proof fn lemma_arrivals_not_before(s: Schedule, ticks: Seq<u64>, floor: u64)
    requires
        forall|i: int| 0 <= i < s.arrivals.len() ==> #[trigger] s.arrivals[i] >= floor,
        forall|i: int| 0 <= i < ticks.len() ==> #[trigger] ticks[i] >= floor,
    ensures
        forall|i: int|
            0 <= i < s.run(ticks).arrivals.len() ==> #[trigger] s.run(ticks).arrivals[i] >= floor,
    decreases ticks.len(),
{
    if ticks.len() > 0 {
        let before = ticks.drop_last();
        assert forall|i: int| 0 <= i < before.len() implies #[trigger] before[i] >= floor by {
            assert(before[i] == ticks[i]);
        }
        lemma_arrivals_not_before(s, before, floor);
        let mid = s.run(before);
        let end = s.run(ticks);
        assert forall|i: int| 0 <= i < end.arrivals.len() implies #[trigger] end.arrivals[i]
            >= floor by {
            if i < mid.arrivals.len() {
                assert(end.arrivals[i] == mid.arrivals[i]);
            } else {
                assert(end.arrivals[i] == ticks.last());
            }
        }
    }
}

/// In a paced history the `i`-th admission lies more than `i` intervals
/// after the first.
proof fn lemma_paced_distance(s: Schedule, i: int)
    requires
        s.rate > 0,
        s.paced(),
        0 <= i < s.arrivals.len(),
    ensures
        s.arrivals[0] <= s.arrivals[i],
        (s.arrivals[i] - s.arrivals[0]) * s.rate >= i * (NANOS_PER_SEC + 1),
    decreases i,
{
    if i > 0 {
        lemma_paced_distance(s, i - 1);
        let first = s.arrivals[0] as int;
        let prev = s.arrivals[i - 1] as int;
        let here = s.arrivals[i] as int;
        let rate = s.rate as int;
        assert(spaced(s.arrivals[i - 1], s.arrivals[i], s.rate));
        assert(prev < here) by (nonlinear_arith)
            requires
                rate > 0,
                (if here >= prev {
                    here - prev
                } else {
                    0
                }) * rate > NANOS_PER_SEC,
        ;
        assert((here - first) * rate == (prev - first) * rate + (here - prev) * rate)
            by (nonlinear_arith);
    }
}

/// Under a rate limit a run admits at most `rate` requests for each second
/// of its duration, provided that no tick precedes its start.
pub proof fn law_rate_bounds_admissions(
    start: u64,
    duration: RunDuration,
    rate: u32,
    ticks: Seq<u64>,
)
    requires
        rate > 0,
        forall|i: int| 0 <= i < ticks.len() ==> #[trigger] ticks[i] >= start,
    ensures
        Schedule::fresh(start, duration, rate).run(ticks).arrivals.len() <= duration.secs * rate,
{
    let fresh = Schedule::fresh(start, duration, rate);
    let end = fresh.run(ticks);
    lemma_run_preserves_wf(fresh, ticks);
    lemma_run_keeps_settings(fresh, ticks);
    lemma_arrivals_not_before(fresh, ticks, start);
    let n = end.arrivals.len() as int;
    if n > 0 {
        lemma_paced_distance(end, n - 1);
        let first = end.arrivals[0] as int;
        let last = end.arrivals[n - 1] as int;
        let secs = duration.secs as int;
        let r = rate as int;
        assert(!deadline_reached(start, end.arrivals[n - 1], duration));
        assert(first >= start);
        assert(last - first < secs * NANOS_PER_SEC);
        assert(n - 1 < secs * r) by (nonlinear_arith)
            requires
                r > 0,
                n >= 1,
                0 <= last - first < secs * NANOS_PER_SEC,
                (last - first) * r >= (n - 1) * (NANOS_PER_SEC + 1),
        ;
    }
}

// Runs without a rate limit.

/// Without a rate limit no tick is skipped: a run that has not stopped
/// admits at every tick before its deadline.
pub proof fn law_unlimited_never_skips(s: Schedule, now: u64)
    requires
        s.rate == 0,
    ensures
        s.decide(now) != Tick::Skip,
        !s.stopped && !deadline_reached(s.start, now, s.duration) ==> {
            &&& s.decide(now) == Tick::Admit
            &&& s.step(now).arrivals == s.arrivals.push(now)
        },
{
}

/// Without a rate limit the admissions of a run are exactly its ticks, as
/// long as they all come before the deadline.
pub proof fn law_unlimited_admits_every_tick(start: u64, duration: RunDuration, ticks: Seq<u64>)
    requires
        forall|i: int| 0 <= i < ticks.len() ==> !deadline_reached(start, #[trigger] ticks[i], duration),
    ensures
        Schedule::fresh(start, duration, 0).run(ticks).arrivals == ticks,
        !Schedule::fresh(start, duration, 0).run(ticks).stopped,
    decreases ticks.len(),
{
    let fresh = Schedule::fresh(start, duration, 0);
    lemma_run_keeps_settings(fresh, ticks);
    if ticks.len() > 0 {
        let before = ticks.drop_last();
        assert forall|i: int| 0 <= i < before.len() implies !deadline_reached(
            start,
            #[trigger] before[i],
            duration,
        ) by {
            assert(before[i] == ticks[i]);
        }
        law_unlimited_admits_every_tick(start, duration, before);
        lemma_run_keeps_settings(fresh, before);
        assert(before.push(ticks.last()) == ticks);
    }
}

// The order of the history.

/// A clock that never runs backwards gives a history in the order of
/// time: no admission is earlier than one recorded before it.
pub proof fn law_arrivals_are_chronological(s: Schedule, ticks: Seq<u64>)
    requires
        forall|i: int, j: int| 0 <= i <= j < s.arrivals.len() ==> s.arrivals[i] <= s.arrivals[j],
        forall|i: int, j: int| 0 <= i <= j < ticks.len() ==> ticks[i] <= ticks[j],
        s.arrivals.len() > 0 && ticks.len() > 0 ==> s.arrivals.last() <= ticks[0],
    ensures
        ({
            let arrivals = s.run(ticks).arrivals;
            &&& forall|i: int, j: int| 0 <= i <= j < arrivals.len() ==> arrivals[i] <= arrivals[j]
            &&& arrivals.len() > 0 && ticks.len() > 0 ==> arrivals.last() <= ticks.last()
        }),
    decreases ticks.len(),
{
    if ticks.len() > 0 {
        let before = ticks.drop_last();
        assert forall|i: int, j: int| 0 <= i <= j < before.len() implies before[i] <= before[j] by {
            assert(before[i] == ticks[i] && before[j] == ticks[j]);
        }
        if before.len() > 0 {
            assert(before[0] == ticks[0]);
            assert(before.last() == ticks[ticks.len() - 2]);
        }
        law_arrivals_are_chronological(s, before);
    }
}

// Stale admissions and forgetting them.

/// The stale front of a history ends at `k` if every admission before `k`
/// is stale and the one at `k`, if there is one, is not.
pub proof fn lemma_stale_front(arrivals: Seq<u64>, now: u64, k: int)
    requires
        0 <= k <= arrivals.len(),
        forall|j: int| 0 <= j < k ==> !is_recent(#[trigger] arrivals[j], now),
        k < arrivals.len() ==> is_recent(arrivals[k], now),
    ensures
        stale_front(arrivals, now) == k,
    decreases k,
{
    if k > 0 {
        let rest = arrivals.skip(1);
        assert forall|j: int| 0 <= j < k - 1 implies !is_recent(#[trigger] rest[j], now) by {
            assert(rest[j] == arrivals[j + 1]);
        }
        lemma_stale_front(rest, now, k - 1);
    }
}

/// The stale front lies within the history, holds stale admissions only
/// and ends at the first that is not stale.
pub proof fn lemma_stale_front_is_stale(arrivals: Seq<u64>, now: u64)
    ensures
        stale_front(arrivals, now) <= arrivals.len(),
        forall|j: int| 0 <= j < stale_front(arrivals, now) ==> !is_recent(#[trigger] arrivals[j], now),
        stale_front(arrivals, now) < arrivals.len() ==> is_recent(
            arrivals[stale_front(arrivals, now) as int],
            now,
        ),
    decreases arrivals.len(),
{
    if arrivals.len() > 0 && !is_recent(arrivals[0], now) {
        let rest = arrivals.skip(1);
        lemma_stale_front_is_stale(rest, now);
        assert forall|j: int| 0 <= j < stale_front(arrivals, now) implies !is_recent(
            #[trigger] arrivals[j],
            now,
        ) by {
            if j > 0 {
                assert(arrivals[j] == rest[j - 1]);
            }
        }
        if stale_front(arrivals, now) < arrivals.len() {
            assert(arrivals[stale_front(arrivals, now) as int] == rest[stale_front(rest, now) as int]);
        }
    }
}

/// Forgetting stale admissions keeps a well-formed schedule well formed.
pub proof fn lemma_forget_preserves_wf(s: Schedule, now: u64)
    requires
        s.wf(),
    ensures
        s.forget_stale(now).wf(),
{
    lemma_stale_front_is_stale(s.arrivals, now);
    let k = stale_front(s.arrivals, now) as int;
    let kept = s.forget_stale(now);
    assert forall|i: int| 0 <= i < kept.arrivals.len() implies !deadline_reached(
        kept.start,
        #[trigger] kept.arrivals[i],
        kept.duration,
    ) by {
        assert(kept.arrivals[i] == s.arrivals[i + k]);
    }
    if kept.rate > 0 {
        assert forall|i: int| 0 <= i < kept.arrivals.len() - 1 implies spaced(
            #[trigger] kept.arrivals[i],
            kept.arrivals[i + 1],
            kept.rate,
        ) by {
            assert(kept.arrivals[i] == s.arrivals[i + k]);
            assert(kept.arrivals[i + 1] == s.arrivals[i + k + 1]);
        }
    }
}

/// An admission that is more than one second old has no say in the rate
/// limit: once the latest admission is stale, every tick that is not
/// earlier on the clock passes the limit.
pub proof fn law_stale_admissions_do_not_limit(s: Schedule, now: u64, later: u64)
    requires
        s.arrivals.len() > 0,
        !is_recent(s.arrivals.last(), now),
        now <= later,
    ensures
        s.admits(later),
{
    if s.rate > 0 {
        let gap = elapsed_between(s.arrivals.last(), later) as int;
        let rate = s.rate as int;
        assert(gap * rate > NANOS_PER_SEC) by (nonlinear_arith)
            requires
                gap > NANOS_PER_SEC,
                rate >= 1,
        ;
    }
}

/// Forgetting stale admissions makes no difference to later ticks. As
/// long as the clock does not run backwards, each of them is answered as
/// the full history would have answered it.
pub proof fn law_forgetting_changes_no_verdict(s: Schedule, now: u64, later: u64)
    requires
        now <= later,
    ensures
        s.forget_stale(now).decide(later) == s.decide(later),
{
    lemma_stale_front_is_stale(s.arrivals, now);
    let k = stale_front(s.arrivals, now) as int;
    let kept = s.forget_stale(now);
    if s.arrivals.len() > 0 {
        if k < s.arrivals.len() {
            assert(kept.arrivals.last() == s.arrivals.last());
        } else {
            law_stale_admissions_do_not_limit(s, now, later);
        }
    }
}

/// Schedules with the same outlook give the same verdict on a later tick
/// and have the same outlook after it.
pub proof fn lemma_outlook_survives_tick(full: Schedule, kept: Schedule, now: u64, later: u64)
    requires
        full.same_outlook(kept, now),
        now <= later,
    ensures
        kept.decide(later) == full.decide(later),
        full.step(later).same_outlook(kept.step(later), later),
{
    if kept.arrivals.len() == 0 && full.arrivals.len() > 0 {
        law_stale_admissions_do_not_limit(full, now, later);
    }
}

/// Forgetting stale admissions leaves the outlook as it was.
pub proof fn lemma_outlook_survives_forgetting(
    full: Schedule,
    kept: Schedule,
    now: u64,
    later: u64,
)
    requires
        full.same_outlook(kept, now),
        now <= later,
    ensures
        full.same_outlook(kept.forget_stale(later), later),
{
    lemma_stale_front_is_stale(kept.arrivals, later);
    let k = stale_front(kept.arrivals, later) as int;
    if kept.arrivals.len() > 0 {
        if k < kept.arrivals.len() {
            assert(kept.forget_stale(later).arrivals.last() == kept.arrivals.last());
        } else {
            assert(!is_recent(kept.arrivals[k - 1], later));
        }
    }
}

/// A scheduler that forgets stale admissions before every tick gives, on
/// a clock that does not run backwards, the verdicts of one that forgets
/// nothing: tick for tick the same requests are admitted.
pub proof fn law_forgetting_goes_unnoticed(s: Schedule, ticks: Seq<u64>)
    requires
        forall|i: int, j: int| 0 <= i <= j < ticks.len() ==> ticks[i] <= ticks[j],
    ensures
        ticks.len() > 0 ==> s.run(ticks).same_outlook(s.tidy_run(ticks), ticks.last()),
        forall|k: int|
            0 <= k < ticks.len() ==> s.tidy_run(#[trigger] ticks.take(k)).forget_stale(
                ticks[k],
            ).decide(ticks[k]) == s.run(ticks.take(k)).decide(ticks[k]),
    decreases ticks.len(),
{
    if ticks.len() > 0 {
        let before = ticks.drop_last();
        let now = ticks.last();
        assert forall|i: int, j: int| 0 <= i <= j < before.len() implies before[i] <= before[j] by {
            assert(before[i] == ticks[i] && before[j] == ticks[j]);
        }
        law_forgetting_goes_unnoticed(s, before);
        let full = s.run(before);
        let kept = s.tidy_run(before);
        let since = if before.len() > 0 {
            before.last()
        } else {
            now
        };
        if before.len() > 0 {
            assert(before.last() == ticks[ticks.len() - 2]);
        }
        assert(full.same_outlook(kept, since));
        lemma_outlook_survives_forgetting(full, kept, since, now);
        lemma_outlook_survives_tick(full, kept.forget_stale(now), now, now);
        assert forall|k: int| 0 <= k < ticks.len() implies s.tidy_run(
            #[trigger] ticks.take(k),
        ).forget_stale(ticks[k]).decide(ticks[k]) == s.run(ticks.take(k)).decide(ticks[k]) by {
            if k < before.len() {
                assert(ticks.take(k) == before.take(k));
                assert(ticks[k] == before[k]);
            } else {
                assert(ticks.take(k) == before);
            }
        }
    }
}

/// Under a rate limit the history holds at most `rate` admissions once
/// the stale ones are forgotten, provided that the latest admission is not
/// ahead of the clock.
pub proof fn law_window_holds_at_most_rate(s: Schedule, now: u64)
    requires
        s.wf(),
        s.rate > 0,
        s.arrivals.len() > 0 ==> s.arrivals.last() <= now,
    ensures
        s.forget_stale(now).arrivals.len() <= s.rate,
{
    lemma_stale_front_is_stale(s.arrivals, now);
    lemma_forget_preserves_wf(s, now);
    let kept = s.forget_stale(now);
    let n = kept.arrivals.len() as int;
    if n > 0 {
        lemma_paced_distance(kept, n - 1);
        let first = kept.arrivals[0] as int;
        let last = kept.arrivals[n - 1] as int;
        let rate = s.rate as int;
        assert(kept.arrivals[0] == s.arrivals[stale_front(s.arrivals, now) as int]);
        assert(kept.arrivals[n - 1] == s.arrivals.last());
        assert(is_recent(kept.arrivals[0], now));
        assert(last - first <= NANOS_PER_SEC);
        assert(n - 1 < rate) by (nonlinear_arith)
            requires
                rate > 0,
                n >= 1,
                0 <= last - first <= NANOS_PER_SEC,
                (last - first) * rate >= (n - 1) * (NANOS_PER_SEC + 1),
        ;
    }
}

} // verus!
