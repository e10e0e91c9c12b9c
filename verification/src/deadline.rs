//! The run deadline: the one signal that stops admission.

use vstd::prelude::*;
use crate::clock::{elapsed, elapsed_between};
use crate::duration::RunDuration;

verus! {

/// What the deadline says of a clock reading.
#[derive(Clone, Copy, Debug, PartialEq, Eq, Structural)]
pub enum Deadline {
    /// The run still has time left.
    Continue,
    /// The configured duration has passed.
    Stop,
}

/// Whether a run that began at `start` and lasts `duration` is over at
/// `now`. The boundary belongs to the end: a run is over at the very
/// nanosecond at which its duration has passed.
pub open spec fn deadline_reached(start: u64, now: u64, duration: RunDuration) -> bool {
    elapsed_between(start, now) >= duration.nanos()
}

/// Judges one clock reading against the deadline.
pub fn check_deadline(start: u64, now: u64, duration: RunDuration) -> (d: Deadline)
    ensures
        d == (if deadline_reached(start, now, duration) {
            Deadline::Stop
        } else {
            Deadline::Continue
        }),
{
    let passed: u64 = elapsed(start, now);
    if passed as u128 >= duration.as_nanos() {
        Deadline::Stop
    } else {
        Deadline::Continue
    }
}

} // verus!
