//! Time as the library sees it.
//!
//! An instant is a `u64` count of nanoseconds on a monotonic clock whose
//! origin the caller picks once per run.

use vstd::prelude::*;

verus! {

/// Nanoseconds in one second.
pub const NANOS_PER_SEC: u64 = 1_000_000_000;

/// The instant that lies `secs` seconds and `nanos` nanoseconds after the
/// origin of the clock. Beyond the range of `u64` every instant is the
/// last one.
pub open spec fn reading_at(secs: u64, nanos: u32) -> u64 {
    if secs * NANOS_PER_SEC + nanos <= u64::MAX {
        (secs * NANOS_PER_SEC + nanos) as u64
    } else {
        u64::MAX
    }
}

/// Computes `reading_at` from the two parts in which clocks give a span.
pub fn reading(secs: u64, nanos: u32) -> (at: u64)
    ensures
        at == reading_at(secs, nanos),
{
    assert(secs * NANOS_PER_SEC + nanos <= u128::MAX) by (nonlinear_arith)
        requires
            secs <= u64::MAX,
            nanos <= u32::MAX,
            NANOS_PER_SEC == 1_000_000_000,
    ;
    let total: u128 = (secs as u128) * (NANOS_PER_SEC as u128) + (nanos as u128);
    if total <= u64::MAX as u128 {
        total as u64
    } else {
        u64::MAX
    }
}

/// Time that passed from `earlier` to `later`, in nanoseconds. A `later`
/// that lies before `earlier` counts as no time at all.
pub open spec fn elapsed_between(earlier: u64, later: u64) -> nat {
    if later >= earlier {
        (later - earlier) as nat
    } else {
        0
    }
}

/// Computes `elapsed_between`.
pub fn elapsed(earlier: u64, later: u64) -> (e: u64)
    ensures
        e == elapsed_between(earlier, later),
{
    if later >= earlier {
        later - earlier
    } else {
        0
    }
}

} // verus!
