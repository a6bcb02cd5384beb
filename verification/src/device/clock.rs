//! Time as the devices see it: milliseconds on a clock that never runs
//! backwards.

use vstd::prelude::*;

verus! {

/// The time from `then` to `now` in milliseconds; zero if `then` is later.
pub open spec fn elapsed(now: u64, then: u64) -> int {
    if now >= then {
        now - then
    } else {
        0
    }
}

/// The later of two readings of the clock.
pub open spec fn later(first: u64, second: u64) -> u64 {
    if second > first {
        second
    } else {
        first
    }
}

pub fn elapsed_between(now: u64, then: u64) -> (span: u64)
    ensures
        span == elapsed(now, then),
{
    if now >= then {
        now - then
    } else {
        0
    }
}

} // verus!
