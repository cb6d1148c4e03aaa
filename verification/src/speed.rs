//! Candidates per second.
use vstd::prelude::*;

verus! {

/// Nanoseconds in a second.
pub const NANOS_PER_SECOND: u128 = 1_000_000_000;

/// The whole number of candidates per second that `tries` candidates in
/// `nanos` nanoseconds come to, as far as 64 bits hold it. No time at all
/// counts as infinitely fast, unless nothing was tried.
pub open spec fn speed_of(nanos: u128, tries: u64) -> int {
    if nanos == 0 {
        if tries == 0 {
            0
        } else {
            u64::MAX as int
        }
    } else if tries * NANOS_PER_SECOND / (nanos as int) > u64::MAX {
        u64::MAX as int
    } else {
        tries * NANOS_PER_SECOND / (nanos as int)
    }
}

/// Calculate speed: how many candidates per second `tries` candidates in
/// `nanos` nanoseconds are, rounded down.
pub fn calculate(nanos: u128, tries: u64) -> (speed: u64)
    ensures
        speed == speed_of(nanos, tries),
{
    if nanos == 0 {
        if tries == 0 {
            0
        } else {
            u64::MAX
        }
    } else {
        assert(tries * NANOS_PER_SECOND <= u128::MAX) by (nonlinear_arith)
            requires
                tries <= u64::MAX,
                NANOS_PER_SECOND == 1_000_000_000,
        ;
        let scaled: u128 = (tries as u128) * NANOS_PER_SECOND;
        let per_second: u128 = scaled / nanos;
        if per_second > u64::MAX as u128 {
            u64::MAX
        } else {
            per_second as u64
        }
    }
}

} // verus!
