//! Durations in nanoseconds.

use vstd::prelude::*;

verus! {

/// Longest duration: the largest number of whole seconds and just under one more.
pub const LONGEST_DURATION: u128 = 18446744073709551615999999999;

/// Both durations together, or the longest one where they exceed it.
pub open spec fn combined(left: u128, right: u128) -> u128 {
    if left + right > LONGEST_DURATION {
        LONGEST_DURATION
    } else {
        (left + right) as u128
    }
}

/// Adds two durations, up to the longest one.
pub fn combine(left: u128, right: u128) -> (sum: u128)
    ensures
        sum == combined(left, right),
{
    if left > LONGEST_DURATION || right > LONGEST_DURATION - left {
        LONGEST_DURATION
    } else {
        left + right
    }
}

/// A count that stops at the largest integer.
pub open spec fn raised(count: u64, by: int) -> u64 {
    if count + by > u64::MAX {
        u64::MAX
    } else {
        (count + by) as u64
    }
}

/// Counters and durations count up to their largest value and stop there: they never fall
/// and never pass it, and short of it they are exact.
pub proof fn counters_stop_at_their_largest_value(count: u64, by: u64, left: u128, right: u128)
    requires
        left <= LONGEST_DURATION,
    ensures
        raised(count, by as int) >= count,
        count + by <= u64::MAX ==> raised(count, by as int) == count + by,
        count + by > u64::MAX ==> raised(count, by as int) == u64::MAX,
        left <= combined(left, right) <= LONGEST_DURATION,
        left + right <= LONGEST_DURATION ==> combined(left, right) == left + right,
        left + right > LONGEST_DURATION ==> combined(left, right) == LONGEST_DURATION,
{
}

} // verus!
