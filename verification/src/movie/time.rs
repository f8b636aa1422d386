//! Sums of times that stay at the ends of their range.

use vstd::prelude::*;

verus! {

/// `x`, or the end of the range that it lies beyond.
pub open spec fn clamped(x: int) -> i64 {
    if x > i64::MAX {
        i64::MAX
    } else if x < i64::MIN {
        i64::MIN
    } else {
        x as i64
    }
}

/// The later of two times.
pub open spec fn later(a: i64, b: i64) -> i64 {
    if a >= b {
        a
    } else {
        b
    }
}

/// The sum of two times.
pub fn add_ms(a: i64, b: i64) -> (sum: i64)
    ensures
        sum == clamped(a + b),
{
    let sum: i128 = a as i128 + b as i128;
    if sum > i64::MAX as i128 {
        i64::MAX
    } else if sum < i64::MIN as i128 {
        i64::MIN
    } else {
        sum as i64
    }
}

/// The difference of two times.
pub fn sub_ms(a: i64, b: i64) -> (difference: i64)
    ensures
        difference == clamped(a - b),
{
    let difference: i128 = a as i128 - b as i128;
    if difference > i64::MAX as i128 {
        i64::MAX
    } else if difference < i64::MIN as i128 {
        i64::MIN
    } else {
        difference as i64
    }
}

/// The later of two times.
pub fn max_ms(a: i64, b: i64) -> (max: i64)
    ensures
        max == later(a, b),
{
    if a >= b {
        a
    } else {
        b
    }
}

} // verus!
