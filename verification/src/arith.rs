//! Saturating arithmetic on the integers that records and RPC messages hold.

use vstd::prelude::*;

verus! {

/// `x` moved to the nearest `i64`.
pub open spec fn clamp_i64(x: int) -> int {
    if x > i64::MAX {
        i64::MAX as int
    } else if x < i64::MIN {
        i64::MIN as int
    } else {
        x
    }
}

/// The larger of `x` and zero.
pub open spec fn at_least_zero(x: int) -> int {
    if x < 0 {
        0
    } else {
        x
    }
}

/// The smaller of two integers.
pub open spec fn min_int(a: int, b: int) -> int {
    if a <= b {
        a
    } else {
        b
    }
}

/// The larger of two integers.
pub open spec fn max_int(a: int, b: int) -> int {
    if a >= b {
        a
    } else {
        b
    }
}

/// Add two `i64` values, saturating at the numeric bounds.
pub fn saturating_add_i64(a: i64, b: i64) -> (sum: i64)
    ensures
        sum == clamp_i64(a + b),
{
    match a.checked_add(b) {
        Some(sum) => sum,
        None => if b > 0 {
            i64::MAX
        } else {
            i64::MIN
        },
    }
}

/// Subtract two `i64` values, saturating at the numeric bounds.
pub fn saturating_sub_i64(a: i64, b: i64) -> (difference: i64)
    ensures
        difference == clamp_i64(a - b),
{
    match a.checked_sub(b) {
        Some(difference) => difference,
        None => if b < 0 {
            i64::MAX
        } else {
            i64::MIN
        },
    }
}

/// Replace a negative value by zero.
pub fn at_least_zero_i64(value: i64) -> (r: i64)
    ensures
        r == at_least_zero(value as int),
{
    if value < 0 {
        0
    } else {
        value
    }
}

/// Convert a length to `i64`, saturating at the upper bound.
pub fn i64_from_usize(value: usize) -> (r: i64)
    ensures
        r == clamp_i64(value as int),
{
    if value as u64 > i64::MAX as u64 {
        i64::MAX
    } else {
        value as i64
    }
}

/// Convert a `u64` to `i64`, saturating at the upper bound.
pub fn i64_from_u64(value: u64) -> (r: i64)
    ensures
        r == clamp_i64(value as int),
{
    if value > i64::MAX as u64 {
        i64::MAX
    } else {
        value as i64
    }
}

/// Sums and differences are exact where they fit, and stop at the bound that
/// they pass otherwise.
pub proof fn law_saturation_stops_at_the_bound(a: i64, b: i64, sum: i64, difference: i64)
    requires
        call_ensures(saturating_add_i64, (a, b), sum),
        call_ensures(saturating_sub_i64, (a, b), difference),
    ensures
        i64::MIN <= a + b <= i64::MAX ==> sum == a + b,
        a + b > i64::MAX ==> sum == i64::MAX,
        a + b < i64::MIN ==> sum == i64::MIN,
        i64::MIN <= a - b <= i64::MAX ==> difference == a - b,
        a - b > i64::MAX ==> difference == i64::MAX,
        a - b < i64::MIN ==> difference == i64::MIN,
{
}

/// Lengths keep their value as far as it fits, and what is negative counts as
/// nothing.
pub proof fn law_conversions_keep_what_fits(
    length: usize,
    short: i64,
    count: u64,
    cut: i64,
    value: i64,
    positive: i64,
)
    requires
        call_ensures(i64_from_usize, (length,), short),
        call_ensures(i64_from_u64, (count,), cut),
        call_ensures(at_least_zero_i64, (value,), positive),
    ensures
        length <= i64::MAX ==> short == length,
        length > i64::MAX ==> short == i64::MAX,
        count <= i64::MAX ==> cut == count,
        count > i64::MAX ==> cut == i64::MAX,
        value >= 0 ==> positive == value,
        value < 0 ==> positive == 0,
{
}

} // verus!
