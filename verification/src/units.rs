//! Fixed-point quantities: `i64` counts of millionths, with arithmetic that
//! stops at the ends of the `i64` range instead of wrapping.

use vstd::prelude::*;

verus! {

/// Number of raw steps that make up one whole unit.
pub const UNIT: i64 = 1_000_000;

/// The value of the `i64` range that lies closest to `x`.
pub open spec fn clamp_i64(x: int) -> i64 {
    if x < i64::MIN {
        i64::MIN
    } else if x > i64::MAX {
        i64::MAX
    } else {
        x as i64
    }
}

/// The larger of two integers.
pub open spec fn max_int(a: int, b: int) -> int {
    if a >= b {
        a
    } else {
        b
    }
}

/// The smaller of two integers.
pub open spec fn min_int(a: int, b: int) -> int {
    if a <= b {
        a
    } else {
        b
    }
}

/// Narrows a wide intermediate result to a stored quantity.
pub fn narrow(x: i128) -> (r: i64)
    ensures
        r == clamp_i64(x as int),
{
    if x < i64::MIN as i128 {
        i64::MIN
    } else if x > i64::MAX as i128 {
        i64::MAX
    } else {
        x as i64
    }
}

/// Sum of two quantities, stopping at the ends of the range.
pub fn sat_add(a: i64, b: i64) -> (r: i64)
    ensures
        r == clamp_i64(a + b),
{
    narrow(a as i128 + b as i128)
}

/// Difference of two quantities, stopping at the ends of the range.
pub fn sat_sub(a: i64, b: i64) -> (r: i64)
    ensures
        r == clamp_i64(a - b),
{
    narrow(a as i128 - b as i128)
}

/// The larger of two quantities.
pub fn max_of(a: i64, b: i64) -> (r: i64)
    ensures
        r == max_int(a as int, b as int),
{
    if a >= b {
        a
    } else {
        b
    }
}

/// The smaller of two quantities.
pub fn min_of(a: i64, b: i64) -> (r: i64)
    ensures
        r == min_int(a as int, b as int),
{
    if a <= b {
        a
    } else {
        b
    }
}

/// Adding a non-negative amount to an already clamped non-negative sum gives
/// the clamp of the exact sum, so running totals can be kept in an `i64`.
pub proof fn lemma_clamp_add_nonneg(a: int, b: int)
    requires
        a >= 0,
        b >= 0,
    ensures
        clamp_i64(clamp_i64(a) + b) == clamp_i64(a + b),
{
}

} // verus!
