//! IEEE-754 values held as bit patterns.
//!
//! The library never computes with real numbers. Where a record carries one
//! (a depth, a coordinate, a matrix entry) it carries the value's bit
//! pattern, and only ever orders two patterns or tests them for equality.
//! A pattern is read as sign and magnitude: the top bit is the sign, the
//! rest, taken as an integer, grows with the absolute value, and every
//! magnitude above that of infinity is a NaN.

use vstd::prelude::*;

verus! {

/// Sign bit of a 64-bit pattern.
pub const DOUBLE_SIGN: u64 = 0x8000_0000_0000_0000;

/// Magnitude of infinity in a 64-bit pattern.
pub const DOUBLE_INF: u64 = 0x7ff0_0000_0000_0000;

/// Sign bit of a 32-bit pattern.
pub const SINGLE_SIGN: u32 = 0x8000_0000;

/// Magnitude of infinity in a 32-bit pattern.
pub const SINGLE_INF: u32 = 0x7f80_0000;

/// The pattern without its sign bit.
pub open spec fn double_magnitude(bits: u64) -> int {
    if bits >= DOUBLE_SIGN {
        bits - DOUBLE_SIGN
    } else {
        bits as int
    }
}

/// Whether a 64-bit pattern is a NaN.
pub open spec fn double_is_nan(bits: u64) -> bool {
    double_magnitude(bits) > DOUBLE_INF
}

/// Position of a pattern on the number line: for two patterns that are not
/// NaN, the one with the smaller position is the smaller number, and both
/// zeros share position 0.
pub open spec fn double_position(bits: u64) -> int {
    if bits >= DOUBLE_SIGN {
        -double_magnitude(bits)
    } else {
        double_magnitude(bits)
    }
}

/// The pattern without its sign bit.
pub open spec fn single_magnitude(bits: u32) -> int {
    if bits >= SINGLE_SIGN {
        bits - SINGLE_SIGN
    } else {
        bits as int
    }
}

/// Whether a 32-bit pattern is a NaN.
pub open spec fn single_is_nan(bits: u32) -> bool {
    single_magnitude(bits) > SINGLE_INF
}

/// Position of a pattern on the number line (see `double_position`).
pub open spec fn single_position(bits: u32) -> int {
    if bits >= SINGLE_SIGN {
        -single_magnitude(bits)
    } else {
        single_magnitude(bits)
    }
}

/// Numeric equality of two 32-bit patterns: no NaN equals anything, and the
/// two zeros are equal.
pub open spec fn single_equal(a: u32, b: u32) -> bool {
    !single_is_nan(a) && !single_is_nan(b) && single_position(a) == single_position(b)
}

/// Numeric `<` of two 32-bit patterns; false when either is a NaN.
pub open spec fn single_less(a: u32, b: u32) -> bool {
    !single_is_nan(a) && !single_is_nan(b) && single_position(a) < single_position(b)
}

/// Depth order of the draw list: every NaN comes before every number, and
/// among numbers the greater depth comes first.
pub open spec fn draws_before(a: u64, b: u64) -> bool {
    if double_is_nan(a) {
        !double_is_nan(b)
    } else {
        !double_is_nan(b) && double_position(a) > double_position(b)
    }
}

/// Two depths that the draw order does not tell apart: two NaNs, or two equal
/// numbers.
pub open spec fn same_depth(a: u64, b: u64) -> bool {
    if double_is_nan(a) {
        double_is_nan(b)
    } else {
        !double_is_nan(b) && double_position(a) == double_position(b)
    }
}

/// Whether a 64-bit pattern is a NaN.
pub fn is_nan_double(bits: u64) -> (r: bool)
    ensures
        r == double_is_nan(bits),
{
    let magnitude: u64 = if bits >= DOUBLE_SIGN {
        bits - DOUBLE_SIGN
    } else {
        bits
    };
    magnitude > DOUBLE_INF
}

/// Whether a 32-bit pattern is a NaN.
pub fn is_nan_single(bits: u32) -> (r: bool)
    ensures
        r == single_is_nan(bits),
{
    let magnitude: u32 = if bits >= SINGLE_SIGN {
        bits - SINGLE_SIGN
    } else {
        bits
    };
    magnitude > SINGLE_INF
}

/// A key that grows with the number: `double_position` shifted to be
/// non-negative.
fn double_key(bits: u64) -> (key: u64)
    ensures
        key == double_position(bits) + DOUBLE_SIGN,
{
    if bits >= DOUBLE_SIGN {
        DOUBLE_SIGN - (bits - DOUBLE_SIGN)
    } else {
        DOUBLE_SIGN + bits
    }
}

/// A key that grows with the number: `single_position` shifted to be
/// non-negative.
fn single_key(bits: u32) -> (key: u32)
    ensures
        key == single_position(bits) + SINGLE_SIGN,
{
    if bits >= SINGLE_SIGN {
        SINGLE_SIGN - (bits - SINGLE_SIGN)
    } else {
        SINGLE_SIGN + bits
    }
}

/// Whether depth `a` is drawn strictly before depth `b`.
pub fn depth_before(a: u64, b: u64) -> (r: bool)
    ensures
        r == draws_before(a, b),
{
    if is_nan_double(a) {
        !is_nan_double(b)
    } else {
        !is_nan_double(b) && double_key(a) > double_key(b)
    }
}

/// Numeric equality of two 32-bit patterns.
pub fn equal_single(a: u32, b: u32) -> (r: bool)
    ensures
        r == single_equal(a, b),
{
    !is_nan_single(a) && !is_nan_single(b) && single_key(a) == single_key(b)
}

/// Numeric `<` of two 32-bit patterns.
pub fn less_single(a: u32, b: u32) -> (r: bool)
    ensures
        r == single_less(a, b),
{
    !is_nan_single(a) && !is_nan_single(b) && single_key(a) < single_key(b)
}

/// The depth order is a strict weak order whose ties are exactly
/// `same_depth`: of two depths exactly one is drawn first, or they tie; the
/// order and the ties are transitive. So sorting by it leaves no pair out of
/// place, whatever the depths.
pub proof fn law_depth_order_total(a: u64, b: u64, c: u64)
    ensures
        !draws_before(a, a),
        same_depth(a, a),
        same_depth(a, b) == same_depth(b, a),
        (draws_before(a, b) && !draws_before(b, a) && !same_depth(a, b)) || (!draws_before(a, b)
            && draws_before(b, a) && !same_depth(a, b)) || (!draws_before(a, b) && !draws_before(
            b,
            a,
        ) && same_depth(a, b)),
        draws_before(a, b) && draws_before(b, c) ==> draws_before(a, c),
        same_depth(a, b) && same_depth(b, c) ==> same_depth(a, c),
        same_depth(a, b) && draws_before(b, c) ==> draws_before(a, c),
        draws_before(a, b) && same_depth(b, c) ==> draws_before(a, c),
        double_is_nan(a) && !double_is_nan(b) ==> draws_before(a, b),
{
}

} // verus!
