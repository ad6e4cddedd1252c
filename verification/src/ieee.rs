//! IEEE-754 binary32 and binary64 values as bit patterns.
//!
//! A pattern is a sign bit, a biased exponent and a fraction. Patterns whose
//! exponent field is all ones and whose fraction is not zero are NaN. Every
//! other pattern denotes a number (or an infinity), and those are ordered by
//! an integer key: the magnitude bits, negated when the sign bit is set. Both
//! zeros share the key 0. The module `numbers` shows that the order of the
//! keys is the order of the numbers.

use vstd::prelude::*;

pub mod numbers;
pub mod widening;

pub use widening::{same_value, widen};

verus! {

/// The sign bit's weight in a single-precision pattern.
pub const SINGLE_SIGN: u32 = 0x8000_0000;

/// The pattern of single-precision positive infinity.
pub const SINGLE_INFINITY: u32 = 0x7f80_0000;

/// The pattern of single-precision negative infinity.
pub const SINGLE_NEG_INFINITY: u32 = 0xff80_0000;

/// The sign bit's weight in a double-precision pattern.
pub const DOUBLE_SIGN: u64 = 0x8000_0000_0000_0000;

/// The pattern of double-precision positive infinity.
pub const DOUBLE_INFINITY: u64 = 0x7ff0_0000_0000_0000;

/// The pattern of double-precision negative infinity.
pub const DOUBLE_NEG_INFINITY: u64 = 0xfff0_0000_0000_0000;

/// The pattern of the double-precision number one.
pub const DOUBLE_ONE: u64 = 0x3ff0_0000_0000_0000;

/// Magnitude bits of a single-precision pattern: exponent and fraction.
pub open spec fn single_magnitude(bits: u32) -> int {
    bits as int % 0x8000_0000
}

/// Whether the sign bit of a single-precision pattern is set.
pub open spec fn single_negative(bits: u32) -> bool {
    bits >= 0x8000_0000
}

/// Whether a single-precision pattern is a NaN.
pub open spec fn single_is_nan(bits: u32) -> bool {
    single_magnitude(bits) > 0x7f80_0000
}

/// The integer by which single-precision numbers are ordered.
pub open spec fn single_key(bits: u32) -> int {
    if single_negative(bits) {
        -single_magnitude(bits)
    } else {
        single_magnitude(bits)
    }
}

/// `a < b` as IEEE-754 defines it: false when either side is NaN.
pub open spec fn single_lt(a: u32, b: u32) -> bool {
    !single_is_nan(a) && !single_is_nan(b) && single_key(a) < single_key(b)
}

/// The smaller of two single-precision numbers, a NaN giving way to the
/// other side. Of two that compare equal, such as the two zeros, it is `a`.
pub open spec fn single_minimum(a: u32, b: u32) -> u32 {
    if single_is_nan(a) {
        b
    } else if single_lt(b, a) {
        b
    } else {
        a
    }
}

/// The larger of two single-precision numbers, a NaN giving way to the
/// other side. Of two that compare equal, such as the two zeros, it is `a`.
pub open spec fn single_maximum(a: u32, b: u32) -> u32 {
    if single_is_nan(a) {
        b
    } else if single_lt(a, b) {
        b
    } else {
        a
    }
}

/// Magnitude bits of a double-precision pattern: exponent and fraction.
pub open spec fn double_magnitude(bits: u64) -> int {
    bits as int % 0x8000_0000_0000_0000
}

/// Whether the sign bit of a double-precision pattern is set.
pub open spec fn double_negative(bits: u64) -> bool {
    bits >= 0x8000_0000_0000_0000
}

/// Whether a double-precision pattern is a NaN.
pub open spec fn double_is_nan(bits: u64) -> bool {
    double_magnitude(bits) > 0x7ff0_0000_0000_0000
}

/// The integer by which double-precision numbers are ordered.
pub open spec fn double_key(bits: u64) -> int {
    if double_negative(bits) {
        -double_magnitude(bits)
    } else {
        double_magnitude(bits)
    }
}

/// `a < b` as IEEE-754 defines it: false when either side is NaN.
pub open spec fn double_lt(a: u64, b: u64) -> bool {
    !double_is_nan(a) && !double_is_nan(b) && double_key(a) < double_key(b)
}

/// `a <= b` as IEEE-754 defines it: false when either side is NaN.
pub open spec fn double_le(a: u64, b: u64) -> bool {
    !double_is_nan(a) && !double_is_nan(b) && double_key(a) <= double_key(b)
}

/// The smaller of two double-precision numbers, a NaN giving way to the
/// other side. Of two that compare equal, such as the two zeros, it is `a`.
pub open spec fn double_minimum(a: u64, b: u64) -> u64 {
    if double_is_nan(a) {
        b
    } else if double_lt(b, a) {
        b
    } else {
        a
    }
}

/// The larger of two double-precision numbers, a NaN giving way to the
/// other side. Of two that compare equal, such as the two zeros, it is `a`.
pub open spec fn double_maximum(a: u64, b: u64) -> u64 {
    if double_is_nan(a) {
        b
    } else if double_lt(a, b) {
        b
    } else {
        a
    }
}

/// Computes the ordering key of a single-precision pattern.
pub fn single_order_key(bits: u32) -> (key: i64)
    ensures
        key == single_key(bits),
{
    let magnitude: u32 = bits % SINGLE_SIGN;
    if bits >= SINGLE_SIGN {
        -(magnitude as i64)
    } else {
        magnitude as i64
    }
}

/// Tells whether a single-precision pattern is a NaN.
pub fn is_single_nan(bits: u32) -> (nan: bool)
    ensures
        nan == single_is_nan(bits),
{
    bits % SINGLE_SIGN > SINGLE_INFINITY
}

/// Decides `a < b` for two single-precision patterns.
pub fn single_less(a: u32, b: u32) -> (less: bool)
    ensures
        less == single_lt(a, b),
{
    !is_single_nan(a) && !is_single_nan(b) && single_order_key(a) < single_order_key(b)
}

/// Picks the smaller of two single-precision patterns, ignoring NaN.
pub fn single_min(a: u32, b: u32) -> (least: u32)
    ensures
        least == single_minimum(a, b),
{
    if is_single_nan(a) {
        b
    } else if single_less(b, a) {
        b
    } else {
        a
    }
}

/// Picks the larger of two single-precision patterns, ignoring NaN.
pub fn single_max(a: u32, b: u32) -> (greatest: u32)
    ensures
        greatest == single_maximum(a, b),
{
    if is_single_nan(a) {
        b
    } else if single_less(a, b) {
        b
    } else {
        a
    }
}

/// Of two patterns, the minimum is one of them, is a number whenever one of
/// them is, and is then no larger than any of them that is a number; the
/// maximum likewise.
pub proof fn lemma_single_extremes(a: u32, b: u32)
    ensures
        single_minimum(a, b) == a || single_minimum(a, b) == b,
        single_maximum(a, b) == a || single_maximum(a, b) == b,
        single_is_nan(single_minimum(a, b)) <==> single_is_nan(a) && single_is_nan(b),
        single_is_nan(single_maximum(a, b)) <==> single_is_nan(a) && single_is_nan(b),
        !single_is_nan(a) ==> single_key(single_minimum(a, b)) <= single_key(a) <= single_key(
            single_maximum(a, b),
        ),
        !single_is_nan(b) ==> single_key(single_minimum(a, b)) <= single_key(b) <= single_key(
            single_maximum(a, b),
        ),
{
}

/// Computes the ordering key of a double-precision pattern.
pub fn double_order_key(bits: u64) -> (key: i64)
    ensures
        key == double_key(bits),
{
    let magnitude: u64 = bits % DOUBLE_SIGN;
    if bits >= DOUBLE_SIGN {
        -(magnitude as i64)
    } else {
        magnitude as i64
    }
}

/// Tells whether a double-precision pattern is a NaN.
pub fn is_double_nan(bits: u64) -> (nan: bool)
    ensures
        nan == double_is_nan(bits),
{
    bits % DOUBLE_SIGN > DOUBLE_INFINITY
}

/// Decides `a < b` for two double-precision patterns.
pub fn double_less(a: u64, b: u64) -> (less: bool)
    ensures
        less == double_lt(a, b),
{
    !is_double_nan(a) && !is_double_nan(b) && double_order_key(a) < double_order_key(b)
}

/// Decides `a <= b` for two double-precision patterns.
pub fn double_less_eq(a: u64, b: u64) -> (less_eq: bool)
    ensures
        less_eq == double_le(a, b),
{
    !is_double_nan(a) && !is_double_nan(b) && double_order_key(a) <= double_order_key(b)
}

/// Picks the smaller of two double-precision patterns, ignoring NaN.
pub fn double_min(a: u64, b: u64) -> (least: u64)
    ensures
        least == double_minimum(a, b),
{
    if is_double_nan(a) {
        b
    } else if double_less(b, a) {
        b
    } else {
        a
    }
}

/// Picks the larger of two double-precision patterns, ignoring NaN.
pub fn double_max(a: u64, b: u64) -> (greatest: u64)
    ensures
        greatest == double_maximum(a, b),
{
    if is_double_nan(a) {
        b
    } else if double_less(a, b) {
        b
    } else {
        a
    }
}

} // verus!
