//! The fields of a pattern, and the widening of single precision to double
//! precision.
//!
//! A finite pattern denotes `m * 2^e`, up to its sign, for an integer
//! significand `m` and a scale `e` that its exponent field and its fraction
//! field give.

use crate::ieee::{
    double_is_nan, double_magnitude, double_negative, single_is_nan, single_magnitude,
    single_negative, DOUBLE_INFINITY, DOUBLE_NEG_INFINITY, DOUBLE_SIGN, SINGLE_SIGN,
};
use vstd::arithmetic::power2::{lemma2_to64, lemma_pow2_adds, lemma_pow2_unfold, pow2};
use vstd::prelude::*;

verus! {

/// The exponent field of a single-precision pattern.
pub open spec fn single_exponent(bits: u32) -> int {
    single_magnitude(bits) / 0x80_0000
}

/// The fraction field of a single-precision pattern.
pub open spec fn single_fraction(bits: u32) -> int {
    single_magnitude(bits) % 0x80_0000
}

/// Whether a single-precision pattern is neither an infinity nor a NaN.
pub open spec fn single_is_finite(bits: u32) -> bool {
    single_exponent(bits) < 255
}

/// The integer `m` of a finite single-precision pattern, whose magnitude is
/// `m * 2^single_scale`.
pub open spec fn single_significand(bits: u32) -> int {
    if single_exponent(bits) == 0 {
        single_fraction(bits)
    } else {
        0x80_0000 + single_fraction(bits)
    }
}

/// The power of two by which the significand of a finite single-precision
/// pattern is scaled.
pub open spec fn single_scale(bits: u32) -> int {
    if single_exponent(bits) == 0 {
        -149
    } else {
        single_exponent(bits) - 150
    }
}

/// The exponent field of a double-precision pattern.
pub open spec fn double_exponent(bits: u64) -> int {
    double_magnitude(bits) / 0x10_0000_0000_0000
}

/// The fraction field of a double-precision pattern.
pub open spec fn double_fraction(bits: u64) -> int {
    double_magnitude(bits) % 0x10_0000_0000_0000
}

/// Whether a double-precision pattern is neither an infinity nor a NaN.
pub open spec fn double_is_finite(bits: u64) -> bool {
    double_exponent(bits) < 2047
}

/// The integer `m` of a finite double-precision pattern, whose magnitude is
/// `m * 2^double_scale`.
pub open spec fn double_significand(bits: u64) -> int {
    if double_exponent(bits) == 0 {
        double_fraction(bits)
    } else {
        0x10_0000_0000_0000 + double_fraction(bits)
    }
}

/// The power of two by which the significand of a finite double-precision
/// pattern is scaled.
pub open spec fn double_scale(bits: u64) -> int {
    if double_exponent(bits) == 0 {
        -1074
    } else {
        double_exponent(bits) - 1075
    }
}

/// Whether the double-precision pattern `wide` denotes what the
/// single-precision pattern `narrow` denotes: the same number with the same
/// sign, the same infinity, or a NaN for a NaN.
pub open spec fn same_value(narrow: u32, wide: u64) -> bool {
    if single_is_nan(narrow) {
        double_is_nan(wide)
    } else if !single_is_finite(narrow) {
        wide == if single_negative(narrow) {
            DOUBLE_NEG_INFINITY
        } else {
            DOUBLE_INFINITY
        }
    } else {
        &&& double_is_finite(wide)
        &&& double_negative(wide) == single_negative(narrow)
        &&& double_scale(wide) <= single_scale(narrow)
        &&& double_significand(wide) == single_significand(narrow) * pow2(
            (single_scale(narrow) - double_scale(wide)) as nat,
        )
    }
}

/// Widens a single-precision pattern to the double-precision pattern of the
/// same value. Every single-precision number is a double-precision number,
/// so nothing is rounded.
pub fn widen(bits: u32) -> (wide: u64)
    ensures
        same_value(bits, wide),
{
    let sign: u64 = if bits >= SINGLE_SIGN {
        DOUBLE_SIGN
    } else {
        0
    };
    let magnitude: u32 = bits % SINGLE_SIGN;
    let exponent: u64 = (magnitude / 0x80_0000) as u64;
    let fraction: u64 = (magnitude % 0x80_0000) as u64;
    proof {
        lemma2_to64();
    }
    if exponent == 255 {
        if fraction == 0 {
            sign + DOUBLE_INFINITY
        } else {
            sign + 0x7ff8_0000_0000_0000 + (fraction % 0x40_0000) * 0x2000_0000
        }
    } else if exponent == 0 {
        if fraction == 0 {
            proof {
                assert(single_significand(bits) == 0);
                assert(double_significand(sign) == 0);
                assert(0 * pow2(925) == 0) by (nonlinear_arith);
                assert(single_scale(bits) - double_scale(sign) == 925);
            }
            sign
        } else {
            let mut m: u64 = fraction;
            let mut shift: u64 = 0;
            assert(m == fraction * pow2(0)) by (nonlinear_arith)
                requires
                    m == fraction,
                    pow2(0) == 1,
            ;
            while m < 0x80_0000
                invariant
                    0 < fraction < 0x80_0000,
                    0 < m < 0x100_0000,
                    shift <= 23,
                    pow2(shift as nat) <= m,
                    m == fraction * pow2(shift as nat),
                decreases 23 - shift,
            {
                proof {
                    lemma2_to64();
                    lemma_pow2_unfold((shift + 1) as nat);
                    assert(m * 2 == fraction * pow2((shift + 1) as nat)) by (nonlinear_arith)
                        requires
                            m == fraction * pow2(shift as nat),
                            pow2((shift + 1) as nat) == 2 * pow2(shift as nat),
                    ;
                }
                m = m * 2;
                shift = shift + 1;
            }
            let wide: u64 = sign + (897 - shift) * 0x10_0000_0000_0000 + (m - 0x80_0000)
                * 0x2000_0000;
            proof {
                lemma_pow2_adds(shift as nat, 29);
                assert(double_exponent(wide) == 897 - shift);
                assert(double_fraction(wide) == (m - 0x80_0000) * 0x2000_0000);
                assert(double_significand(wide) == m * 0x2000_0000);
                assert(fraction * pow2((shift + 29) as nat) == m * 0x2000_0000) by (nonlinear_arith)
                    requires
                        m == fraction * pow2(shift as nat),
                        pow2((shift + 29) as nat) == pow2(shift as nat) * 0x2000_0000,
                ;
            }
            wide
        }
    } else {
        let wide: u64 = sign + (exponent + 896) * 0x10_0000_0000_0000 + fraction * 0x2000_0000;
        proof {
            assert(double_exponent(wide) == exponent + 896);
            assert(double_fraction(wide) == fraction * 0x2000_0000);
            assert(single_scale(bits) - double_scale(wide) == 29);
            assert(pow2(29) == 0x2000_0000);
            assert(double_significand(wide) == single_significand(bits) * 0x2000_0000);
        }
        wide
    }
}

} // verus!
