//! The numbers that finite patterns denote, and the proof that the keys
//! order them.

use crate::ieee::widening::{
    double_exponent, double_fraction, double_is_finite, double_scale, double_significand,
    same_value, single_exponent, single_fraction, single_is_finite, single_scale,
    single_significand,
};
use crate::ieee::{
    double_is_nan, double_key, double_lt, double_magnitude, double_negative, single_key,
    single_lt, single_magnitude, single_negative, DOUBLE_INFINITY, DOUBLE_NEG_INFINITY,
};
use vstd::arithmetic::power2::{
    lemma2_to64, lemma2_to64_rest, lemma_pow2_adds, lemma_pow2_pos,
    lemma_pow2_strictly_increases, pow2,
};
use vstd::prelude::*;

verus! {

/// The magnitude of a finite single-precision pattern, in units of
/// `2^-149`, the smallest step of the format.
#[verifier::opaque]
pub open spec fn single_weight(bits: u32) -> int {
    single_significand(bits) * pow2((single_scale(bits) + 149) as nat)
}

/// The number that a finite single-precision pattern denotes, in units of
/// `2^-149`.
pub open spec fn single_number(bits: u32) -> int {
    if single_negative(bits) {
        -single_weight(bits)
    } else {
        single_weight(bits)
    }
}

/// The magnitude of a finite double-precision pattern, in units of
/// `2^-1074`, the smallest step of the format.
#[verifier::opaque]
pub open spec fn double_weight(bits: u64) -> int {
    double_significand(bits) * pow2((double_scale(bits) + 1074) as nat)
}

/// The number that a finite double-precision pattern denotes, in units of
/// `2^-1074`.
pub open spec fn double_number(bits: u64) -> int {
    if double_negative(bits) {
        -double_weight(bits)
    } else {
        double_weight(bits)
    }
}

/// `2^a <= 2^b` for `a <= b`.
proof fn lemma_pow2_increases(a: nat, b: nat)
    requires
        a <= b,
    ensures
        pow2(a) <= pow2(b),
{
    if a < b {
        lemma_pow2_strictly_increases(a, b);
    }
}

/// A significand below `2^(width + 1)` that is at least `2^width` unless the
/// exponent field is zero, scaled by the exponent, lies in the binade of the
/// exponent.
proof fn lemma_weight_bounds(significand: int, exponent: nat, width: nat)
    requires
        0 <= significand < pow2(width + 1),
        exponent >= 1 ==> significand >= pow2(width),
    ensures
        exponent == 0 ==> significand * pow2(0) == significand,
        exponent >= 1 ==> pow2((width + exponent - 1) as nat) <= significand * pow2(
            (exponent - 1) as nat,
        )
            < pow2(width + exponent),
{
    lemma2_to64();
    if exponent >= 1 {
        let step = pow2((exponent - 1) as nat);
        lemma_pow2_pos((exponent - 1) as nat);
        lemma_pow2_adds(width, (exponent - 1) as nat);
        lemma_pow2_adds(width + 1, (exponent - 1) as nat);
        assert(pow2(width) * step <= significand * step) by (nonlinear_arith)
            requires
                pow2(width) <= significand,
                step > 0,
        ;
        assert(significand * step < pow2(width + 1) * step) by (nonlinear_arith)
            requires
                significand < pow2(width + 1),
                step > 0,
        ;
    } else {
        assert(significand * 1 == significand) by (nonlinear_arith);
    }
}

/// The weight of a finite single-precision pattern lies in the binade of its
/// exponent.
proof fn lemma_single_weight_bounds(bits: u32)
    requires
        single_is_finite(bits),
    ensures
        single_exponent(bits) == 0 ==> single_weight(bits) == single_fraction(bits),
        single_exponent(bits) >= 1 ==> pow2((22 + single_exponent(bits)) as nat) <= single_weight(
            bits,
        ) < pow2((23 + single_exponent(bits)) as nat),
{
    reveal(single_weight);
    lemma2_to64();
    lemma_weight_bounds(single_significand(bits), single_exponent(bits) as nat, 23);
}

/// The weight of a finite double-precision pattern lies in the binade of its
/// exponent.
proof fn lemma_double_weight_bounds(bits: u64)
    requires
        double_is_finite(bits),
    ensures
        double_exponent(bits) == 0 ==> double_weight(bits) == double_fraction(bits),
        double_exponent(bits) >= 1 ==> pow2((51 + double_exponent(bits)) as nat) <= double_weight(
            bits,
        ) < pow2((52 + double_exponent(bits)) as nat),
{
    reveal(double_weight);
    lemma2_to64_rest();
    lemma_weight_bounds(double_significand(bits), double_exponent(bits) as nat, 52);
}

/// Among finite single-precision patterns, a larger magnitude field denotes
/// a larger magnitude.
proof fn lemma_single_weight_order(a: u32, b: u32)
    requires
        single_is_finite(a),
        single_is_finite(b),
        single_magnitude(a) < single_magnitude(b),
    ensures
        single_weight(a) < single_weight(b),
{
    reveal(single_weight);
    lemma2_to64();
    lemma_single_weight_bounds(a);
    lemma_single_weight_bounds(b);
    let ea = single_exponent(a);
    let eb = single_exponent(b);
    if ea == eb {
        if ea >= 1 {
            let step = pow2((ea - 1) as nat);
            lemma_pow2_pos((ea - 1) as nat);
            assert(single_significand(a) * step < single_significand(b) * step)
                by (nonlinear_arith)
                requires
                    single_significand(a) < single_significand(b),
                    step > 0,
            ;
        }
    } else {
        assert(ea < eb);
        if ea >= 1 {
            lemma_pow2_increases((23 + ea) as nat, (22 + eb) as nat);
        } else {
            lemma_pow2_increases(23, (22 + eb) as nat);
        }
    }
}

/// Among finite double-precision patterns, a larger magnitude field denotes
/// a larger magnitude.
proof fn lemma_double_weight_order(a: u64, b: u64)
    requires
        double_is_finite(a),
        double_is_finite(b),
        double_magnitude(a) < double_magnitude(b),
    ensures
        double_weight(a) < double_weight(b),
{
    reveal(double_weight);
    lemma2_to64_rest();
    lemma_double_weight_bounds(a);
    lemma_double_weight_bounds(b);
    let ea = double_exponent(a);
    let eb = double_exponent(b);
    if ea == eb {
        if ea >= 1 {
            let step = pow2((ea - 1) as nat);
            lemma_pow2_pos((ea - 1) as nat);
            assert(double_significand(a) * step < double_significand(b) * step)
                by (nonlinear_arith)
                requires
                    double_significand(a) < double_significand(b),
                    step > 0,
            ;
        }
    } else {
        assert(ea < eb);
        if ea >= 1 {
            lemma_pow2_increases((52 + ea) as nat, (51 + eb) as nat);
        } else {
            lemma_pow2_increases(52, (51 + eb) as nat);
        }
    }
}

/// The order of the keys is the order of the numbers: of two finite
/// single-precision patterns, one has the smaller key exactly when it denotes
/// the smaller number, and the same key exactly when it denotes the same
/// number.
pub proof fn lemma_single_key_orders_numbers(a: u32, b: u32)
    requires
        single_is_finite(a),
        single_is_finite(b),
    ensures
        single_key(a) < single_key(b) <==> single_number(a) < single_number(b),
        single_key(a) == single_key(b) <==> single_number(a) == single_number(b),
{
    lemma_single_weight_bounds(a);
    lemma_single_weight_bounds(b);
    if single_magnitude(a) < single_magnitude(b) {
        lemma_single_weight_order(a, b);
    } else if single_magnitude(b) < single_magnitude(a) {
        lemma_single_weight_order(b, a);
    } else {
        assert(single_exponent(a) == single_exponent(b));
        assert(single_fraction(a) == single_fraction(b));
    }
    lemma_single_weight_is_zero_of_zero(a);
    lemma_single_weight_is_zero_of_zero(b);
}

/// The weight of a finite single-precision pattern is zero exactly for the
/// two zeros, and positive otherwise.
proof fn lemma_single_weight_is_zero_of_zero(bits: u32)
    requires
        single_is_finite(bits),
    ensures
        single_weight(bits) >= 0,
        single_weight(bits) == 0 <==> single_magnitude(bits) == 0,
{
    lemma_single_weight_bounds(bits);
    if single_exponent(bits) >= 1 {
        lemma_pow2_pos((22 + single_exponent(bits)) as nat);
    }
}

/// The order of the keys is the order of the numbers: of two finite
/// double-precision patterns, one has the smaller key exactly when it denotes
/// the smaller number, and the same key exactly when it denotes the same
/// number.
pub proof fn lemma_double_key_orders_numbers(a: u64, b: u64)
    requires
        double_is_finite(a),
        double_is_finite(b),
    ensures
        double_key(a) < double_key(b) <==> double_number(a) < double_number(b),
        double_key(a) == double_key(b) <==> double_number(a) == double_number(b),
{
    lemma_double_weight_bounds(a);
    lemma_double_weight_bounds(b);
    if double_magnitude(a) < double_magnitude(b) {
        lemma_double_weight_order(a, b);
    } else if double_magnitude(b) < double_magnitude(a) {
        lemma_double_weight_order(b, a);
    } else {
        assert(double_exponent(a) == double_exponent(b));
        assert(double_fraction(a) == double_fraction(b));
    }
    lemma_double_weight_is_zero_of_zero(a);
    lemma_double_weight_is_zero_of_zero(b);
}

/// The weight of a finite double-precision pattern is zero exactly for the
/// two zeros, and positive otherwise.
proof fn lemma_double_weight_is_zero_of_zero(bits: u64)
    requires
        double_is_finite(bits),
    ensures
        double_weight(bits) >= 0,
        double_weight(bits) == 0 <==> double_magnitude(bits) == 0,
{
    lemma_double_weight_bounds(bits);
    if double_exponent(bits) >= 1 {
        lemma_pow2_pos((51 + double_exponent(bits)) as nat);
    }
}

/// The keys of the infinities lie beyond the keys of all finite patterns,
/// and a NaN has no place in the order.
pub proof fn lemma_infinities_bound_the_order(bits: u64)
    requires
        double_is_finite(bits),
    ensures
        !double_is_nan(bits),
        !double_is_nan(DOUBLE_INFINITY),
        !double_is_nan(DOUBLE_NEG_INFINITY),
        double_key(DOUBLE_NEG_INFINITY) < double_key(bits) < double_key(DOUBLE_INFINITY),
{
}

/// Widening keeps the number: what a finite single-precision pattern denotes
/// in units of `2^-149`, its widened pattern denotes in units of `2^-1074`,
/// which are `2^925` times finer.
pub proof fn lemma_same_value_is_same_number(narrow: u32, wide: u64)
    requires
        single_is_finite(narrow),
        same_value(narrow, wide),
    ensures
        double_is_finite(wide),
        double_number(wide) == single_number(narrow) * pow2(925),
{
    reveal(double_weight);
    reveal(single_weight);
    let m = single_significand(narrow);
    let up = (single_scale(narrow) - double_scale(wide)) as nat;
    let low = (double_scale(wide) + 1074) as nat;
    let own = (single_scale(narrow) + 149) as nat;
    lemma_pow2_adds(up, low);
    lemma_pow2_adds(own, 925);
    assert(up + low == own + 925);
    assert((m * pow2(up)) * pow2(low) == (m * pow2(own)) * pow2(925)) by (nonlinear_arith)
        requires
            pow2(up) * pow2(low) == pow2(own) * pow2(925),
    ;
    assert((-(m * pow2(own))) * pow2(925) == -((m * pow2(own)) * pow2(925)))
        by (nonlinear_arith);
}

/// Widening keeps the order: two finite single-precision patterns compare
/// as their widened patterns do.
pub proof fn lemma_widening_keeps_order(a: u32, b: u32, wide_a: u64, wide_b: u64)
    requires
        single_is_finite(a),
        single_is_finite(b),
        same_value(a, wide_a),
        same_value(b, wide_b),
    ensures
        single_lt(a, b) <==> double_lt(wide_a, wide_b),
        single_key(a) == single_key(b) <==> double_key(wide_a) == double_key(wide_b),
{
    lemma_same_value_is_same_number(a, wide_a);
    lemma_same_value_is_same_number(b, wide_b);
    lemma_single_key_orders_numbers(a, b);
    lemma_double_key_orders_numbers(wide_a, wide_b);
    lemma_pow2_pos(925);
    let x = single_number(a);
    let y = single_number(b);
    let unit = pow2(925);
    assert((x < y <==> x * unit < y * unit) && (x == y <==> x * unit == y * unit))
        by (nonlinear_arith)
        requires
            unit > 0,
    ;
}

} // verus!
