//! Inverting a piecewise-linear curve through the points `(xs[i], ys[i])`.
//!
//! For a percentile threshold `xs` holds the cumulative weight at each bin
//! edge and `ys` the edges. At or below the first `x` the result is the first
//! `y`; at or above the last `x` it is the last `y`; in between it lies on
//! the segment that brackets the target, or is the lower `y` of a segment
//! whose two `x` are equal. This module finds the case and the segment; the
//! point on the segment is rounding arithmetic. All numbers are
//! double-precision bit patterns.

use crate::ieee::numbers::{double_number, lemma_double_key_orders_numbers};
use crate::ieee::widening::double_is_finite;
use crate::ieee::{double_is_nan, double_key, double_le, double_less, double_less_eq, double_lt};
use vstd::prelude::*;

verus! {

/// How the value at a target is obtained.
#[derive(Clone, Copy, Debug, PartialEq, Eq, Structural)]
pub enum Interpolation {
    /// The value is this pattern, as it stands.
    Exact(u64),
    /// The value lies on the segment from point `lower` to point `lower + 1`:
    /// `y0 + (y1 - y0) * (x_target - x0) / (x1 - x0)`.
    Between { lower: usize },
}

/// Whether the segment that ends at point `i` brackets the target.
pub open spec fn brackets(xs: Seq<u64>, i: int, x_target: u64) -> bool {
    double_le(xs[i - 1], x_target) && double_le(x_target, xs[i])
}

/// The first segment end in `from..xs.len()` whose segment brackets the
/// target, or `xs.len()` when there is none.
pub open spec fn first_bracket(xs: Seq<u64>, x_target: u64, from: int) -> int
    decreases xs.len() - from,
{
    if from >= xs.len() {
        xs.len() as int
    } else if brackets(xs, from, x_target) {
        from
    } else {
        first_bracket(xs, x_target, from + 1)
    }
}

/// The rule of interpolation. A target that no case covers, such as a NaN,
/// gets the pattern of zero.
pub open spec fn interpolation(xs: Seq<u64>, ys: Seq<u64>, x_target: u64) -> Interpolation {
    if double_le(x_target, xs[0]) {
        Interpolation::Exact(ys[0])
    } else if double_le(xs[xs.len() - 1], x_target) {
        Interpolation::Exact(ys[ys.len() - 1])
    } else {
        let i = first_bracket(xs, x_target, 1);
        if i >= xs.len() {
            Interpolation::Exact(0)
        } else if double_lt(xs[i - 1], xs[i]) {
            Interpolation::Between { lower: (i - 1) as usize }
        } else {
            Interpolation::Exact(ys[i - 1])
        }
    }
}

/// Finds how the value of the curve at `x_target` is obtained.
pub fn interpolate(xs: &[u64], ys: &[u64], x_target: u64) -> (found: Interpolation)
    requires
        0 < xs@.len() <= ys@.len(),
    ensures
        found == interpolation(xs@, ys@, x_target),
        found matches Interpolation::Between { lower } ==> lower + 1 < xs@.len() && brackets(
            xs@,
            lower + 1,
            x_target,
        ) && double_lt(xs@[lower as int], xs@[lower + 1]),
{
    if double_less_eq(x_target, xs[0]) {
        return Interpolation::Exact(ys[0]);
    }
    if double_less_eq(xs[xs.len() - 1], x_target) {
        return Interpolation::Exact(ys[ys.len() - 1]);
    }
    let mut i: usize = 1;
    while i < xs.len()
        invariant
            1 <= i <= xs@.len() <= ys@.len(),
            !double_le(x_target, xs@[0]),
            !double_le(xs@[xs@.len() - 1], x_target),
            first_bracket(xs@, x_target, i as int) == first_bracket(xs@, x_target, 1),
        decreases xs@.len() - i,
    {
        if double_less_eq(xs[i - 1], x_target) && double_less_eq(x_target, xs[i]) {
            if double_less(xs[i - 1], xs[i]) {
                return Interpolation::Between { lower: i - 1 };
            }
            return Interpolation::Exact(ys[i - 1]);
        }
        i = i + 1;
    }
    Interpolation::Exact(0)
}

/// Checks the lengths, then finds how the value at `x_target` is obtained:
/// `None` when there is no point, or fewer `ys` than `xs`.
pub fn try_interpolate(xs: &[u64], ys: &[u64], x_target: u64) -> (found: Option<Interpolation>)
    ensures
        found.is_some() <==> 0 < xs@.len() <= ys@.len(),
        found.is_some() ==> found == Some(interpolation(xs@, ys@, x_target)),
{
    if xs.len() == 0 || ys.len() < xs.len() {
        None
    } else {
        Some(interpolate(xs, ys, x_target))
    }
}

/// Whether no `x` is NaN and none is smaller than the one before it.
pub open spec fn non_decreasing(xs: Seq<u64>) -> bool {
    &&& forall|i: int| 0 <= i < xs.len() ==> !double_is_nan(#[trigger] xs[i])
    &&& forall|i: int, j: int| 0 <= i <= j < xs.len() ==> double_key(xs[i]) <= double_key(xs[j])
}

/// At or below the first `x` the value is the first `y`. Cumulative weights
/// start at or above zero, so a target at or below zero gets the first edge.
pub proof fn lemma_low_target_gets_first(xs: Seq<u64>, ys: Seq<u64>, x_target: u64)
    requires
        0 < xs.len() <= ys.len(),
        double_le(0, xs[0]),
        double_le(x_target, 0),
    ensures
        interpolation(xs, ys, x_target) == Interpolation::Exact(ys[0]),
{
}

/// At or above the last `x`, and above the first, the value is the last `y`.
pub proof fn lemma_high_target_gets_last(xs: Seq<u64>, ys: Seq<u64>, x_target: u64)
    requires
        0 < xs.len() <= ys.len(),
        double_le(xs[xs.len() - 1], x_target),
        double_lt(xs[0], x_target),
    ensures
        interpolation(xs, ys, x_target) == Interpolation::Exact(ys[ys.len() - 1]),
{
}

/// The rank of a rule along the curve: 0 for the first point, `2 * lower + 1`
/// for a segment, `2 * (points - 1)` for the last point.
pub open spec fn rank(xs: Seq<u64>, ys: Seq<u64>, x_target: u64) -> int {
    if double_le(x_target, xs[0]) {
        0
    } else if double_le(xs[xs.len() - 1], x_target) {
        2 * (xs.len() - 1)
    } else {
        2 * first_bracket(xs, x_target, 1) - 1
    }
}

/// Past `from`, a bracket is found at the first `x` at or above the target.
proof fn lemma_first_bracket(xs: Seq<u64>, x_target: u64, from: int)
    requires
        non_decreasing(xs),
        1 <= from <= xs.len(),
        !double_is_nan(x_target),
        double_key(xs[from - 1]) < double_key(x_target),
        double_key(x_target) < double_key(xs[xs.len() - 1]),
    ensures
        from <= first_bracket(xs, x_target, from) < xs.len(),
        double_key(xs[first_bracket(xs, x_target, from) - 1]) < double_key(x_target),
        double_key(x_target) <= double_key(xs[first_bracket(xs, x_target, from)]),
    decreases xs.len() - from,
{
    if from < xs.len() && !brackets(xs, from, x_target) {
        lemma_first_bracket(xs, x_target, from + 1);
    }
}

/// On a curve whose `xs` do not decrease, a larger target never falls on an
/// earlier piece of the curve.
pub proof fn lemma_piece_is_monotone(xs: Seq<u64>, ys: Seq<u64>, low: u64, high: u64)
    requires
        0 < xs.len() <= ys.len(),
        non_decreasing(xs),
        double_le(low, high),
    ensures
        rank(xs, ys, low) <= rank(xs, ys, high),
{
    let last = xs.len() - 1;
    assert(double_key(xs[0]) <= double_key(xs[last]));
    if !double_le(low, xs[0]) && !double_le(xs[last], low) {
        lemma_first_bracket(xs, low, 1);
        if !double_le(high, xs[0]) && !double_le(xs[last], high) {
            lemma_first_bracket(xs, high, 1);
            let a = first_bracket(xs, low, 1);
            let b = first_bracket(xs, high, 1);
            if b < a {
                assert(double_key(xs[b]) <= double_key(xs[a - 1]));
            }
        }
    } else if !double_le(high, xs[0]) && !double_le(xs[last], high) {
        lemma_first_bracket(xs, high, 1);
    }
}

/// Whether every pattern is finite.
pub open spec fn all_finite(values: Seq<u64>) -> bool {
    forall|i: int| 0 <= i < values.len() ==> double_is_finite(#[trigger] values[i])
}

/// The value of the curve at a target before any rounding, as a fraction
/// `(numerator, denominator)` in units of `2^-1074`: the pattern's number
/// over 1 where the rule gives a pattern, and on a segment
/// `y0 + (y1 - y0) * (x_target - x0) / (x1 - x0)` over the common
/// denominator `x1 - x0`.
#[verifier::opaque]
pub open spec fn exact_value(xs: Seq<u64>, ys: Seq<u64>, x_target: u64) -> (int, int) {
    match interpolation(xs, ys, x_target) {
        Interpolation::Exact(value) => (double_number(value), 1),
        Interpolation::Between { lower } => {
            let x0 = double_number(xs[lower as int]);
            let x1 = double_number(xs[lower + 1]);
            let y0 = double_number(ys[lower as int]);
            let y1 = double_number(ys[lower + 1]);
            (y0 * (x1 - x0) + (y1 - y0) * (double_number(x_target) - x0), x1 - x0)
        },
    }
}

/// Finite patterns compare by their keys as their numbers compare.
proof fn lemma_numbers_follow_keys(a: u64, b: u64)
    requires
        double_is_finite(a),
        double_is_finite(b),
    ensures
        !double_is_nan(a),
        !double_is_nan(b),
        double_key(a) < double_key(b) <==> double_number(a) < double_number(b),
        double_key(a) <= double_key(b) <==> double_number(a) <= double_number(b),
{
    lemma_double_key_orders_numbers(a, b);
}

/// On a rising segment the value lies between the two ends.
proof fn lemma_segment_bounds(x0: int, x1: int, y0: int, y1: int, t: int)
    requires
        x0 < t <= x1,
        y0 <= y1,
    ensures
        y0 * (x1 - x0) <= y0 * (x1 - x0) + (y1 - y0) * (t - x0) <= y1 * (x1 - x0),
{
    assert(0 <= (y1 - y0) * (t - x0) <= (y1 - y0) * (x1 - x0)) by (nonlinear_arith)
        requires
            0 <= y1 - y0,
            0 < t - x0 <= x1 - x0,
    ;
    assert(y0 * (x1 - x0) + (y1 - y0) * (x1 - x0) == y1 * (x1 - x0)) by (nonlinear_arith);
}

/// In a finite list that does not decrease by its keys, the numbers do not
/// decrease either.
proof fn lemma_numbers_do_not_decrease(values: Seq<u64>, i: int, j: int)
    requires
        non_decreasing(values),
        all_finite(values),
        0 <= i <= j < values.len(),
    ensures
        double_number(values[i]) <= double_number(values[j]),
{
    lemma_numbers_follow_keys(values[i], values[j]);
}

/// Whether a target lies strictly between the first and the last `x`.
pub open spec fn is_inside(xs: Seq<u64>, x_target: u64) -> bool {
    !double_le(x_target, xs[0]) && !double_le(xs[xs.len() - 1], x_target)
}

/// The value at a finite target strictly inside a finite curve that does
/// not decrease: it lies on a segment that brackets the target, between the
/// `y` at the two ends of the segment.
proof fn lemma_inner_value(xs: Seq<u64>, ys: Seq<u64>, x_target: u64) -> (lower: int)
    requires
        0 < xs.len() <= ys.len(),
        non_decreasing(xs),
        non_decreasing(ys),
        all_finite(xs),
        all_finite(ys),
        double_is_finite(x_target),
        is_inside(xs, x_target),
        xs.len() <= usize::MAX,
    ensures
        0 <= lower < xs.len() - 1,
        rank(xs, ys, x_target) == 2 * lower + 1,
        exact_value(xs, ys, x_target).1 == double_number(xs[lower + 1]) - double_number(
            xs[lower],
        ),
        exact_value(xs, ys, x_target).1 > 0,
        exact_value(xs, ys, x_target).0 == double_number(ys[lower]) * exact_value(
            xs,
            ys,
            x_target,
        ).1 + (double_number(ys[lower + 1]) - double_number(ys[lower])) * (double_number(x_target)
            - double_number(xs[lower])),
        double_number(ys[lower]) * exact_value(xs, ys, x_target).1 <= exact_value(
            xs,
            ys,
            x_target,
        ).0 <= double_number(ys[lower + 1]) * exact_value(xs, ys, x_target).1,
{
    reveal(exact_value);
    let last = xs.len() - 1;
    lemma_numbers_follow_keys(x_target, xs[0]);
    lemma_numbers_follow_keys(x_target, xs[last]);
    lemma_first_bracket(xs, x_target, 1);
    let i = first_bracket(xs, x_target, 1);
    lemma_numbers_follow_keys(xs[i - 1], x_target);
    lemma_numbers_follow_keys(x_target, xs[i]);
    lemma_numbers_do_not_decrease(ys, i - 1, i);
    assert(interpolation(xs, ys, x_target) == (Interpolation::Between { lower: (i - 1) as usize }));
    lemma_segment_bounds(
        double_number(xs[i - 1]),
        double_number(xs[i]),
        double_number(ys[i - 1]),
        double_number(ys[i]),
        double_number(x_target),
    );
    i - 1
}

/// The value at a target at or before the first point, or at or beyond the
/// last, is the first `y`, or the last.
proof fn lemma_outer_value(xs: Seq<u64>, ys: Seq<u64>, x_target: u64)
    requires
        0 < xs.len() <= ys.len(),
        !is_inside(xs, x_target),
    ensures
        exact_value(xs, ys, x_target).1 == 1,
        double_le(x_target, xs[0]) ==> rank(xs, ys, x_target) == 0 && exact_value(
            xs,
            ys,
            x_target,
        ).0 == double_number(ys[0]),
        !double_le(x_target, xs[0]) ==> rank(xs, ys, x_target) == 2 * (xs.len() - 1)
            && exact_value(xs, ys, x_target).0 == double_number(ys[ys.len() - 1]),
{
    reveal(exact_value);
}

/// Two fractions with positive denominators, one at most a bound times its
/// denominator and the other at least a larger bound times its own, are in
/// order.
proof fn lemma_fractions_in_order(n1: int, d1: int, n2: int, d2: int, upper: int, lower: int)
    requires
        d1 > 0,
        d2 > 0,
        n1 <= upper * d1,
        lower * d2 <= n2,
        upper <= lower,
    ensures
        n1 * d2 <= n2 * d1,
{
    assert(n1 * d2 <= (upper * d1) * d2) by (nonlinear_arith)
        requires
            n1 <= upper * d1,
            d2 > 0,
    ;
    assert((lower * d2) * d1 <= n2 * d1) by (nonlinear_arith)
        requires
            lower * d2 <= n2,
            d1 > 0,
    ;
    assert((upper * d1) * d2 <= (lower * d2) * d1) by (nonlinear_arith)
        requires
            upper <= lower,
            d1 > 0,
            d2 > 0,
    ;
}

/// On one rising segment a larger target has the larger numerator.
proof fn lemma_same_segment(x0: int, y0: int, y1: int, d: int, t1: int, t2: int)
    requires
        y0 <= y1,
        t1 <= t2,
        d > 0,
    ensures
        (y0 * d + (y1 - y0) * (t1 - x0)) * d <= (y0 * d + (y1 - y0) * (t2 - x0)) * d,
{
    assert((y1 - y0) * (t1 - x0) <= (y1 - y0) * (t2 - x0)) by (nonlinear_arith)
        requires
            0 <= y1 - y0,
            t1 <= t2,
    ;
    let a = y0 * d + (y1 - y0) * (t1 - x0);
    let b = y0 * d + (y1 - y0) * (t2 - x0);
    assert(a * d <= b * d) by (nonlinear_arith)
        requires
            a <= b,
            d > 0,
    ;
}

/// Before rounding, the value of the curve does not fall as the target
/// grows: on a finite curve whose `xs` and `ys` do not decrease, the value
/// at a smaller finite target is at most the value at a larger one. The two
/// fractions are compared by cross-multiplication.
pub proof fn lemma_exact_value_is_monotone(xs: Seq<u64>, ys: Seq<u64>, low: u64, high: u64)
    requires
        0 < xs.len() <= ys.len(),
        xs.len() <= usize::MAX,
        non_decreasing(xs),
        non_decreasing(ys),
        all_finite(xs),
        all_finite(ys),
        double_is_finite(low),
        double_is_finite(high),
        double_le(low, high),
    ensures
        exact_value(xs, ys, low).1 > 0,
        exact_value(xs, ys, high).1 > 0,
        exact_value(xs, ys, low).0 * exact_value(xs, ys, high).1 <= exact_value(xs, ys, high).0
            * exact_value(xs, ys, low).1,
{
    let top = ys.len() - 1;
    let (n1, d1) = exact_value(xs, ys, low);
    let (n2, d2) = exact_value(xs, ys, high);
    lemma_piece_is_monotone(xs, ys, low, high);
    lemma_numbers_follow_keys(low, high);
    if is_inside(xs, low) {
        let i = lemma_inner_value(xs, ys, low);
        if is_inside(xs, high) {
            let j = lemma_inner_value(xs, ys, high);
            if i == j {
                lemma_numbers_do_not_decrease(ys, i, i + 1);
                lemma_same_segment(
                    double_number(xs[i]),
                    double_number(ys[i]),
                    double_number(ys[i + 1]),
                    d1,
                    double_number(low),
                    double_number(high),
                );
            } else {
                lemma_numbers_do_not_decrease(ys, i + 1, j);
                lemma_fractions_in_order(
                    n1,
                    d1,
                    n2,
                    d2,
                    double_number(ys[i + 1]),
                    double_number(ys[j]),
                );
            }
        } else {
            lemma_outer_value(xs, ys, high);
            lemma_numbers_do_not_decrease(ys, i + 1, top);
            lemma_fractions_in_order(
                n1,
                d1,
                n2,
                d2,
                double_number(ys[i + 1]),
                double_number(ys[top]),
            );
        }
    } else {
        lemma_outer_value(xs, ys, low);
        if is_inside(xs, high) {
            let j = lemma_inner_value(xs, ys, high);
            lemma_numbers_do_not_decrease(ys, 0, j);
            lemma_fractions_in_order(
                n1,
                d1,
                n2,
                d2,
                double_number(ys[0]),
                double_number(ys[j]),
            );
        } else {
            lemma_outer_value(xs, ys, high);
            lemma_numbers_do_not_decrease(ys, 0, top);
            lemma_fractions_in_order(n1, d1, n2, d2, n1, n2);
        }
    }
}

} // verus!
