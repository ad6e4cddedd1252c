//! Stirling's approximation of the gamma function, `sqrt(2 pi / z) * (z /
//! e)^z`, which is used from 1 upwards; below 1 the recurrence `gamma(z) =
//! gamma(z + 1) / z` leads there. This module picks the case of an argument,
//! given as a double-precision bit pattern; the formulas are rounding
//! arithmetic.

use crate::ieee::{double_le, double_less, double_less_eq, double_lt, DOUBLE_ONE};
use vstd::prelude::*;

verus! {

/// How the gamma function is evaluated at an argument.
#[derive(Clone, Copy, Debug, PartialEq, Eq, Structural)]
pub enum GammaCase {
    /// At zero and below the value is positive infinity.
    Infinite,
    /// Above zero and below one: `gamma(z + 1) / z`.
    Recurrence,
    /// Everywhere else, a NaN included: Stirling's approximation.
    Stirling,
}

/// The case of the argument `z`.
pub open spec fn case_of(z: u64) -> GammaCase {
    if double_le(z, 0) {
        GammaCase::Infinite
    } else if double_lt(z, DOUBLE_ONE) {
        GammaCase::Recurrence
    } else {
        GammaCase::Stirling
    }
}

/// Picks how the gamma function is evaluated at `z`.
pub fn gamma_case(z: u64) -> (case: GammaCase)
    ensures
        case == case_of(z),
{
    if double_less_eq(z, 0) {
        GammaCase::Infinite
    } else if double_less(z, DOUBLE_ONE) {
        GammaCase::Recurrence
    } else {
        GammaCase::Stirling
    }
}

} // verus!
