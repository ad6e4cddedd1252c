//! The Rosin-Rammler (two-parameter Weibull) distribution of droplet sizes:
//! validation of its parameters, and the search for the shape that matches a
//! Sauter mean diameter at a given 90th-percentile diameter.
//!
//! All numbers are double-precision bit patterns. The moments, the closed
//! form of the scale and the midpoint of an interval are rounding arithmetic
//! and are evaluated by the caller; what is accepted, what is rejected and
//! how the search moves is decided here.

use crate::ieee::{double_less, double_lt, DOUBLE_ONE};
use vstd::prelude::*;

verus! {

/// The lowest shape that the search considers: 1.5.
pub const SEARCH_LOWER: u64 = 0x3ff8_0000_0000_0000;

/// The highest shape that the search considers: 10.
pub const SEARCH_UPPER: u64 = 0x4024_0000_0000_0000;

/// The first shape that the search tries: 3.
pub const SEARCH_START: u64 = 0x4008_0000_0000_0000;

/// The relative error below which a trial is accepted: 0.001.
pub const TOLERANCE: u64 = 0x3f50_624d_d2f1_a9fc;

/// The probability at which the 90th-percentile diameter is matched: 0.9.
pub const PERCENTILE: u64 = 0x3fec_cccc_cccc_cccd;

/// The number of trials after which the search gives up testing.
pub const MAX_TRIALS: u32 = 2000;

/// Why a distribution could not be built.
#[derive(Clone, Copy, Debug, PartialEq, Eq, Structural)]
pub enum DistributionError {
    /// The shape is no number above zero.
    ShapeInvalid,
    /// The scale is no number above zero.
    ScaleInvalid,
    /// The point at which the distribution is pinned is no number above
    /// zero.
    PointInvalid,
    /// The probability at the point is not strictly between 0 and 1.
    ProbabilityInvalid,
}

/// A distribution with its shape and its scale (the characteristic size).
#[derive(Clone, Copy, Debug, PartialEq, Eq, Structural)]
pub struct RosinRammler {
    pub shape: u64,
    pub scale: u64,
}

/// Whether a pattern is a number above zero. A NaN is not.
pub open spec fn is_positive(bits: u64) -> bool {
    double_lt(0, bits)
}

/// What `new` returns: the first parameter that is not a number above zero
/// is rejected, the shape before the scale.
pub open spec fn checked_parameters(shape: u64, scale: u64) -> Result<
    RosinRammler,
    DistributionError,
> {
    if !is_positive(shape) {
        Err(DistributionError::ShapeInvalid)
    } else if !is_positive(scale) {
        Err(DistributionError::ScaleInvalid)
    } else {
        Ok(RosinRammler { shape, scale })
    }
}

/// The first reason, if any, for which a shape, a point and the probability
/// at that point pin no distribution: the shape and the point have to be
/// numbers above zero, the probability a number strictly between 0 and 1.
pub open spec fn pin_fault(shape: u64, x: u64, p_x: u64) -> Option<DistributionError> {
    if !is_positive(shape) {
        Some(DistributionError::ShapeInvalid)
    } else if !is_positive(x) {
        Some(DistributionError::PointInvalid)
    } else if !(is_positive(p_x) && double_lt(p_x, DOUBLE_ONE)) {
        Some(DistributionError::ProbabilityInvalid)
    } else {
        None
    }
}

/// What `from_shape_and_cdf` returns: the first fault of the three
/// arguments, or else the distribution with the scale that was handed in,
/// unless that scale is no number above zero.
pub open spec fn pinned(shape: u64, x: u64, p_x: u64, scale: u64) -> Result<
    RosinRammler,
    DistributionError,
> {
    match pin_fault(shape, x, p_x) {
        Some(fault) => Err(fault),
        None => if is_positive(scale) {
            Ok(RosinRammler { shape, scale })
        } else {
            Err(DistributionError::ScaleInvalid)
        },
    }
}

impl RosinRammler {
    /// The invariant of a distribution: its shape and its scale are numbers
    /// above zero.
    pub open spec fn valid(self) -> bool {
        is_positive(self.shape) && is_positive(self.scale)
    }

    /// Tells whether a distribution is valid.
    pub fn is_valid(&self) -> (valid: bool)
        ensures
            valid == self.valid(),
    {
        double_less(0, self.shape) && double_less(0, self.scale)
    }

    /// Builds a distribution from a shape and a scale, both above zero.
    pub fn new(shape: u64, scale: u64) -> (built: Result<Self, DistributionError>)
        ensures
            built == checked_parameters(shape, scale),
            built matches Ok(dist) ==> dist.valid(),
    {
        if !double_less(0, shape) {
            return Err(DistributionError::ShapeInvalid);
        }
        if !double_less(0, scale) {
            return Err(DistributionError::ScaleInvalid);
        }
        Ok(RosinRammler { shape, scale })
    }

    /// Checks a shape, a point `x` and the probability `p_x` that the
    /// distribution is to reach at `x`: the shape and the point above zero,
    /// the probability strictly between 0 and 1.
    pub fn check_shape_and_cdf(shape: u64, x: u64, p_x: u64) -> (checked: Result<
        (),
        DistributionError,
    >)
        ensures
            checked == match pin_fault(shape, x, p_x) {
                Some(fault) => Err::<(), DistributionError>(fault),
                None => Ok::<(), DistributionError>(()),
            },
    {
        if !double_less(0, shape) {
            return Err(DistributionError::ShapeInvalid);
        }
        if !double_less(0, x) {
            return Err(DistributionError::PointInvalid);
        }
        if !(double_less(0, p_x) && double_less(p_x, DOUBLE_ONE)) {
            return Err(DistributionError::ProbabilityInvalid);
        }
        Ok(())
    }

    /// Builds the distribution with the given shape whose cumulative
    /// probability at `x` is `p_x`. Its scale is `x / (-ln(1 - p_x))^(1 /
    /// shape)`; the caller evaluates that and hands it in as `scale`. The
    /// three arguments are checked first, then the scale, which has to be a
    /// number above zero as every scale.
    pub fn from_shape_and_cdf(shape: u64, x: u64, p_x: u64, scale: u64) -> (built: Result<
        Self,
        DistributionError,
    >)
        ensures
            built == pinned(shape, x, p_x, scale),
            built matches Ok(dist) ==> dist.valid(),
    {
        match Self::check_shape_and_cdf(shape, x, p_x) {
            Err(fault) => Err(fault),
            Ok(()) => Self::new(shape, scale),
        }
    }
}

/// The interval of shapes that a search still considers, and the number of
/// trials that it has judged.
#[derive(Clone, Copy, Debug, PartialEq, Eq, Structural)]
pub struct ShapeSearch {
    pub lower: u64,
    pub upper: u64,
    pub trials: u32,
}

/// What the caller of a search does next.
#[derive(Clone, Copy, Debug, PartialEq, Eq, Structural)]
pub enum SearchAction {
    /// The trial matched: its distribution is the result.
    Accept,
    /// Try the midpoint of the interval.
    Try,
    /// The trials are used up: the distribution at the midpoint of the
    /// interval is the result, untested.
    Settle,
}

/// The search after one more trial has been judged, and what to do next.
/// `error` is the Sauter mean diameter of the trial minus the target,
/// `relative_error` its magnitude over the target. A trial whose relative
/// error is below the tolerance is accepted. Otherwise a trial that came out
/// too large becomes the upper end of the interval, and any other the lower
/// end.
pub open spec fn judged(search: ShapeSearch, shape: u64, error: u64, relative_error: u64) -> (
    ShapeSearch,
    SearchAction,
) {
    if double_lt(relative_error, TOLERANCE) {
        (search, SearchAction::Accept)
    } else {
        let narrowed = if double_lt(0, error) {
            ShapeSearch { lower: search.lower, upper: shape, trials: (search.trials + 1) as u32 }
        } else {
            ShapeSearch { lower: shape, upper: search.upper, trials: (search.trials + 1) as u32 }
        };
        if narrowed.trials >= MAX_TRIALS {
            (narrowed, SearchAction::Settle)
        } else {
            (narrowed, SearchAction::Try)
        }
    }
}

impl ShapeSearch {
    /// The search before its first trial, which is `SEARCH_START`.
    pub fn start() -> (search: Self)
        ensures
            search == (ShapeSearch { lower: SEARCH_LOWER, upper: SEARCH_UPPER, trials: 0 }),
    {
        ShapeSearch { lower: SEARCH_LOWER, upper: SEARCH_UPPER, trials: 0 }
    }

    /// Whether the search may judge another trial.
    pub open spec fn open(self) -> bool {
        self.trials < MAX_TRIALS
    }

    /// Tells whether the search may judge another trial.
    pub fn is_open(&self) -> (open: bool)
        ensures
            open == self.open(),
    {
        self.trials < MAX_TRIALS
    }

    /// Judges the trial at `shape` and says what to do next.
    pub fn judge(self, shape: u64, error: u64, relative_error: u64) -> (next: (Self, SearchAction))
        requires
            self.open(),
        ensures
            next == judged(self, shape, error, relative_error),
            next.1 == SearchAction::Try ==> next.0.open(),
            next.1 == SearchAction::Settle <==> !next.0.open(),
    {
        if double_less(relative_error, TOLERANCE) {
            return (self, SearchAction::Accept);
        }
        let narrowed: ShapeSearch = if double_less(0, error) {
            ShapeSearch { lower: self.lower, upper: shape, trials: self.trials + 1 }
        } else {
            ShapeSearch { lower: shape, upper: self.upper, trials: self.trials + 1 }
        };
        if narrowed.trials >= MAX_TRIALS {
            (narrowed, SearchAction::Settle)
        } else {
            (narrowed, SearchAction::Try)
        }
    }

    /// Judges a trial if the search is still open: `None` once the trials
    /// are used up.
    pub fn try_judge(self, shape: u64, error: u64, relative_error: u64) -> (next: Option<
        (Self, SearchAction),
    >)
        ensures
            next == if self.open() {
                Some(judged(self, shape, error, relative_error))
            } else {
                None
            },
    {
        if self.is_open() {
            Some(self.judge(shape, error, relative_error))
        } else {
            None
        }
    }
}

/// A search judges at most `MAX_TRIALS` trials: each verdict but acceptance
/// uses one up, and the last one closes the search.
pub proof fn lemma_search_is_bounded(
    search: ShapeSearch,
    shape: u64,
    error: u64,
    relative_error: u64,
)
    requires
        search.open(),
    ensures
        judged(search, shape, error, relative_error).1 == SearchAction::Accept ==> judged(
            search,
            shape,
            error,
            relative_error,
        ).0 == search,
        judged(search, shape, error, relative_error).1 != SearchAction::Accept ==> judged(
            search,
            shape,
            error,
            relative_error,
        ).0.trials == search.trials + 1,
        judged(search, shape, error, relative_error).0.trials <= MAX_TRIALS,
{
}

} // verus!
