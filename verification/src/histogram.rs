//! Weighted histograms over fixed-width bins.
//!
//! Bin `i` of a histogram with edges `e0, e1, .., en` is the half-open
//! interval from `ei` to `ei+1`: a sample that equals `ei` belongs to bin
//! `i`, one that equals `ei+1` does not. The height of a bin is the sum of
//! the weights of its samples. Samples and edges are double-precision bit
//! patterns; this module finds the range of a sample and the samples of each
//! bin, and leaves the sums, which round, to its caller.

use crate::ieee::{
    double_is_nan, double_key, double_le, double_less, double_less_eq, double_lt, double_max,
    double_maximum, double_min, double_minimum, is_double_nan, DOUBLE_INFINITY,
    DOUBLE_NEG_INFINITY,
};
use vstd::prelude::*;

verus! {

/// Bin edges and bin heights, as double-precision bit patterns.
#[derive(Debug, PartialEq)]
pub struct HistogramResult {
    pub bin_edges: Vec<u64>,
    pub heights: Vec<u64>,
}

impl HistogramResult {
    /// The invariant of a histogram: one more edge than heights, the edges
    /// increasing, and no height negative or NaN.
    pub open spec fn well_formed(&self) -> bool {
        &&& self.bin_edges@.len() == self.heights@.len() + 1
        &&& edges_increasing(self.bin_edges@)
        &&& forall|i: int|
            0 <= i < self.heights@.len() ==> !double_is_nan(#[trigger] self.heights@[i])
                && double_key(self.heights@[i]) >= 0
    }

    /// Decides whether this histogram is well formed.
    pub fn is_well_formed(&self) -> (valid: bool)
        ensures
            valid == self.well_formed(),
    {
        if self.bin_edges.len() == 0 || self.bin_edges.len() - 1 != self.heights.len() {
            return false;
        }
        if !check_edges_increasing(self.bin_edges.as_slice()) {
            return false;
        }
        let mut i: usize = 0;
        while i < self.heights.len()
            invariant
                i <= self.heights@.len(),
                forall|j: int|
                    0 <= j < i ==> !double_is_nan(#[trigger] self.heights@[j]) && double_key(
                        self.heights@[j],
                    ) >= 0,
            decreases self.heights@.len() - i,
        {
            if !double_less_eq(0, self.heights[i]) {
                return false;
            }
            i = i + 1;
        }
        true
    }
}

/// Whether each edge is smaller than the next, and none is NaN.
pub open spec fn edges_increasing(edges: Seq<u64>) -> bool {
    &&& forall|i: int| 0 <= i < edges.len() ==> !double_is_nan(#[trigger] edges[i])
    &&& forall|i: int, j: int|
        0 <= i < j < edges.len() ==> double_key(edges[i]) < double_key(edges[j])
}

/// Decides whether each edge is smaller than the next.
pub fn check_edges_increasing(edges: &[u64]) -> (increasing: bool)
    ensures
        increasing == edges_increasing(edges@),
{
    let mut i: usize = 0;
    while i < edges.len()
        invariant
            i <= edges@.len(),
            forall|k: int| 0 <= k < i ==> !double_is_nan(#[trigger] edges@[k]),
            forall|k: int, j: int| 0 <= k < j < i ==> double_key(edges@[k]) < double_key(edges@[j]),
        decreases edges@.len() - i,
    {
        if is_double_nan(edges[i]) {
            return false;
        }
        if i > 0 && !double_less(edges[i - 1], edges[i]) {
            assert(!(double_key(edges@[i - 1]) < double_key(edges@[i as int])));
            return false;
        }
        i = i + 1;
    }
    true
}

/// The smallest of the first `n` samples, NaN ignored: positive infinity
/// when there is none.
pub open spec fn running_minimum(values: Seq<u64>, n: int) -> u64
    decreases n,
{
    if n <= 0 {
        DOUBLE_INFINITY
    } else {
        double_minimum(running_minimum(values, n - 1), values[n - 1])
    }
}

/// The largest of the first `n` samples, NaN ignored: negative infinity
/// when there is none.
pub open spec fn running_maximum(values: Seq<u64>, n: int) -> u64
    decreases n,
{
    if n <= 0 {
        DOUBLE_NEG_INFINITY
    } else {
        double_maximum(running_maximum(values, n - 1), values[n - 1])
    }
}

/// Finds the smallest and the largest sample, NaN ignored. A histogram needs
/// a sample: an empty one has no range.
pub fn sample_range(values: &[u64]) -> (range: (u64, u64))
    requires
        values@.len() > 0,
    ensures
        range.0 == running_minimum(values@, values@.len() as int),
        range.1 == running_maximum(values@, values@.len() as int),
{
    let mut least: u64 = DOUBLE_INFINITY;
    let mut greatest: u64 = DOUBLE_NEG_INFINITY;
    let mut n: usize = 0;
    while n < values.len()
        invariant
            n <= values@.len(),
            least == running_minimum(values@, n as int),
            greatest == running_maximum(values@, n as int),
        decreases values@.len() - n,
    {
        least = double_min(least, values[n]);
        greatest = double_max(greatest, values[n]);
        n = n + 1;
    }
    (least, greatest)
}

/// Finds the range of a sample, if it has one: `None` for an empty sample.
pub fn try_sample_range(values: &[u64]) -> (range: Option<(u64, u64)>)
    ensures
        range.is_some() <==> values@.len() > 0,
        range matches Some(found) ==> found.0 == running_minimum(
            values@,
            values@.len() as int,
        ) && found.1 == running_maximum(values@, values@.len() as int),
{
    if values.len() == 0 {
        None
    } else {
        Some(sample_range(values))
    }
}

/// The range of a sample bounds every sample that is a number, and is never
/// NaN.
pub proof fn lemma_range_bounds_samples(values: Seq<u64>, n: int, j: int)
    requires
        0 <= j < n <= values.len(),
    ensures
        !double_is_nan(running_minimum(values, n)),
        !double_is_nan(running_maximum(values, n)),
        !double_is_nan(values[j]) ==> double_le(running_minimum(values, n), values[j]),
        !double_is_nan(values[j]) ==> double_le(values[j], running_maximum(values, n)),
    decreases n,
{
    lemma_range_is_a_number(values, n - 1);
    if j < n - 1 {
        lemma_range_bounds_samples(values, n - 1, j);
    }
}

/// The range of a sample is never NaN.
pub proof fn lemma_range_is_a_number(values: Seq<u64>, n: int)
    ensures
        !double_is_nan(running_minimum(values, n)),
        !double_is_nan(running_maximum(values, n)),
    decreases n,
{
    if n > 0 {
        lemma_range_is_a_number(values, n - 1);
    }
}

/// Whether `value` lies in bin `i`: at or above its lower edge and below its
/// upper edge.
pub open spec fn in_bin(edges: Seq<u64>, i: int, value: u64) -> bool {
    double_le(edges[i], value) && double_lt(value, edges[i + 1])
}

/// The number of bins that `edges` bound.
pub open spec fn bin_count(edges: Seq<u64>) -> int {
    if edges.len() == 0 {
        0
    } else {
        edges.len() - 1
    }
}

/// Among the first `n` samples, the indices of those in bin `i`, ascending.
pub open spec fn members_below(edges: Seq<u64>, values: Seq<u64>, i: int, n: int) -> Seq<usize>
    decreases n,
{
    if n <= 0 {
        Seq::empty()
    } else if in_bin(edges, i, values[n - 1]) {
        members_below(edges, values, i, n - 1).push((n - 1) as usize)
    } else {
        members_below(edges, values, i, n - 1)
    }
}

/// The indices of the samples in bin `i`, ascending.
pub open spec fn members(edges: Seq<u64>, values: Seq<u64>, i: int) -> Seq<usize> {
    members_below(edges, values, i, values.len() as int)
}

/// Decides whether `value` lies in bin `i`.
pub fn is_in_bin(edges: &[u64], i: usize, value: u64) -> (inside: bool)
    requires
        i + 1 < edges@.len(),
    ensures
        inside == in_bin(edges@, i as int, value),
{
    double_less_eq(edges[i], value) && double_less(value, edges[i + 1])
}

/// Sorts the samples into bins: for each bin, in the order of the edges, the
/// indices of its samples, ascending.
pub fn bin_members(edges: &[u64], values: &[u64]) -> (sorted: Vec<Vec<usize>>)
    ensures
        sorted@.len() == bin_count(edges@),
        forall|i: int|
            0 <= i < bin_count(edges@) ==> (#[trigger] sorted@[i])@ == members(edges@, values@, i),
{
    let mut sorted: Vec<Vec<usize>> = Vec::new();
    if edges.len() == 0 {
        return sorted;
    }
    let bins: usize = edges.len() - 1;
    let mut i: usize = 0;
    while i < bins
        invariant
            bins == edges@.len() - 1,
            i <= bins,
            sorted@.len() == i,
            forall|b: int| 0 <= b < i ==> (#[trigger] sorted@[b])@ == members(edges@, values@, b),
        decreases bins - i,
    {
        let mut inside: Vec<usize> = Vec::new();
        let mut j: usize = 0;
        while j < values.len()
            invariant
                i + 1 < edges@.len(),
                j <= values@.len(),
                inside@ == members_below(edges@, values@, i as int, j as int),
            decreases values@.len() - j,
        {
            if is_in_bin(edges, i, values[j]) {
                inside.push(j);
            }
            j = j + 1;
        }
        sorted.push(inside);
        i = i + 1;
    }
    sorted
}

/// Finds the first bin that holds `value`.
pub fn find_bin(edges: &[u64], value: u64) -> (bin: Option<usize>)
    ensures
        match bin {
            Some(i) => i < bin_count(edges@) && in_bin(edges@, i as int, value) && forall|b: int|
                0 <= b < i ==> !in_bin(edges@, b, value),
            None => forall|b: int| 0 <= b < bin_count(edges@) ==> !in_bin(edges@, b, value),
        },
{
    if edges.len() == 0 {
        return None;
    }
    let bins: usize = edges.len() - 1;
    let mut i: usize = 0;
    while i < bins
        invariant
            bins == edges@.len() - 1,
            i <= bins,
            forall|b: int| 0 <= b < i ==> !in_bin(edges@, b, value),
        decreases bins - i,
    {
        if is_in_bin(edges, i, value) {
            return Some(i);
        }
        i = i + 1;
    }
    None
}

/// A sample that sits exactly on an interior edge belongs to the bin above
/// that edge, and to no other bin.
pub proof fn lemma_edge_sample_goes_to_upper_bin(edges: Seq<u64>, i: int, value: u64)
    requires
        edges_increasing(edges),
        0 < i < edges.len() - 1,
        !double_is_nan(value),
        double_key(value) == double_key(edges[i]),
    ensures
        in_bin(edges, i, value),
        forall|b: int| 0 <= b < bin_count(edges) && b != i ==> !in_bin(edges, b, value),
{
    assert(double_key(edges[i]) < double_key(edges[i + 1]));
    assert forall|b: int| 0 <= b < bin_count(edges) && b != i implies !in_bin(edges, b, value) by {
        if b < i {
            assert(double_key(edges[b + 1]) <= double_key(edges[i])) by {
                if b + 1 < i {
                    assert(double_key(edges[b + 1]) < double_key(edges[i]));
                }
            }
        } else {
            assert(double_key(edges[i]) < double_key(edges[b]));
        }
    }
}

/// How many of the first `bins` bins hold `value`.
pub open spec fn holding_bins(edges: Seq<u64>, value: u64, bins: int) -> int
    decreases bins,
{
    if bins <= 0 {
        0
    } else {
        holding_bins(edges, value, bins - 1) + if in_bin(edges, bins - 1, value) {
            1int
        } else {
            0int
        }
    }
}

/// Whether `value` lies between the first edge and the last: at or above
/// the one, below the other.
pub open spec fn in_range(edges: Seq<u64>, value: u64) -> bool {
    edges.len() >= 2 && double_le(edges[0], value) && double_lt(value, edges[edges.len() - 1])
}

/// Below every edge up to `bins`, no bin holds the value; from the edge that
/// passes it on, exactly one does.
proof fn lemma_holding_bins(edges: Seq<u64>, value: u64, bins: int)
    requires
        edges_increasing(edges),
        0 <= bins < edges.len(),
        double_le(edges[0], value),
    ensures
        holding_bins(edges, value, bins) == if double_lt(value, edges[bins]) {
            1int
        } else {
            0int
        },
    decreases bins,
{
    if bins > 0 {
        lemma_holding_bins(edges, value, bins - 1);
        assert(double_key(edges[bins - 1]) < double_key(edges[bins]));
    }
}

/// With increasing edges, every sample between the first edge and the last
/// lies in exactly one bin.
pub proof fn lemma_sample_in_one_bin(edges: Seq<u64>, value: u64)
    requires
        edges_increasing(edges),
        in_range(edges, value),
    ensures
        holding_bins(edges, value, bin_count(edges)) == 1,
{
    lemma_holding_bins(edges, value, edges.len() - 1);
}

/// Whether every sample lies between the first edge and the last.
pub open spec fn all_in_range(edges: Seq<u64>, values: Seq<u64>) -> bool {
    forall|j: int| 0 <= j < values.len() ==> in_range(edges, #[trigger] values[j])
}

/// Decides whether every sample lies between the first edge and the last.
pub fn check_all_in_range(edges: &[u64], values: &[u64]) -> (inside: bool)
    ensures
        inside == all_in_range(edges@, values@),
{
    let mut j: usize = 0;
    while j < values.len()
        invariant
            j <= values@.len(),
            forall|i: int| 0 <= i < j ==> in_range(edges@, #[trigger] values@[i]),
        decreases values@.len() - j,
    {
        let inside: bool = edges.len() >= 2 && double_less_eq(edges[0], values[j]) && double_less(
            values[j],
            edges[edges.len() - 1],
        );
        if !inside {
            assert(!in_range(edges@, values@[j as int]));
            return false;
        }
        j = j + 1;
    }
    true
}

/// Sorts the samples into bins where the bins partition the sample: where
/// the edges increase and every sample lies between the first edge and the
/// last. Every sample is then listed in exactly one bin, so that the heights
/// of all bins add up to the sum of all weights, for weights that add without
/// rounding. `None` where the edges or a sample are otherwise.
pub fn partition_samples(edges: &[u64], values: &[u64]) -> (sorted: Option<Vec<Vec<usize>>>)
    ensures
        sorted.is_some() <==> edges_increasing(edges@) && all_in_range(edges@, values@),
        sorted matches Some(bins) ==> bins@.len() == bin_count(edges@) && forall|i: int|
            0 <= i < bin_count(edges@) ==> (#[trigger] bins@[i])@ == members(edges@, values@, i),
        sorted.is_some() ==> forall|j: int|
            0 <= j < values@.len() ==> holding_bins(
                edges@,
                #[trigger] values@[j],
                bin_count(edges@),
            ) == 1,
        sorted.is_some() ==> forall|weights: Seq<int>|
            weights.len() >= values@.len() ==> #[trigger] binned_weight(
                edges@,
                values@,
                weights,
                bin_count(edges@),
                values@.len() as int,
            ) == total_weight(weights, values@.len() as int),
{
    if !check_edges_increasing(edges) || !check_all_in_range(edges, values) {
        return None;
    }
    let count: usize = values.len();
    proof {
        assert(values@.len() == count);
        assert forall|weights: Seq<int>|
            weights.len() >= values@.len() implies #[trigger] binned_weight(
            edges@,
            values@,
            weights,
            bin_count(edges@),
            values@.len() as int,
        ) == total_weight(weights, values@.len() as int) by {
            lemma_heights_add_up_to_weights(edges@, values@, weights, values@.len() as int);
        }
        assert forall|j: int| 0 <= j < values@.len() implies holding_bins(
            edges@,
            #[trigger] values@[j],
            bin_count(edges@),
        ) == 1 by {
            lemma_sample_in_one_bin(edges@, values@[j]);
        }
    }
    Some(bin_members(edges, values))
}

/// The sum of the weights of the samples listed in `inside`.
pub open spec fn member_weight(weights: Seq<int>, inside: Seq<usize>) -> int
    decreases inside.len(),
{
    if inside.len() == 0 {
        0
    } else {
        member_weight(weights, inside.drop_last()) + weights[inside.last() as int]
    }
}

/// The sum of the heights of the first `bins` bins, over the first `n`
/// samples, for weights that add without rounding.
pub open spec fn binned_weight(
    edges: Seq<u64>,
    values: Seq<u64>,
    weights: Seq<int>,
    bins: int,
    n: int,
) -> int
    decreases bins,
{
    if bins <= 0 {
        0
    } else {
        binned_weight(edges, values, weights, bins - 1, n) + member_weight(
            weights,
            members_below(edges, values, bins - 1, n),
        )
    }
}

/// The sum of the first `n` weights.
pub open spec fn total_weight(weights: Seq<int>, n: int) -> int
    decreases n,
{
    if n <= 0 {
        0
    } else {
        total_weight(weights, n - 1) + weights[n - 1]
    }
}

/// One more sample adds its weight once for each bin that holds it.
proof fn lemma_binned_weight_step(
    edges: Seq<u64>,
    values: Seq<u64>,
    weights: Seq<int>,
    bins: int,
    n: int,
)
    requires
        0 < n <= values.len() <= usize::MAX,
        n <= weights.len(),
        0 <= bins,
    ensures
        binned_weight(edges, values, weights, bins, n) == binned_weight(
            edges,
            values,
            weights,
            bins,
            n - 1,
        ) + weights[n - 1] * holding_bins(edges, values[n - 1], bins),
    decreases bins,
{
    if bins > 0 {
        lemma_binned_weight_step(edges, values, weights, bins - 1, n);
        let before = members_below(edges, values, bins - 1, n - 1);
        if in_bin(edges, bins - 1, values[n - 1]) {
            let after = before.push((n - 1) as usize);
            assert(after.drop_last() =~= before);
            assert(after.last() == (n - 1) as usize);
            assert(member_weight(weights, after) == member_weight(weights, before) + weights[n
                - 1]);
        }
        assert(weights[n - 1] * holding_bins(edges, values[n - 1], bins) == weights[n - 1]
            * holding_bins(edges, values[n - 1], bins - 1) + if in_bin(
            edges,
            bins - 1,
            values[n - 1],
        ) {
            weights[n - 1]
        } else {
            0int
        }) by (nonlinear_arith)
            requires
                holding_bins(edges, values[n - 1], bins) == holding_bins(
                    edges,
                    values[n - 1],
                    bins - 1,
                ) + if in_bin(edges, bins - 1, values[n - 1]) {
                    1int
                } else {
                    0int
                },
        ;
    }
}

/// With no sample, every bin is empty.
proof fn lemma_binned_weight_empty(edges: Seq<u64>, values: Seq<u64>, weights: Seq<int>, bins: int)
    ensures
        binned_weight(edges, values, weights, bins, 0) == 0,
    decreases bins,
{
    if bins > 0 {
        lemma_binned_weight_empty(edges, values, weights, bins - 1);
    }
}

/// With increasing edges and every sample between the first edge and the
/// last, the heights of all bins add up to the sum of all weights, for
/// weights that add without rounding.
pub proof fn lemma_heights_add_up_to_weights(
    edges: Seq<u64>,
    values: Seq<u64>,
    weights: Seq<int>,
    n: int,
)
    requires
        edges_increasing(edges),
        0 <= n <= values.len() <= usize::MAX,
        n <= weights.len(),
        forall|j: int| 0 <= j < n ==> in_range(edges, #[trigger] values[j]),
    ensures
        binned_weight(edges, values, weights, bin_count(edges), n) == total_weight(weights, n),
    decreases n,
{
    if n == 0 {
        lemma_binned_weight_empty(edges, values, weights, bin_count(edges));
    } else {
        lemma_heights_add_up_to_weights(edges, values, weights, n - 1);
        lemma_binned_weight_step(edges, values, weights, bin_count(edges), n);
        assert(in_range(edges, values[n - 1]));
        lemma_sample_in_one_bin(edges, values[n - 1]);
    }
}

} // verus!
