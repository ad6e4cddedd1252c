use autofoam::histogram::{
    bin_members, check_all_in_range, check_edges_increasing, find_bin, is_in_bin,
    partition_samples, sample_range, try_sample_range, HistogramResult,
};

fn bits(values: &[f64]) -> Vec<u64> {
    values.iter().map(|v| v.to_bits()).collect()
}

struct Histogram {
    bin_edges: Vec<f64>,
    heights: Vec<f64>,
}

fn weighted_histogram(values: &[f64], weights: &[f64], bin_width: &f64) -> Histogram {
    let samples = bits(values);
    let (least, greatest) = match try_sample_range(&samples) {
        Some(range) => range,
        None => panic!("Cannot create histogram from empty input"),
    };
    let min_value = f64::from_bits(least);
    let max_value = f64::from_bits(greatest);

    let bin_edges: Vec<f64> = (0..)
        .map(|i| min_value + i as f64 * bin_width)
        .take_while(|&edge| edge <= max_value + bin_width)
        .collect();
    let edges = bits(&bin_edges);
    let sorted =
        partition_samples(&edges, &samples).unwrap_or_else(|| bin_members(&edges, &samples));
    let heights: Vec<f64> = sorted
        .iter()
        .map(|inside| inside.iter().fold(0.0, |sum, &j| sum + weights[j]))
        .collect();
    Histogram { bin_edges, heights }
}

#[test]
fn test_equal_weights() {
    let values = vec![1.0, 2.0];
    let weights = vec![1.0, 1.0];
    let bin_width = 1.0;
    let result = weighted_histogram(&values, &weights, &bin_width);
    // [1.0, 2.0) = 1.0
    // [2.0, 3.0) = 1.0
    assert_eq!(result.bin_edges, vec![1.0, 2.0, 3.0]);
    assert_eq!(result.heights, vec![1.0, 1.0]);
}

#[test]
fn test_unequal_weights() {
    let values = vec![1.0, 2.0];
    let weights = vec![1.0, 2.0];
    let bin_width = 1.0;
    let result = weighted_histogram(&values, &weights, &bin_width);
    // [1.0, 2.0) = 1.0
    // [2.0, 3.0) = 2.0
    assert_eq!(result.bin_edges, vec![1.0, 2.0, 3.0]);
    assert_eq!(result.heights, vec![1.0, 2.0]);
}

#[test]
fn test_spaced_out_values() {
    let values = vec![1.0, 3.0];
    let weights = vec![1.0, 1.0];
    let bin_width = 1.0;
    let result = weighted_histogram(&values, &weights, &bin_width);
    // [1.0, 2.0) = 1.0
    // [2.0, 3.0) = 0.0
    // [3.0, 4.0) = 1.0
    assert_eq!(result.bin_edges, vec![1.0, 2.0, 3.0, 4.0]);
    assert_eq!(result.heights, vec![1.0, 0.0, 1.0]);
}

#[test]
fn test_reversed_values() {
    let values = vec![2.0, 1.0];
    let weights = vec![2.0, 1.0];
    let bin_width = 1.0;
    let result = weighted_histogram(&values, &weights, &bin_width);
    // [1.0, 2.0) = 1.0
    // [2.0, 3.0) = 2.0
    assert_eq!(result.bin_edges, vec![1.0, 2.0, 3.0]);
    assert_eq!(result.heights, vec![1.0, 2.0]);
}

#[test]
fn test_tightly_spaced() {
    let values = vec![1.0, 1.2, 1.4, 1.6, 1.8, 2.0];
    let weights = vec![1.0, 1.0, 1.0, 1.0, 1.0, 1.0];
    let bin_width = 1.0;
    let result = weighted_histogram(&values, &weights, &bin_width);
    // [1.0, 2.0) = 5.0
    // [2.0, 3.0) = 1.0
    assert_eq!(result.bin_edges, vec![1.0, 2.0, 3.0]);
    assert_eq!(result.heights, vec![5.0, 1.0]);
}

#[test]
fn test_single_value() {
    let values = vec![5.0];
    let weights = vec![2.0];
    let bin_width = 1.0;
    let result = weighted_histogram(&values, &weights, &bin_width);
    // [5.0, 6.0) = 2.0
    assert_eq!(result.bin_edges, vec![5.0, 6.0]);
    assert_eq!(result.heights, vec![2.0]);
}

#[test]
fn test_negative_values() {
    let values = vec![-2.0, -1.0, 0.0, 1.0];
    let weights = vec![1.0, 2.0, 3.0, 4.0];
    let bin_width = 1.0;
    let result = weighted_histogram(&values, &weights, &bin_width);
    // [-2.0, -1.0) = 1.0
    // [-1.0, 0.0) = 2.0
    // [0.0, 1.0) = 3.0
    // [1.0, 2.0) = 4.0
    assert_eq!(result.bin_edges, vec![-2.0, -1.0, 0.0, 1.0, 2.0]);
    assert_eq!(result.heights, vec![1.0, 2.0, 3.0, 4.0]);
}

#[test]
fn test_fractional_bin_width() {
    let values = vec![0.0, 0.25, 0.5, 0.75];
    let weights = vec![1.0, 1.0, 1.0, 1.0];
    let bin_width = 0.5;
    let result = weighted_histogram(&values, &weights, &bin_width);
    // [0.0, 0.5) = 2.0
    // [0.5, 1.0) = 2.0
    assert_eq!(result.bin_edges, vec![0.0, 0.5, 1.0]);
    assert_eq!(result.heights, vec![2.0, 2.0]);
}

#[test]
fn test_large_bin_width() {
    let values = vec![1.0, 2.0, 3.0, 4.0, 5.0];
    let weights = vec![1.0, 1.0, 1.0, 1.0, 1.0];
    let bin_width = 10.0;
    let result = weighted_histogram(&values, &weights, &bin_width);
    // One bin: [1.0, 11.0) = 5.0
    assert_eq!(result.bin_edges, vec![1.0, 11.0]);
    assert_eq!(result.heights, vec![5.0]);
}

#[test]
fn test_different_weights() {
    let values = vec![1.0, 1.5, 2.0, 2.5];
    let weights = vec![2.0, 3.0, 4.0, 5.0];
    let bin_width = 1.0;
    let result = weighted_histogram(&values, &weights, &bin_width);
    // [1.0, 2.0) = 5.0
    // [2.0, 3.0) = 9.0
    assert_eq!(result.bin_edges, vec![1.0, 2.0, 3.0]);
    assert_eq!(result.heights, vec![5.0, 9.0]);
}

#[test]
fn test_identical_values() {
    let values = vec![5.0, 5.0, 5.0, 5.0];
    let weights = vec![1.0, 2.0, 3.0, 4.0];
    let bin_width = 1.0;
    let result = weighted_histogram(&values, &weights, &bin_width);
    // [5.0, 6.0) = 10.0
    assert_eq!(result.bin_edges, vec![5.0, 6.0]);
    assert_eq!(result.heights, vec![10.0]);
}

#[test]
fn test_zero_weights() {
    let values = vec![1.0, 2.0, 3.0];
    let weights = vec![0.0, 5.0, 0.0];
    let bin_width = 1.0;
    let result = weighted_histogram(&values, &weights, &bin_width);
    // [1.0, 2.0) = 0.0
    // [2.0, 3.0) = 5.0
    // [3.0, 4.0) = 0.0
    assert_eq!(result.bin_edges, vec![1.0, 2.0, 3.0, 4.0]);
    assert_eq!(result.heights, vec![0.0, 5.0, 0.0]);
}

#[test]
#[should_panic(expected = "Cannot create histogram from empty input")]
fn test_empty_input() {
    let values = vec![];
    let weights = vec![];
    let bin_width = 1.0;
    let _result = weighted_histogram(&values, &weights, &bin_width);
}

#[test]
fn test_empty_sample_has_no_range() {
    assert_eq!(try_sample_range(&[]), None);
    assert_eq!(
        try_sample_range(&bits(&[2.0, -1.0])),
        Some(((-1.0f64).to_bits(), 2.0f64.to_bits()))
    );
    assert_eq!(
        try_sample_range(&bits(&[7.0])),
        Some(sample_range(&bits(&[7.0])))
    );
}

#[test]
fn test_zeros_input() {
    let values = vec![0.0, 0.0];
    let weights = vec![1.0, 1.0];
    let bin_width = 1.0;
    let result = weighted_histogram(&values, &weights, &bin_width);
    // [0.0, 1.0) = 2.0
    assert_eq!(result.bin_edges, vec![0.0, 1.0]);
    assert_eq!(result.heights, vec![2.0]);
}

#[test]
fn test_heights_add_up_to_weights() {
    let values = vec![0.3, 7.9, 2.2, 2.0, 5.5, 0.3, 4.0, 6.99];
    let weights = vec![1.0, 2.0, 4.0, 8.0, 16.0, 32.0, 64.0, 128.0];
    let result = weighted_histogram(&values, &weights, &0.5);
    let binned: f64 = result.heights.iter().sum();
    let total: f64 = weights.iter().sum();
    assert_eq!(binned, total);
    assert_eq!(binned, 255.0);
}

#[test]
fn test_sample_range_ignores_nan() {
    let samples = bits(&[3.0, f64::NAN, -2.5, 8.0, -0.0]);
    let (least, greatest) = sample_range(&samples);
    assert_eq!(f64::from_bits(least), -2.5);
    assert_eq!(f64::from_bits(greatest), 8.0);
    let (least, greatest) = sample_range(&bits(&[f64::NAN]));
    assert_eq!(f64::from_bits(least), f64::INFINITY);
    assert_eq!(f64::from_bits(greatest), f64::NEG_INFINITY);
}

#[test]
fn test_value_on_interior_edge_goes_to_upper_bin() {
    let edges = bits(&[1.0, 2.0, 3.0, 4.0]);
    assert_eq!(find_bin(&edges, 2.0f64.to_bits()), Some(1));
    assert_eq!(find_bin(&edges, 3.0f64.to_bits()), Some(2));
    assert_eq!(find_bin(&edges, 1.0f64.to_bits()), Some(0));
    assert_eq!(find_bin(&edges, 4.0f64.to_bits()), None);
    assert_eq!(find_bin(&edges, 0.999f64.to_bits()), None);
    assert_eq!(find_bin(&edges, f64::NAN.to_bits()), None);
    assert!(is_in_bin(&edges, 1, 2.0f64.to_bits()));
    assert!(!is_in_bin(&edges, 0, 2.0f64.to_bits()));
    let sorted = bin_members(&edges, &bits(&[2.0, 3.0, 2.5, 1.0]));
    assert_eq!(sorted, vec![vec![3], vec![0, 2], vec![1]]);
}

#[test]
fn test_partition_lists_every_sample_once() {
    let edges = bits(&[0.0, 0.5, 1.0, 1.5]);
    let values = bits(&[1.25, 0.0, 0.5, 0.49, 1.0, 0.75]);
    let sorted = partition_samples(&edges, &values).unwrap();
    assert_eq!(sorted, vec![vec![1, 3], vec![2, 5], vec![0, 4]]);
    assert_eq!(sorted, bin_members(&edges, &values));
    let mut seen = vec![0; values.len()];
    for inside in &sorted {
        for &j in inside {
            seen[j] += 1;
        }
    }
    assert_eq!(seen, vec![1; values.len()]);
    assert_eq!(
        partition_samples(&edges, &[]),
        Some(vec![vec![], vec![], vec![]])
    );
}

#[test]
fn test_partition_refuses_what_is_no_partition() {
    let edges = bits(&[0.0, 0.5, 1.0]);
    assert!(check_all_in_range(&edges, &bits(&[0.0, 0.99])));
    assert!(!check_all_in_range(&edges, &bits(&[1.0])));
    assert!(!check_all_in_range(&edges, &bits(&[-0.1])));
    assert!(!check_all_in_range(&edges, &bits(&[f64::NAN])));
    assert!(!check_all_in_range(&bits(&[0.0]), &bits(&[0.0])));
    assert!(check_all_in_range(&[], &[]));
    assert_eq!(partition_samples(&edges, &bits(&[1.0])), None);
    assert_eq!(partition_samples(&edges, &bits(&[0.2, f64::NAN])), None);
    assert_eq!(partition_samples(&bits(&[0.0, 1.0, 1.0]), &bits(&[0.2])), None);
    assert_eq!(partition_samples(&bits(&[1.0, 0.0]), &[]), None);
}

#[test]
fn test_signed_zero_edge() {
    let edges = bits(&[-1.0, 0.0, 1.0]);
    assert_eq!(find_bin(&edges, (-0.0f64).to_bits()), Some(1));
    assert_eq!(find_bin(&edges, 0.0f64.to_bits()), Some(1));
}

#[test]
fn test_bins_without_edges() {
    assert!(bin_members(&[], &bits(&[1.0])).is_empty());
    assert!(bin_members(&bits(&[1.0]), &bits(&[1.0])).is_empty());
    assert_eq!(find_bin(&[], 0), None);
    assert_eq!(bin_members(&bits(&[1.0, 2.0]), &[]), vec![Vec::<usize>::new()]);
}

#[test]
fn test_histogram_well_formedness() {
    let good = HistogramResult {
        bin_edges: bits(&[1.0, 2.0, 3.0]),
        heights: bits(&[1.0, 0.0]),
    };
    assert!(good.is_well_formed());
    assert_eq!(
        good,
        HistogramResult {
            bin_edges: bits(&[1.0, 2.0, 3.0]),
            heights: bits(&[1.0, 0.0]),
        }
    );
    assert_ne!(
        good,
        HistogramResult {
            bin_edges: bits(&[1.0, 2.0, 3.0]),
            heights: bits(&[1.0, 1.0]),
        }
    );
    let negative = HistogramResult {
        bin_edges: bits(&[1.0, 2.0, 3.0]),
        heights: bits(&[1.0, -0.5]),
    };
    assert!(!negative.is_well_formed());
    let short = HistogramResult {
        bin_edges: bits(&[1.0, 2.0]),
        heights: bits(&[1.0, 2.0]),
    };
    assert!(!short.is_well_formed());
    let unordered = HistogramResult {
        bin_edges: bits(&[1.0, 3.0, 2.0]),
        heights: bits(&[1.0, 2.0]),
    };
    assert!(!unordered.is_well_formed());
    let none = HistogramResult {
        bin_edges: vec![],
        heights: vec![],
    };
    assert!(!none.is_well_formed());
    assert!(check_edges_increasing(&bits(&[-1.0, -0.5, 0.0, 7.0])));
    assert!(!check_edges_increasing(&bits(&[0.0, -0.0])));
    assert!(!check_edges_increasing(&bits(&[0.0, f64::NAN])));
}
