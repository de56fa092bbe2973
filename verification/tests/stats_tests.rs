use burl::stats::{percentile, percentile_indices, sorted_copy, sum, Quantile};

/// The percentile table of a ten-sample run: the median averages the two
/// middle samples, the quartiles land on single samples.
#[test]
fn percentile_table() {
    let mut samples = vec![82u64, 91, 12, 92, 63, 9, 28, 55, 96, 97];
    samples = sorted_copy(&samples);
    assert_eq!(samples, vec![9, 12, 28, 55, 63, 82, 91, 92, 96, 97]);

    // the median of ten samples averages the fifth and the sixth
    let median = percentile(&samples, 1, 2);
    assert_eq!(median, Quantile { lower: 63, upper: 82 });

    let quartile_fst = percentile(&samples, 1, 4);
    assert_eq!(quartile_fst, Quantile { lower: 28, upper: 28 });

    let quartile_trd = percentile(&samples, 3, 4);
    assert_eq!(quartile_trd, Quantile { lower: 92, upper: 92 });
}

/// A single-sample sequence yields that sample at every level.
#[test]
fn percentile_single_sample() {
    let samples = vec![42u64];
    let levels: [(u64, u64); 6] = [(1, 100), (1, 4), (1, 2), (3, 4), (99, 100), (1, 1)];
    for (num, den) in levels {
        assert_eq!(percentile(&samples, num, den), Quantile { lower: 42, upper: 42 });
    }
}

/// The confidence-interval bounds of a 101-point distribution at the ten
/// percent level: the five and ninety-five percent percentiles.
#[test]
fn confidence_interval_bounds() {
    let mut distribution: Vec<u64> = Vec::with_capacity(101);
    for v in 0..=100u64 {
        distribution.push(v);
    }
    // alpha = 1/10, so the bounds sit at alpha/2 and 1 - alpha/2
    let lower = percentile(&distribution, 5, 100);
    let upper = percentile(&distribution, 95, 100);
    assert_eq!(lower, Quantile { lower: 5, upper: 5 });
    assert_eq!(upper, Quantile { lower: 95, upper: 95 });
}

/// The index helper agrees with the percentile on where it reads.
#[test]
fn percentile_index_pairs() {
    // ten samples at the median: positions five and six (zero-indexed 4, 5)
    assert_eq!(percentile_indices(10, 1, 2), (4, 5));
    // a fractional candidate reads one position
    assert_eq!(percentile_indices(10, 1, 4), (2, 2));
    assert_eq!(percentile_indices(10, 3, 4), (7, 7));
    // the full level reads the last sample twice
    assert_eq!(percentile_indices(10, 1, 1), (9, 9));
}

/// Sorting keeps the values and orders them ascending.
#[test]
fn sorting_is_stable_on_values() {
    let samples = vec![5u64, 3, 3, 8, 1];
    let sorted = sorted_copy(&samples);
    assert_eq!(sorted, vec![1, 3, 3, 5, 8]);
    assert_eq!(sorted.len(), samples.len());
}

/// The sum is exact.
#[test]
fn sum_exact() {
    let samples = vec![2u64, 4, 4, 4, 5, 5, 7, 9];
    assert_eq!(sum(&samples), 40u128);
    assert_eq!(sum(&Vec::new()), 0u128);
}
