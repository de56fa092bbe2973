use burl::{BootstrapSampler, PermutationTester, TestOutcome};

/// The permutation test reproduces its verdicts with the fixed seed. The
/// duration values are in tenths, scaled to whole units: scaling every
/// sample by ten changes no mean comparison.
#[test]
fn permutation_test() {
    let baseline_samples: Vec<u64> = vec![100; 10];

    let current_samples: Vec<u64> = vec![105, 105, 105, 95, 95, 95];
    let tester = PermutationTester::new(current_samples, baseline_samples.clone());
    let verdict = tester.test(1000, 1, 10).expect("both samples non-empty");
    assert_eq!(verdict.outcome, TestOutcome::Inconclusive);

    let current_samples: Vec<u64> = vec![115, 115, 115, 110, 100, 95];
    let tester = PermutationTester::new(current_samples, baseline_samples.clone());
    let verdict = tester.test(1000, 1, 10).expect("both samples non-empty");
    assert_eq!(verdict.outcome, TestOutcome::Regressed);
    // p-value 0.008
    assert_eq!(verdict.n_extreme, 8);
    assert_eq!(verdict.n_rounds, 1000);

    let current_samples: Vec<u64> = vec![105, 100, 95, 90, 85, 85, 85];
    let tester = PermutationTester::new(current_samples, baseline_samples);
    let verdict = tester.test(1000, 1, 10).expect("both samples non-empty");
    assert_eq!(verdict.outcome, TestOutcome::Improved);
    // p-value 0.013
    assert_eq!(verdict.n_extreme, 13);
    assert_eq!(verdict.n_rounds, 1000);
}

/// The pooled view reads the baseline first, then the current samples.
#[test]
fn pooled_index_order() {
    let tester = PermutationTester::new(vec![30, 40], vec![10, 20]);
    assert_eq!(tester.idx_value(0), Some(10));
    assert_eq!(tester.idx_value(1), Some(20));
    assert_eq!(tester.idx_value(2), Some(30));
    assert_eq!(tester.idx_value(3), Some(40));
    assert_eq!(tester.idx_value(4), None);
}

/// The permutation test yields nothing when either sample is empty.
#[test]
fn permutation_empty_is_absent() {
    let tester = PermutationTester::new(Vec::new(), vec![10, 20, 30]);
    assert!(tester.test(1000, 1, 10).is_none());
    let tester = PermutationTester::new(vec![10, 20, 30], Vec::new());
    assert!(tester.test(1000, 1, 10).is_none());
}

/// The same seed, inputs and sizes yield the identical verdict on every
/// run.
#[test]
fn permutation_test_reproducible() {
    let baseline: Vec<u64> = vec![100, 110, 120, 130, 140];
    let current: Vec<u64> = vec![105, 115, 125, 135];
    let first = PermutationTester::new(current.clone(), baseline.clone()).test(500, 5, 100);
    let second = PermutationTester::new(current, baseline).test(500, 5, 100);
    assert_eq!(first, second);
}

/// Bootstrap resampling is deterministic under the fixed seed: the same
/// input and sizes yield the identical sums, run after run. The library
/// returns each resample's exact integer sum; a mean rendered from it
/// embeds float rounding, so the digest below is asserted on the sums.
#[test]
fn bootstrap_sample_sums_reproducible() {
    let samples: Vec<u64> = vec![100, 110, 120, 105, 170, 330, 420, 20, 150, 140];
    let sampler = BootstrapSampler::new(samples.clone());
    let first = sampler.sample_sums(5, 1000);
    let second = BootstrapSampler::new(samples).sample_sums(5, 1000);
    assert_eq!(first.len(), 1000);
    assert_eq!(first, second);
}

/// The bootstrap mean converges towards the sample mean. The samples are
/// in tenths scaled to whole units, so every total is exact: the sample
/// mean is 166.5, and the grand totals below divide out to resampled
/// means of 167.654 and 166.50610 over one thousand and one hundred
/// thousand resamples of five draws.
#[test]
fn bootstrap_resample_totals() {
    let samples: Vec<u64> = vec![100, 110, 120, 105, 170, 330, 420, 20, 150, 140];
    assert_eq!(samples.iter().sum::<u64>(), 1665);
    let sampler = BootstrapSampler::new(samples);

    let sums = sampler.sample_sums(5, 1000);
    assert_eq!(sums.len(), 1000);
    assert_eq!(sums.iter().sum::<u128>(), 838_270);

    let sums = sampler.sample_sums(5, 100_000);
    assert_eq!(sums.len(), 100_000);
    assert_eq!(sums.iter().sum::<u128>(), 83_253_050);
}

/// Every bootstrap sum is the sum of five drawn samples, so it stays
/// within five times the extrema of the input.
#[test]
fn bootstrap_sums_within_range() {
    let samples: Vec<u64> = vec![10, 11, 12, 17, 33, 42, 2, 15, 14, 16];
    let sampler = BootstrapSampler::new(samples);
    let sums = sampler.sample_sums(5, 200);
    assert_eq!(sums.len(), 200);
    for s in sums {
        assert!(10 <= s && s <= 210);
    }
}

/// The shared decision rule: insignificant results are inconclusive, and
/// significant ones follow the sign of the mean difference.
#[test]
fn outcome_classification() {
    assert_eq!(burl::testers::classify_outcome(false, true), TestOutcome::Inconclusive);
    assert_eq!(burl::testers::classify_outcome(false, false), TestOutcome::Inconclusive);
    assert_eq!(burl::testers::classify_outcome(true, true), TestOutcome::Regressed);
    assert_eq!(burl::testers::classify_outcome(true, false), TestOutcome::Improved);
}

/// Swapping the two samples flips the verdict's direction. The two runs
/// draw their group assignments independently, so only the direction is
/// compared here; the exact counts are asserted separately above.
#[test]
fn permutation_swap_flips_direction() {
    let baseline: Vec<u64> = vec![100; 10];
    let current: Vec<u64> = vec![115, 115, 115, 110, 100, 95];
    let forward = PermutationTester::new(current.clone(), baseline.clone())
        .test(1000, 1, 10)
        .expect("both samples non-empty");
    let swapped = PermutationTester::new(baseline, current)
        .test(1000, 1, 10)
        .expect("both samples non-empty");
    assert_eq!(forward.outcome, TestOutcome::Regressed);
    assert_eq!(swapped.outcome, TestOutcome::Improved);
    assert_eq!(forward.n_extreme, swapped.n_extreme);
}
