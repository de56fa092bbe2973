use burl::stats::Quantile;
use burl::{DurationScale, RequestResult, SampleCollector, StatsProcessor, StatsSummary};

fn collector_with(
    thread_idx: usize,
    scale: DurationScale,
    outcomes: &[(u64, u64, u64, usize, Option<u64>)],
) -> SampleCollector {
    let mut collector = SampleCollector::new(thread_idx, outcomes.len(), scale);
    for (start_ns, end_ns, duration_ns, status, content_length) in outcomes {
        collector.add(*start_ns, *end_ns, *duration_ns, *status, *content_length);
    }
    collector
}

/// Status 200 yields a success sample with the times in whole scale
/// units; any other status yields a failure with its code.
#[test]
fn collector_classifies_status() {
    let mut collector = SampleCollector::new(0, 2, DurationScale::Micro);
    collector.add(1_500, 3_999, 2_499, 200, Some(10));
    collector.add(4_000, 5_000, 1_000, 404, None);
    assert_eq!(collector.results.len(), 2);
    match &collector.results[0] {
        RequestResult::Success(sr) => {
            assert_eq!(sr.measurement_start, 1);
            assert_eq!(sr.measurement_end, 3);
            assert_eq!(sr.duration, 2);
            assert_eq!(sr.content_length, Some(10));
            assert_eq!(sr.as_timeseries_point(), (1, 2));
        }
        RequestResult::Failed(_) => panic!("expected a success sample"),
    }
    match &collector.results[1] {
        RequestResult::Failed(code) => assert_eq!(*code, 404),
        RequestResult::Success(_) => panic!("expected a failure"),
    }
}

/// The per-worker reduction counts, extracts and folds correctly.
#[test]
fn thread_stats_reduction() {
    let collector = collector_with(
        0,
        DurationScale::Nano,
        &[
            (0, 7, 7, 200, Some(3)),
            (8, 10, 2, 500, None),
            (11, 14, 3, 200, Some(4)),
            (15, 16, 1, 500, None),
            (17, 30, 13, 404, None),
        ],
    );
    let stats = burl::ThreadStats::from_collector(&collector);
    assert_eq!(stats.n_ok, 2);
    assert_eq!(stats.n_errors, 3);
    assert_eq!(stats.durations, vec![7, 3]);
    assert_eq!(stats.total_bytes, 7);
    assert_eq!(stats.total_duration, Some(10));
    assert_eq!(stats.min, Some(3));
    assert_eq!(stats.max, Some(7));
    let mut errors = stats.errors.clone();
    errors.sort();
    assert_eq!(errors, vec![(404, 1), (500, 2)]);
}

/// A worker without successes reports no totals or extrema.
#[test]
fn thread_stats_without_successes() {
    let collector = collector_with(0, DurationScale::Nano, &[(0, 1, 1, 503, None)]);
    let stats = burl::ThreadStats::from_collector(&collector);
    assert_eq!(stats.n_ok, 0);
    assert_eq!(stats.n_errors, 1);
    assert_eq!(stats.total_duration, None);
    assert_eq!(stats.min, None);
    assert_eq!(stats.max, None);
}

/// The aggregate summary: durations sorted and counted, extrema at the
/// ends, quartiles ordered, counts and failure table summed over the
/// workers.
#[test]
fn summarize_across_workers() {
    let worker_a = collector_with(
        0,
        DurationScale::Nano,
        &[
            (0, 9, 9, 200, Some(1)),
            (10, 12, 2, 200, None),
            (13, 20, 7, 429, None),
        ],
    );
    let worker_b = collector_with(
        1,
        DurationScale::Nano,
        &[
            (0, 5, 5, 200, Some(2)),
            (6, 13, 7, 200, Some(3)),
            (14, 15, 1, 429, None),
            (16, 17, 1, 500, None),
        ],
    );
    let processor = StatsProcessor::new(DurationScale::Nano, vec![worker_a, worker_b]);
    let summary = processor.stats_summary().expect("two workers with successes");

    // the aggregate durations are sorted ascending and match the ok count
    assert_eq!(summary.durations, vec![2, 5, 7, 9]);
    assert_eq!(summary.n_ok, 4);
    assert_eq!(summary.n_errors, 3);
    assert_eq!(summary.total_duration, 23);
    assert_eq!(summary.total_bytes, 6);
    assert_eq!(summary.min, 2);
    assert_eq!(summary.max, 9);
    // four samples: the median averages the second and third
    assert_eq!(summary.median, Quantile { lower: 5, upper: 7 });
    assert_eq!(summary.quartile_fst, Quantile { lower: 2, upper: 5 });
    assert_eq!(summary.quartile_trd, Quantile { lower: 7, upper: 9 });
    // the quartiles are ordered by their exact doubled values
    let q1 = summary.quartile_fst.lower as u128 + summary.quartile_fst.upper as u128;
    let q2 = summary.median.lower as u128 + summary.median.upper as u128;
    let q3 = summary.quartile_trd.lower as u128 + summary.quartile_trd.upper as u128;
    assert!(q1 <= q2 && q2 <= q3);

    // the per-worker counts sum to the aggregate counts
    assert_eq!(summary.stats_by_thread.len(), 2);
    let ok_sum: usize = summary.stats_by_thread.iter().map(|(_, t)| t.n_ok).sum();
    let err_sum: usize = summary.stats_by_thread.iter().map(|(_, t)| t.n_errors).sum();
    assert_eq!(ok_sum, summary.n_ok);
    assert_eq!(err_sum, summary.n_errors);
    assert_eq!(summary.stats_by_thread[0].0, 0);
    assert_eq!(summary.stats_by_thread[1].0, 1);

    // the failure table folds both workers
    let mut errors = summary.errors.clone();
    errors.sort();
    assert_eq!(errors, vec![(429, 2), (500, 1)]);
}

/// A run in which nothing succeeded has no summary.
#[test]
fn summarize_without_successes_is_absent() {
    let worker = collector_with(0, DurationScale::Nano, &[(0, 1, 1, 502, None), (2, 3, 1, 502, None)]);
    let processor = StatsProcessor::new(DurationScale::Nano, vec![worker]);
    assert!(processor.stats_summary().is_none());
}

/// An empty run has no summary either.
#[test]
fn summarize_empty_run_is_absent() {
    let processor = StatsProcessor::new(DurationScale::Micro, Vec::new());
    assert!(processor.stats_summary().is_none());
}

/// The fixed display levels and the evenly spaced Q-Q levels.
#[test]
fn percentile_level_tables() {
    let levels = StatsSummary::display_percentile_levels();
    assert_eq!(levels.len(), 13);
    assert_eq!(levels[0], (1, 100));
    assert_eq!(levels[6], (50, 100));
    assert_eq!(levels[12], (99, 100));

    let worker = collector_with(
        0,
        DurationScale::Nano,
        &[
            (0, 1, 10, 200, None),
            (0, 1, 20, 200, None),
            (0, 1, 30, 200, None),
            (0, 1, 40, 200, None),
            (0, 1, 50, 200, None),
            (0, 1, 60, 200, None),
            (0, 1, 70, 200, None),
            (0, 1, 80, 200, None),
            (0, 1, 90, 200, None),
            (0, 1, 100, 200, None),
        ],
    );
    let processor = StatsProcessor::new(DurationScale::Nano, vec![worker]);
    let summary = processor.stats_summary().expect("all successes");
    // ten samples: k = 1, so the curve between the levels is empty
    assert_eq!(summary.qq_percentiles().len(), 0);

    let table = summary.percentiles(&levels);
    assert_eq!(table.len(), 13);
    assert_eq!(table[6].0, (50, 100));
    assert_eq!(table[6].1, Quantile { lower: 50, upper: 60 });
}

/// With a hundred samples the Q-Q curve holds nine evenly spaced points.
#[test]
fn qq_percentiles_hundred_samples() {
    let mut outcomes = Vec::new();
    for i in 0..100u64 {
        outcomes.push((0u64, 1u64, i + 1, 200usize, None));
    }
    let worker = collector_with(0, DurationScale::Nano, &outcomes);
    let processor = StatsProcessor::new(DurationScale::Nano, vec![worker]);
    let summary = processor.stats_summary().expect("all successes");
    let curve = summary.qq_percentiles();
    assert_eq!(curve.len(), 9);
    assert_eq!(curve[0].0, (1, 10));
    assert_eq!(curve[8].0, (9, 10));
    // the median point of the curve averages the fiftieth and fifty-first
    assert_eq!(curve[4].0, (5, 10));
    assert_eq!(curve[4].1, Quantile { lower: 50, upper: 51 });
}
