use crate::sample::{RequestResult, SampleCollector, SampleResult, StatusCode, ThreadIdx};
use crate::scale::DurationScale;
use crate::stats::{percentile, sorted, sorted_copy, spec_quantile, sum, sum_seq, Quantile};
use crate::thread_stats::{
    count_failed,
    count_ok,
    count_status,
    distinct_keys,
    lemma_count_status_bound,
    lemma_outcome_counts,
    lemma_pairs_count_absent,
    lemma_pairs_count_at,
    ok_durations,
    ok_samples,
    pairs_count,
    sum_bytes,
    thread_stats_matches,
    ThreadStats,
};
use vstd::prelude::*;

verus! {

/// The successful sample count over all workers.
pub open spec fn total_count_ok(cs: Seq<SampleCollector>) -> int
    decreases cs.len(),
{
    if cs.len() == 0 {
        0
    } else {
        total_count_ok(cs.drop_last()) + count_ok(cs.last().results@)
    }
}

/// The failure count over all workers.
pub open spec fn total_count_failed(cs: Seq<SampleCollector>) -> int
    decreases cs.len(),
{
    if cs.len() == 0 {
        0
    } else {
        total_count_failed(cs.drop_last()) + count_failed(cs.last().results@)
    }
}

/// The outcome count over all workers.
pub open spec fn total_outcomes(cs: Seq<SampleCollector>) -> int
    decreases cs.len(),
{
    if cs.len() == 0 {
        0
    } else {
        total_outcomes(cs.drop_last()) + cs.last().results@.len()
    }
}

/// The declared content bytes over all workers.
pub open spec fn total_sum_bytes(cs: Seq<SampleCollector>) -> int
    decreases cs.len(),
{
    if cs.len() == 0 {
        0
    } else {
        total_sum_bytes(cs.drop_last()) + sum_bytes(cs.last().results@)
    }
}

/// The count of failures with the given status code over all workers.
pub open spec fn total_count_status(cs: Seq<SampleCollector>, code: StatusCode) -> int
    decreases cs.len(),
{
    if cs.len() == 0 {
        0
    } else {
        total_count_status(cs.drop_last(), code) + count_status(cs.last().results@, code)
    }
}

/// The successful durations of all workers, one worker after the other.
pub open spec fn all_durations(cs: Seq<SampleCollector>) -> Seq<u64>
    decreases cs.len(),
{
    if cs.len() == 0 {
        Seq::<u64>::empty()
    } else {
        all_durations(cs.drop_last()) + ok_durations(cs.last().results@)
    }
}

/// The per-worker counts of a reduced worker table, summed.
pub open spec fn sum_thread_n_ok(ts: Seq<(ThreadIdx, ThreadStats)>) -> int
    decreases ts.len(),
{
    if ts.len() == 0 {
        0
    } else {
        sum_thread_n_ok(ts.drop_last()) + ts.last().1.n_ok
    }
}

/// The per-worker failure counts of a reduced worker table, summed.
pub open spec fn sum_thread_n_errors(ts: Seq<(ThreadIdx, ThreadStats)>) -> int
    decreases ts.len(),
{
    if ts.len() == 0 {
        0
    } else {
        sum_thread_n_errors(ts.drop_last()) + ts.last().1.n_errors
    }
}

/// Every aggregate over the workers is non-negative, the ok and failed
/// counts partition the outcomes, and the concatenated durations match
/// the ok count.
pub proof fn lemma_total_counts(cs: Seq<SampleCollector>)
    ensures
        0 <= total_count_ok(cs),
        0 <= total_count_failed(cs),
        0 <= total_sum_bytes(cs),
        total_count_ok(cs) + total_count_failed(cs) == total_outcomes(cs),
        all_durations(cs).len() == total_count_ok(cs),
    decreases cs.len(),
{
    if cs.len() > 0 {
        lemma_total_counts(cs.drop_last());
        lemma_outcome_counts(cs.last().results@);
    }
}

/// Per status code, the total never exceeds the total failure count.
pub proof fn lemma_total_count_status_bound(cs: Seq<SampleCollector>, code: StatusCode)
    ensures
        0 <= total_count_status(cs, code) <= total_count_failed(cs),
    decreases cs.len(),
{
    if cs.len() > 0 {
        lemma_total_count_status_bound(cs.drop_last(), code);
        lemma_count_status_bound(cs.last().results@, code);
    }
}

/// A prefix of the workers contributes at most the whole of each
/// aggregate.
pub proof fn lemma_total_prefix(cs: Seq<SampleCollector>, i: int)
    requires
        0 <= i <= cs.len(),
    ensures
        total_count_ok(cs.subrange(0, i)) <= total_count_ok(cs),
        total_count_failed(cs.subrange(0, i)) <= total_count_failed(cs),
        total_outcomes(cs.subrange(0, i)) <= total_outcomes(cs),
        total_sum_bytes(cs.subrange(0, i)) <= total_sum_bytes(cs),
    decreases cs.len() - i,
{
    if i == cs.len() {
        assert(cs.subrange(0, i) =~= cs);
    } else {
        lemma_total_prefix(cs, i + 1);
        let longer = cs.subrange(0, i + 1);
        assert(longer.drop_last() =~= cs.subrange(0, i));
        lemma_outcome_counts(cs[i].results@);
    }
}

/// Per status code, a prefix of the workers contributes at most the whole.
pub proof fn lemma_total_count_status_prefix(cs: Seq<SampleCollector>, i: int, code: StatusCode)
    requires
        0 <= i <= cs.len(),
    ensures
        total_count_status(cs.subrange(0, i), code) <= total_count_status(cs, code),
    decreases cs.len() - i,
{
    if i == cs.len() {
        assert(cs.subrange(0, i) =~= cs);
    } else {
        lemma_total_count_status_prefix(cs, i + 1, code);
        let longer = cs.subrange(0, i + 1);
        assert(longer.drop_last() =~= cs.subrange(0, i));
        lemma_count_status_bound(cs[i].results@, code);
    }
}

/// Appends a copy of the source durations to the destination.
fn extend_durations(dst: &mut Vec<u64>, src: &Vec<u64>)
    ensures
        final(dst)@ == old(dst)@ + src@,
{
    let mut j: usize = 0;
    proof {
        assert(old(dst)@ + src@.subrange(0, 0) =~= old(dst)@);
    }
    while j < src.len()
        invariant
            j <= src@.len(),
            dst@ == old(dst)@ + src@.subrange(0, j as int),
        decreases src@.len() - j,
    {
        dst.push(src[j]);
        proof {
            assert(old(dst)@ + src@.subrange(0, j as int + 1) =~= (old(dst)@ + src@.subrange(
                0,
                j as int,
            )).push(src@[j as int]));
        }
        j = j + 1;
    }
    proof {
        assert(src@.subrange(0, src@.len() as int) =~= src@);
    }
}

/// The aggregate statistical descriptor of a run: the sorted successful
/// durations, the order statistics over them, the counts and totals, the
/// folded failure table, and the per-worker reductions.
pub struct StatsSummary {
    /// All successful durations, sorted ascending.
    pub durations: Vec<u64>,
    pub scale: DurationScale,
    /// The sum of all successful durations; exact.
    pub total_duration: u128,
    pub total_bytes: u64,
    pub median: Quantile,
    pub quartile_fst: Quantile,
    pub quartile_trd: Quantile,
    pub min: u64,
    pub max: u64,
    pub n_ok: usize,
    pub n_errors: usize,
    /// Worker index and per-worker reduction, one entry per worker.
    pub stats_by_thread: Vec<(ThreadIdx, ThreadStats)>,
    /// Failure counts by status code; each code appears once.
    pub errors: Vec<(StatusCode, usize)>,
}

/// The internal consistency of a summary: the durations are sorted, the
/// ok count is their number, the extrema are the first and last sorted
/// duration, the quartiles follow the percentile rule, and the total is
/// the exact sum.
pub open spec fn summary_wf(s: StatsSummary) -> bool {
    &&& sorted(s.durations@)
    &&& s.n_ok == s.durations@.len()
    &&& s.n_ok > 0
    &&& s.min == s.durations@[0]
    &&& s.max == s.durations@.last()
    &&& s.median == spec_quantile(s.durations@, 1, 2)
    &&& s.quartile_fst == spec_quantile(s.durations@, 1, 4)
    &&& s.quartile_trd == spec_quantile(s.durations@, 3, 4)
    &&& s.total_duration == sum_seq(s.durations@)
    &&& distinct_keys(s.errors@)
}

impl StatsSummary {
    /// Builds the summary from the aggregated run data. Yields nothing
    /// when no request succeeded: a run without successful samples has no
    /// distribution to describe.
    pub fn calculate(
        scale: DurationScale,
        n_errors: usize,
        total_bytes: u64,
        durations: Vec<u64>,
        errors: Vec<(StatusCode, usize)>,
        stats_by_thread: Vec<(ThreadIdx, ThreadStats)>,
    ) -> (r: Option<StatsSummary>)
        requires
            distinct_keys(errors@),
        ensures
            r is None <==> durations@.len() == 0,
            r matches Some(s) ==> {
                &&& summary_wf(s)
                &&& s.durations@.to_multiset() == durations@.to_multiset()
                &&& s.n_ok == durations@.len()
                &&& s.n_errors == n_errors
                &&& s.total_bytes == total_bytes
                &&& s.scale == scale
                &&& s.errors@ == errors@
                &&& s.stats_by_thread@ == stats_by_thread@
            },
    {
        let n = durations.len();
        if n == 0 {
            return None;
        }
        let sorted_durations = sorted_copy(&durations);
        let quartile_fst = percentile(&sorted_durations, 1, 4);
        let median = percentile(&sorted_durations, 1, 2);
        let quartile_trd = percentile(&sorted_durations, 3, 4);
        let min = sorted_durations[0];
        let max = sorted_durations[n - 1];
        let total_duration = sum(&sorted_durations);
        Some(
            StatsSummary {
                durations: sorted_durations,
                scale,
                total_duration,
                total_bytes,
                median,
                quartile_fst,
                quartile_trd,
                min,
                max,
                n_ok: n,
                n_errors,
                stats_by_thread,
                errors,
            },
        )
    }
}

impl StatsSummary {
    /// The percentiles of the run at the given levels; each level is the
    /// fraction `num / den` of its pair and is returned beside its
    /// percentile.
    pub fn percentiles(&self, levels: &Vec<(u64, u64)>) -> (r: Vec<((u64, u64), Quantile)>)
        requires
            summary_wf(*self),
            forall|i: int|
                0 <= i < levels@.len() ==> 1 <= (#[trigger] levels@[i]).0 <= levels@[i].1,
        ensures
            r@.len() == levels@.len(),
            forall|i: int|
                0 <= i < r@.len() ==> (#[trigger] r@[i]).0 == levels@[i] && r@[i].1
                    == spec_quantile(
                    self.durations@,
                    levels@[i].0 as int,
                    levels@[i].1 as int,
                ),
    {
        let mut r: Vec<((u64, u64), Quantile)> = Vec::new();
        let mut i: usize = 0;
        let n = levels.len();
        while i < n
            invariant
                i <= n,
                n == levels@.len(),
                summary_wf(*self),
                forall|k: int|
                    0 <= k < levels@.len() ==> 1 <= (#[trigger] levels@[k]).0 <= levels@[k].1,
                r@.len() == i,
                forall|k: int|
                    0 <= k < i ==> (#[trigger] r@[k]).0 == levels@[k] && r@[k].1 == spec_quantile(
                        self.durations@,
                        levels@[k].0 as int,
                        levels@[k].1 as int,
                    ),
            decreases n - i,
        {
            let (num, den) = levels[i];
            let q = percentile(&self.durations, num, den);
            r.push(((num, den), q));
            i = i + 1;
        }
        r
    }

    /// The fixed levels of the report's percentile table, as fractions
    /// over one hundred.
    pub fn display_percentile_levels() -> (r: Vec<(u64, u64)>)
        ensures
            r@ == seq![
                (1u64, 100u64),
                (5u64, 100u64),
                (10u64, 100u64),
                (20u64, 100u64),
                (30u64, 100u64),
                (40u64, 100u64),
                (50u64, 100u64),
                (60u64, 100u64),
                (70u64, 100u64),
                (80u64, 100u64),
                (90u64, 100u64),
                (95u64, 100u64),
                (99u64, 100u64),
            ],
    {
        let mut r: Vec<(u64, u64)> = Vec::new();
        r.push((1, 100));
        r.push((5, 100));
        r.push((10, 100));
        r.push((20, 100));
        r.push((30, 100));
        r.push((40, 100));
        r.push((50, 100));
        r.push((60, 100));
        r.push((70, 100));
        r.push((80, 100));
        r.push((90, 100));
        r.push((95, 100));
        r.push((99, 100));
        proof {
            assert(r@ =~= seq![
                (1u64, 100u64),
                (5u64, 100u64),
                (10u64, 100u64),
                (20u64, 100u64),
                (30u64, 100u64),
                (40u64, 100u64),
                (50u64, 100u64),
                (60u64, 100u64),
                (70u64, 100u64),
                (80u64, 100u64),
                (90u64, 100u64),
                (95u64, 100u64),
                (99u64, 100u64),
            ]);
        }
        r
    }

    /// The evenly spaced percentile curve that the Q-Q plot is drawn
    /// from: with `k` a tenth of the sample count, the percentiles at
    /// `1/k, ..., (k-1)/k`. Empty when the run holds fewer than ten
    /// samples.
    pub fn qq_percentiles(&self) -> (r: Vec<((usize, usize), Quantile)>)
        requires
            summary_wf(*self),
        ensures
            ({
                let k = self.durations@.len() as int / 10;
                &&& (k == 0 ==> r@.len() == 0)
                &&& (k >= 1 ==> r@.len() == k - 1)
                &&& forall|i: int|
                    0 <= i < r@.len() ==> (#[trigger] r@[i]).0.0 == i + 1 && r@[i].0.1 == k
                        && r@[i].1 == spec_quantile(self.durations@, i + 1, k)
            }),
    {
        let n = self.durations.len();
        let k = n / 10;
        let mut r: Vec<((usize, usize), Quantile)> = Vec::new();
        if k == 0 {
            return r;
        }
        let mut level: usize = 1;
        while level < k
            invariant
                1 <= level <= k,
                k == self.durations@.len() as int / 10,
                k >= 1,
                summary_wf(*self),
                r@.len() == level - 1,
                forall|i: int|
                    0 <= i < r@.len() ==> (#[trigger] r@[i]).0.0 == i + 1 && r@[i].0.1 == k
                        && r@[i].1 == spec_quantile(self.durations@, i + 1, k as int),
            decreases k - level,
        {
            let q = percentile(&self.durations, level as u64, k as u64);
            r.push(((level, k), q));
            level = level + 1;
        }
        r
    }
}

/// The order statistics of a well-formed summary are consistent: the
/// minimum and maximum are the first and last sorted duration and bound
/// every sample, and the quartiles are ordered,
/// `q1 <= median <= q3`, each compared by its exact doubled value.
pub proof fn lemma_summary_order(s: StatsSummary)
    requires
        summary_wf(s),
    ensures
        s.min == s.durations@[0],
        s.max == s.durations@[s.durations@.len() - 1],
        forall|i: int|
            0 <= i < s.durations@.len() ==> s.min <= #[trigger] s.durations@[i] <= s.max,
        s.quartile_fst.spec_twice_value() <= s.median.spec_twice_value(),
        s.median.spec_twice_value() <= s.quartile_trd.spec_twice_value(),
{
    let n = s.durations@.len() as int;
    crate::stats::lemma_percentile_indices_bounds(n, 1, 4);
    crate::stats::lemma_percentile_indices_bounds(n, 1, 2);
    crate::stats::lemma_percentile_indices_bounds(n, 3, 4);
    crate::stats::lemma_percentile_monotone(n, 1, 4, 1, 2);
    crate::stats::lemma_percentile_monotone(n, 1, 2, 3, 4);
}

/// Owns the per-worker collectors of a finished run and reduces them to
/// the aggregate summary.
pub struct StatsProcessor {
    pub scale: DurationScale,
    pub sample_collections: Vec<SampleCollector>,
}

impl StatsProcessor {
    pub fn new(duration_scale: DurationScale, samples_by_thread: Vec<SampleCollector>) -> (r: Self)
        ensures
            r.scale == duration_scale,
            r.sample_collections == samples_by_thread,
    {
        StatsProcessor { scale: duration_scale, sample_collections: samples_by_thread }
    }

    /// The successful samples of each worker, keyed by the worker's index.
    pub fn sample_results_by_thread(&self) -> (r: Vec<(ThreadIdx, Vec<SampleResult>)>)
        ensures
            r@.len() == self.sample_collections@.len(),
            forall|i: int|
                0 <= i < r@.len() ==> (#[trigger] r@[i]).0 == self.sample_collections@[i].thread_idx
                    && r@[i].1@ == ok_samples(self.sample_collections@[i].results@),
    {
        let mut r: Vec<(ThreadIdx, Vec<SampleResult>)> = Vec::new();
        let mut i: usize = 0;
        let n = self.sample_collections.len();
        while i < n
            invariant
                i <= n,
                n == self.sample_collections@.len(),
                r@.len() == i,
                forall|k: int|
                    0 <= k < i ==> (#[trigger] r@[k]).0
                        == self.sample_collections@[k].thread_idx && r@[k].1@ == ok_samples(
                        self.sample_collections@[k].results@,
                    ),
            decreases n - i,
        {
            let collector = &self.sample_collections[i];
            let mut samples: Vec<SampleResult> = Vec::new();
            let mut j: usize = 0;
            let m = collector.results.len();
            proof {
                assert(collector.results@.subrange(0, 0) =~= Seq::<RequestResult>::empty());
            }
            while j < m
                invariant
                    j <= m,
                    m == collector.results@.len(),
                    samples@ == ok_samples(collector.results@.subrange(0, j as int)),
                decreases m - j,
            {
                let ghost next_prefix = collector.results@.subrange(0, j as int + 1);
                proof {
                    assert(next_prefix.drop_last() =~= collector.results@.subrange(0, j as int));
                    assert(next_prefix.last() == collector.results@[j as int]);
                }
                match collector.results[j] {
                    RequestResult::Success(sr) => {
                        samples.push(sr);
                    },
                    RequestResult::Failed(_) => {},
                }
                j = j + 1;
            }
            proof {
                assert(collector.results@.subrange(0, m as int) =~= collector.results@);
            }
            r.push((collector.thread_idx, samples));
            i = i + 1;
        }
        r
    }

    /// Reduces all workers and computes the aggregate summary. Yields
    /// nothing exactly when no request of the whole run succeeded. The
    /// aggregate ok and failure counts are the sums of the per-worker
    /// counts, and the folded failure table counts every worker's
    /// failures by status code.
    pub fn stats_summary(&self) -> (r: Option<StatsSummary>)
        requires
            total_sum_bytes(self.sample_collections@) <= u64::MAX,
            total_outcomes(self.sample_collections@) <= usize::MAX,
        ensures
            r is None <==> total_count_ok(self.sample_collections@) == 0,
            r matches Some(s) ==> {
                &&& summary_wf(s)
                &&& s.scale == self.scale
                &&& s.n_ok == total_count_ok(self.sample_collections@)
                &&& s.n_errors == total_count_failed(self.sample_collections@)
                &&& s.total_bytes == total_sum_bytes(self.sample_collections@)
                &&& s.durations@.to_multiset() == all_durations(
                    self.sample_collections@,
                ).to_multiset()
                &&& forall|c: StatusCode| #[trigger]
                    pairs_count(s.errors@, c) == total_count_status(self.sample_collections@, c)
                &&& s.stats_by_thread@.len() == self.sample_collections@.len()
                &&& forall|i: int|
                    0 <= i < s.stats_by_thread@.len() ==> (#[trigger] s.stats_by_thread@[i]).0
                        == self.sample_collections@[i].thread_idx && thread_stats_matches(
                        s.stats_by_thread@[i].1,
                        self.sample_collections@[i].results@,
                    )
                &&& s.n_ok == sum_thread_n_ok(s.stats_by_thread@)
                &&& s.n_errors == sum_thread_n_errors(s.stats_by_thread@)
            },
    {
        let ghost cs = self.sample_collections@;
        let mut durations: Vec<u64> = Vec::new();
        let mut stats_by_thread: Vec<(ThreadIdx, ThreadStats)> = Vec::new();
        let mut total_bytes: u64 = 0;
        let mut n_errors: usize = 0;
        let mut errors: Vec<(StatusCode, usize)> = Vec::new();
        let n = self.sample_collections.len();
        let mut i: usize = 0;
        proof {
            assert(cs.subrange(0, 0) =~= Seq::<SampleCollector>::empty());
        }
        while i < n
            invariant
                i <= n,
                n == cs.len(),
                cs == self.sample_collections@,
                total_sum_bytes(cs) <= u64::MAX,
                total_outcomes(cs) <= usize::MAX,
                durations@ == all_durations(cs.subrange(0, i as int)),
                total_bytes == total_sum_bytes(cs.subrange(0, i as int)),
                n_errors == total_count_failed(cs.subrange(0, i as int)),
                distinct_keys(errors@),
                forall|c: StatusCode| #[trigger]
                    pairs_count(errors@, c) == total_count_status(cs.subrange(0, i as int), c),
                stats_by_thread@.len() == i,
                forall|k: int|
                    0 <= k < i ==> (#[trigger] stats_by_thread@[k]).0 == cs[k].thread_idx
                        && thread_stats_matches(stats_by_thread@[k].1, cs[k].results@),
                sum_thread_n_ok(stats_by_thread@) == total_count_ok(cs.subrange(0, i as int)),
                sum_thread_n_errors(stats_by_thread@) == total_count_failed(
                    cs.subrange(0, i as int),
                ),
            decreases n - i,
        {
            let ghost prefix = cs.subrange(0, i as int);
            let ghost next_prefix = cs.subrange(0, i as int + 1);
            proof {
                assert(next_prefix.drop_last() =~= prefix);
                assert(next_prefix.last() == cs[i as int]);
                lemma_total_prefix(cs, i as int + 1);
                lemma_outcome_counts(cs[i as int].results@);
                lemma_total_counts(prefix);
            }
            let collector = &self.sample_collections[i];
            let thread_stats = ThreadStats::from_collector(collector);
            n_errors = n_errors + thread_stats.n_errors;
            total_bytes = total_bytes + thread_stats.total_bytes;
            extend_durations(&mut durations, &thread_stats.durations);
            // fold this worker's failure table into the run's table
            let ghost thread_errors = thread_stats.errors@;
            let m = thread_stats.errors.len();
            let mut j: usize = 0;
            proof {
                assert(thread_errors.subrange(0, 0) =~= Seq::<(StatusCode, usize)>::empty());
            }
            while j < m
                invariant
                    j <= m,
                    m == thread_errors.len(),
                    thread_errors == thread_stats.errors@,
                    distinct_keys(thread_errors),
                    forall|c: StatusCode| #[trigger]
                        pairs_count(thread_errors, c) == count_status(cs[i as int].results@, c),
                    total_sum_bytes(cs) <= u64::MAX,
                    total_outcomes(cs) <= usize::MAX,
                    cs == self.sample_collections@,
                    0 <= i < cs.len(),
                    distinct_keys(errors@),
                    forall|c: StatusCode| #[trigger]
                        pairs_count(errors@, c) == total_count_status(cs.subrange(0, i as int), c)
                            + pairs_count(thread_errors.subrange(0, j as int), c),
                decreases m - j,
            {
                let ghost prefix_errors = thread_errors.subrange(0, j as int);
                let ghost next_errors = thread_errors.subrange(0, j as int + 1);
                let (code, count) = thread_stats.errors[j];
                proof {
                    assert(next_errors.drop_last() =~= prefix_errors);
                    assert(next_errors.last() == thread_errors[j as int]);
                    assert forall|k: int| 0 <= k < prefix_errors.len() implies prefix_errors[k].0
                        != code by {
                        assert(distinct_keys(thread_errors));
                    }
                    lemma_pairs_count_absent(prefix_errors, code);
                    lemma_pairs_count_at(thread_errors, j as int);
                    // the bumped total stays within the machine bound
                    assert(cs.subrange(0, i as int + 1).drop_last() =~= cs.subrange(0, i as int));
                    assert(cs.subrange(0, i as int + 1).last() == cs[i as int]);
                    lemma_total_count_status_prefix(cs, i as int + 1, code);
                    lemma_total_count_status_bound(cs, code);
                    lemma_total_counts(cs);
                    lemma_count_status_bound(cs[i as int].results@, code);
                }
                crate::thread_stats::bump_status(&mut errors, code, count);
                proof {
                    assert forall|c: StatusCode| #[trigger] pairs_count(errors@, c)
                        == total_count_status(cs.subrange(0, i as int), c) + pairs_count(
                        next_errors,
                        c,
                    ) by {}
                }
                j = j + 1;
            }
            proof {
                assert(thread_errors.subrange(0, m as int) =~= thread_errors);
            }
            let ghost prev_sbt = stats_by_thread@;
            stats_by_thread.push((collector.thread_idx, thread_stats));
            proof {
                assert(stats_by_thread@.drop_last() =~= prev_sbt);
                assert(sum_thread_n_ok(stats_by_thread@) == sum_thread_n_ok(prev_sbt)
                    + stats_by_thread@.last().1.n_ok);
                assert(sum_thread_n_errors(stats_by_thread@) == sum_thread_n_errors(prev_sbt)
                    + stats_by_thread@.last().1.n_errors);
            }
            i = i + 1;
        }
        proof {
            assert(cs.subrange(0, n as int) =~= cs);
            lemma_total_counts(cs);
        }
        let r = StatsSummary::calculate(
            self.scale,
            n_errors,
            total_bytes,
            durations,
            errors,
            stats_by_thread,
        );
        r
    }
}

} // verus!
