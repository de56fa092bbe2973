use crate::rng::{chacha8_from_seed, sample_index};
use crate::stats::{lemma_sum_seq_bound, sum, sum_seq};
use vstd::prelude::*;

verus! {

use vstd::pervasive::VecAdditionalExecFns;

/// The verdict of a performance comparison against the baseline.
#[derive(Clone, Copy, PartialEq, Eq, Structural, Debug)]
pub enum TestOutcome {
    Improved,
    Regressed,
    Inconclusive,
}

/// The decision rule shared by both hypothesis tests: an insignificant
/// result is inconclusive, and a significant one is a regression exactly
/// when the baseline mean lies below the current mean.
pub open spec fn spec_classify(significant: bool, baseline_mean_less: bool) -> TestOutcome {
    if !significant {
        TestOutcome::Inconclusive
    } else if baseline_mean_less {
        TestOutcome::Regressed
    } else {
        TestOutcome::Improved
    }
}

/// The decision rule shared by both hypothesis tests.
pub fn classify_outcome(significant: bool, baseline_mean_less: bool) -> (r: TestOutcome)
    ensures
        r == spec_classify(significant, baseline_mean_less),
{
    if !significant {
        TestOutcome::Inconclusive
    } else if baseline_mean_less {
        TestOutcome::Regressed
    } else {
        TestOutcome::Improved
    }
}

/// Swapping the two samples flips a significant verdict between improved
/// and regressed, and keeps an inconclusive one.
pub proof fn lemma_classify_swap(significant: bool, baseline_mean_less: bool)
    ensures
        ({
            let original = spec_classify(significant, baseline_mean_less);
            let swapped = spec_classify(significant, !baseline_mean_less);
            &&& (original == TestOutcome::Improved <==> swapped == TestOutcome::Regressed)
            &&& (original == TestOutcome::Regressed <==> swapped == TestOutcome::Improved)
            &&& (original == TestOutcome::Inconclusive <==> swapped == TestOutcome::Inconclusive)
        }),
{
}

/// The numerator of the difference of means `b_sum/n_b - c_sum/n_c` over
/// the common denominator `n_b * n_c`: the difference is negative, zero
/// or positive exactly as this numerator is.
pub open spec fn mean_diff_num(b_sum: int, c_sum: int, n_b: int, n_c: int) -> int {
    b_sum * n_c - c_sum * n_b
}

/// The permutation test's extremity rule, one-sided in the direction of
/// the observed sign: a permuted difference `d` is extreme for the
/// observed difference `t` when `0 <= t <= d` or `d <= t < 0`.
pub open spec fn is_extreme(t: int, d: int) -> bool {
    (0 <= t <= d) || (d <= t < 0)
}

/// Exchanging the roles of the two samples negates the difference of
/// means.
pub proof fn lemma_mean_diff_swap(b_sum: int, c_sum: int, n_b: int, n_c: int)
    ensures
        mean_diff_num(c_sum, b_sum, n_c, n_b) == -mean_diff_num(b_sum, c_sum, n_b, n_c),
{
}

/// The sum of the pool values at the marked indices.
pub open spec fn marked_sum(pool: Seq<u64>, marks: Seq<bool>) -> int
    decreases pool.len(),
{
    if pool.len() == 0 || marks.len() != pool.len() {
        0
    } else {
        marked_sum(pool.drop_last(), marks.drop_last()) + if marks.last() {
            pool.last() as int
        } else {
            0int
        }
    }
}

/// The pool values at the unmarked indices, in index order.
pub open spec fn unmarked_seq(pool: Seq<u64>, marks: Seq<bool>) -> Seq<u64>
    decreases pool.len(),
{
    if pool.len() == 0 || marks.len() != pool.len() {
        Seq::<u64>::empty()
    } else {
        if marks.last() {
            unmarked_seq(pool.drop_last(), marks.drop_last())
        } else {
            unmarked_seq(pool.drop_last(), marks.drop_last()).push(pool.last())
        }
    }
}

/// How many indices are marked.
pub open spec fn count_true(marks: Seq<bool>) -> int
    decreases marks.len(),
{
    if marks.len() == 0 {
        0
    } else {
        count_true(marks.drop_last()) + if marks.last() {
            1int
        } else {
            0int
        }
    }
}

/// The marked values and the unmarked values together account for the
/// whole pool, in count and in sum.
pub proof fn lemma_partition_sum(pool: Seq<u64>, marks: Seq<bool>)
    requires
        marks.len() == pool.len(),
    ensures
        0 <= count_true(marks) <= marks.len(),
        marked_sum(pool, marks) >= 0,
        unmarked_seq(pool, marks).len() == pool.len() - count_true(marks),
        marked_sum(pool, marks) + sum_seq(unmarked_seq(pool, marks)) == sum_seq(pool),
    decreases pool.len(),
{
    if pool.len() > 0 {
        lemma_partition_sum(pool.drop_last(), marks.drop_last());
        if !marks.last() {
            let rest = unmarked_seq(pool.drop_last(), marks.drop_last());
            assert(unmarked_seq(pool, marks) == rest.push(pool.last()));
            assert(rest.push(pool.last()).drop_last() =~= rest);
        }
    }
}

proof fn lemma_marked_sum_update(pool: Seq<u64>, marks: Seq<bool>, i: int)
    requires
        marks.len() == pool.len(),
        0 <= i < marks.len(),
        !marks[i],
    ensures
        marked_sum(pool, marks.update(i, true)) == marked_sum(pool, marks) + pool[i],
        count_true(marks.update(i, true)) == count_true(marks) + 1,
    decreases pool.len(),
{
    let updated = marks.update(i, true);
    if i == pool.len() - 1 {
        assert(updated.drop_last() =~= marks.drop_last());
    } else {
        lemma_marked_sum_update(pool.drop_last(), marks.drop_last(), i);
        assert(updated.drop_last() =~= marks.drop_last().update(i, true));
        assert(updated.last() == marks.last());
    }
}

proof fn lemma_all_false(pool: Seq<u64>, marks: Seq<bool>)
    requires
        marks.len() == pool.len(),
        forall|k: int| 0 <= k < marks.len() ==> !marks[k],
    ensures
        marked_sum(pool, marks) == 0,
        count_true(marks) == 0,
        unmarked_seq(pool, marks) == pool,
    decreases pool.len(),
{
    if pool.len() > 0 {
        lemma_all_false(pool.drop_last(), marks.drop_last());
        assert(unmarked_seq(pool, marks) =~= pool);
    }
}

/// The sum of a concatenation is the sum of its parts.
pub proof fn lemma_sum_seq_concat(a: Seq<u64>, b: Seq<u64>)
    ensures
        sum_seq(a + b) == sum_seq(a) + sum_seq(b),
    decreases b.len(),
{
    if b.len() == 0 {
        assert(a + b =~= a);
    } else {
        lemma_sum_seq_concat(a, b.drop_last());
        assert((a + b).drop_last() =~= a + b.drop_last());
        assert((a + b).last() == b.last());
    }
}

/// The verdict of one permutation test run: the outcome, and the extreme
/// count over the simulated rounds from which the p-value
/// `n_extreme / n_rounds` arises.
#[derive(Clone, Copy, PartialEq, Eq, Structural, Debug)]
pub struct PermutationVerdict {
    pub outcome: TestOutcome,
    pub n_extreme: usize,
    pub n_rounds: usize,
}

/// The permutation test of the null hypothesis that the baseline and the
/// current samples come from one distribution: group assignments are
/// simulated with a seeded generator, and the share of simulated
/// mean-differences at least as extreme as the observed one is the
/// p-value.
pub struct PermutationTester {
    pub current_samples: Vec<u64>,
    pub baseline_samples: Vec<u64>,
    pub current_len: usize,
    pub baseline_len: usize,
    pub total_len: usize,
}

impl PermutationTester {
    /// The length fields agree with the sample vectors.
    pub open spec fn wf(self) -> bool {
        &&& self.baseline_len == self.baseline_samples@.len()
        &&& self.current_len == self.current_samples@.len()
        &&& self.total_len == self.baseline_len + self.current_len
    }

    /// The two sample vectors pooled, baseline first.
    pub open spec fn pooled(self) -> Seq<u64> {
        self.baseline_samples@ + self.current_samples@
    }

    pub fn new(current_samples: Vec<u64>, baseline_samples: Vec<u64>) -> (r: Self)
        requires
            current_samples@.len() + baseline_samples@.len() <= usize::MAX,
        ensures
            r.wf(),
            r.current_samples@ == current_samples@,
            r.baseline_samples@ == baseline_samples@,
    {
        let current_len = current_samples.len();
        let baseline_len = baseline_samples.len();
        PermutationTester {
            current_len,
            baseline_len,
            total_len: current_len + baseline_len,
            current_samples,
            baseline_samples,
        }
    }

    /// The pooled value at an index: the first `baseline_len` indices
    /// read the baseline, the rest read the current samples.
    pub fn idx_value(&self, idx: usize) -> (r: Option<u64>)
        requires
            self.wf(),
        ensures
            idx < self.total_len ==> r == Some(self.pooled()[idx as int]),
            idx >= self.total_len ==> r is None,
    {
        if idx < self.baseline_len {
            Some(self.baseline_samples[idx])
        } else if idx < self.total_len {
            Some(self.current_samples[idx - self.baseline_len])
        } else {
            None
        }
    }

    /// One simulated group assignment: distinct pooled indices are drawn
    /// until the baseline group is full, and the complement forms the
    /// current group. The two groups partition the pool: their sizes and
    /// sums add up to the pool's.
    fn simulate_partition(&self, rng: &mut rand_chacha::ChaCha8Rng) -> (r: (Vec<u64>, Vec<u64>))
        requires
            self.wf(),
            self.baseline_len >= 1,
            self.current_len >= 1,
        ensures
            r.0@.len() <= self.baseline_len,
            r.0@.len() + r.1@.len() == self.total_len,
            sum_seq(r.0@) >= 0,
            sum_seq(r.1@) >= 0,
            sum_seq(r.0@) + sum_seq(r.1@) == sum_seq(self.pooled()),
    {
        let ghost pool = self.pooled();
        let total = self.total_len;
        let n_baseline = self.baseline_len;
        let mut marks: Vec<bool> = Vec::new();
        let mut t: usize = 0;
        while t < total
            invariant
                t <= total,
                marks@.len() == t,
                forall|k: int| 0 <= k < t ==> !marks@[k],
            decreases total - t,
        {
            marks.push(false);
            t = t + 1;
        }
        proof {
            lemma_all_false(pool, marks@);
        }
        let mut baseline_values: Vec<u64> = Vec::new();
        let mut filled: usize = 0;
        let mut attempts: usize = 0;
        while filled < n_baseline && attempts < usize::MAX
            invariant
                self.wf(),
                self.baseline_len >= 1,
                pool == self.pooled(),
                marks@.len() == total,
                total == self.total_len,
                n_baseline == self.baseline_len,
                filled == count_true(marks@),
                filled <= n_baseline,
                baseline_values@.len() == filled,
                sum_seq(baseline_values@) == marked_sum(pool, marks@),
            decreases usize::MAX - attempts,
        {
            attempts = attempts + 1;
            let idx = sample_index(rng, total);
            if !marks[idx] {
                let ghost old_marks = marks@;
                marks.set(idx, true);
                let value = if idx < n_baseline {
                    self.baseline_samples[idx]
                } else {
                    self.current_samples[idx - n_baseline]
                };
                proof {
                    assert(value == pool[idx as int]);
                    lemma_marked_sum_update(pool, old_marks, idx as int);
                    let ghost grown = baseline_values@.push(value);
                    assert(grown.drop_last() =~= baseline_values@);
                }
                baseline_values.push(value);
                filled = filled + 1;
            }
        }
        let mut current_values: Vec<u64> = Vec::new();
        let mut j: usize = 0;
        proof {
            assert(pool.subrange(0, 0) =~= Seq::<u64>::empty());
            assert(marks@.subrange(0, 0) =~= Seq::<bool>::empty());
        }
        while j < total
            invariant
                j <= total,
                self.wf(),
                pool == self.pooled(),
                total == self.total_len,
                n_baseline == self.baseline_len,
                marks@.len() == total,
                current_values@ == unmarked_seq(pool.subrange(0, j as int), marks@.subrange(0, j as int)),
            decreases total - j,
        {
            let ghost next_pool = pool.subrange(0, j as int + 1);
            let ghost next_marks = marks@.subrange(0, j as int + 1);
            proof {
                assert(next_pool.drop_last() =~= pool.subrange(0, j as int));
                assert(next_marks.drop_last() =~= marks@.subrange(0, j as int));
                assert(next_pool.last() == pool[j as int]);
                assert(next_marks.last() == marks@[j as int]);
            }
            if !marks[j] {
                let value = if j < n_baseline {
                    self.baseline_samples[j]
                } else {
                    self.current_samples[j - n_baseline]
                };
                proof {
                    assert(value == pool[j as int]);
                }
                current_values.push(value);
            }
            j = j + 1;
        }
        proof {
            assert(pool.subrange(0, total as int) =~= pool);
            assert(marks@.subrange(0, total as int) =~= marks@);
            lemma_partition_sum(pool, marks@);
            lemma_sum_seq_bound(unmarked_seq(pool, marks@));
        }
        (baseline_values, current_values)
    }

    /// Runs the permutation test with the fixed seed and `n_rounds`
    /// simulated assignments, at the significance level
    /// `alpha_num / alpha_den`. Yields nothing exactly when either sample
    /// is empty. The verdict follows the shared decision rule: with
    /// p-value `n_extreme / n_rounds`, a p-value above the level is
    /// inconclusive, and otherwise the sign of the observed difference of
    /// means decides between regression and improvement.
    pub fn test(&self, n_rounds: usize, alpha_num: u64, alpha_den: u64) -> (r: Option<
        PermutationVerdict,
    >)
        requires
            self.wf(),
            alpha_den >= 1,
            sum_seq(self.pooled()) * self.baseline_len <= i128::MAX,
            sum_seq(self.pooled()) * self.current_len <= i128::MAX,
        ensures
            r is None <==> (self.baseline_len == 0 || self.current_len == 0),
            r matches Some(v) ==> {
                &&& v.n_rounds == n_rounds
                &&& v.n_extreme <= n_rounds
                &&& v.outcome == spec_classify(
                    !(v.n_extreme * alpha_den > alpha_num * n_rounds),
                    mean_diff_num(
                        sum_seq(self.baseline_samples@),
                        sum_seq(self.current_samples@),
                        self.baseline_len as int,
                        self.current_len as int,
                    ) < 0,
                )
            },
    {
        if self.baseline_len == 0 || self.current_len == 0 {
            return None;
        }
        let ghost pool = self.pooled();
        proof {
            lemma_sum_seq_concat(self.baseline_samples@, self.current_samples@);
            lemma_sum_seq_bound(self.baseline_samples@);
            lemma_sum_seq_bound(self.current_samples@);
            lemma_sum_seq_bound(pool);
            lemma_mul_le_self(sum_seq(pool), self.baseline_len as int);
            lemma_mul_le_self(sum_seq(pool), self.current_len as int);
        }
        let mut rng = chacha8_from_seed(42);
        let baseline_sum = sum(&self.baseline_samples);
        let current_sum = sum(&self.current_samples);
        let ghost n_b = self.baseline_len as int;
        let ghost n_c = self.current_len as int;
        proof {
            lemma_mul_mono_both(
                baseline_sum as int,
                sum_seq(pool),
                n_c,
                self.current_len as int,
            );
            lemma_mul_mono_both(current_sum as int, sum_seq(pool), n_b, self.baseline_len as int);
        }
        let t_num: i128 = (baseline_sum as i128) * (self.current_len as i128) - (current_sum
            as i128) * (self.baseline_len as i128);
        let mut n_extreme: usize = 0;
        let mut round: usize = 0;
        while round < n_rounds
            invariant
                round <= n_rounds,
                n_extreme <= round,
                self.wf(),
                self.baseline_len >= 1,
                self.current_len >= 1,
                pool == self.pooled(),
                sum_seq(pool) * self.baseline_len <= i128::MAX,
                sum_seq(pool) * self.current_len <= i128::MAX,
                sum_seq(pool) >= 0,
            decreases n_rounds - round,
        {
            let (b_values, c_values) = self.simulate_partition(&mut rng);
            let sim_b = sum(&b_values);
            let sim_c = sum(&c_values);
            proof {
                lemma_mul_le_self(sum_seq(pool), self.baseline_len as int);
                lemma_mul_le_self(sum_seq(pool), self.current_len as int);
                lemma_mul_mono_both(
                    sim_b as int,
                    sum_seq(pool),
                    self.current_len as int,
                    self.current_len as int,
                );
                lemma_mul_mono_both(
                    sim_c as int,
                    sum_seq(pool),
                    self.baseline_len as int,
                    self.baseline_len as int,
                );
            }
            let d_num: i128 = (sim_b as i128) * (self.current_len as i128) - (sim_c as i128) * (
            self.baseline_len as i128);
            if (0 <= t_num && t_num <= d_num) || (d_num <= t_num && t_num < 0) {
                n_extreme = n_extreme + 1;
            }
            round = round + 1;
        }
        proof {
            assert((n_extreme as int) * (alpha_den as int) <= (u64::MAX as int) * (u64::MAX as int))
                by (nonlinear_arith)
                requires 0 <= n_extreme as int <= u64::MAX as int, 0 <= alpha_den as int <= u64::MAX as int;
            assert((alpha_num as int) * (n_rounds as int) <= (u64::MAX as int) * (u64::MAX as int))
                by (nonlinear_arith)
                requires 0 <= alpha_num as int <= u64::MAX as int, 0 <= n_rounds as int <= u64::MAX as int;
        }
        let p_exceeds_alpha = (n_extreme as u128) * (alpha_den as u128) > (alpha_num as u128) * (
        n_rounds as u128);
        let baseline_mean_less = t_num < 0;
        let outcome = classify_outcome(!p_exceeds_alpha, baseline_mean_less);
        Some(PermutationVerdict { outcome, n_extreme, n_rounds })
    }
}

/// A non-negative number is at most itself times a positive factor.
proof fn lemma_mul_le_self(a: int, b: int)
    requires
        a >= 0,
        b >= 1,
    ensures
        a <= a * b,
{
    assert(a <= a * b) by (nonlinear_arith)
        requires a >= 0, b >= 1;
}

/// Multiplication of non-negative numbers respects the order of both
/// factors.
proof fn lemma_mul_mono_both(a1: int, a2: int, b1: int, b2: int)
    requires
        0 <= a1 <= a2,
        0 <= b1 <= b2,
    ensures
        a1 * b1 <= a2 * b2,
{
    assert(a1 * b1 <= a2 * b2) by (nonlinear_arith)
        requires 0 <= a1 <= a2, 0 <= b1 <= b2;
}

/// Whether `total` is the sum of some `n` draws from the samples: the
/// exact shape of one bootstrap resample's sum.
pub open spec fn is_resample_sum(samples: Seq<u64>, n: int, total: int) -> bool {
    exists|picks: Seq<int>|
        picks.len() == n && valid_picks(samples, picks) && total == sum_picks(samples, picks)
}

/// Which elements a bootstrap resample draws: a sequence of in-range
/// indices into the sample vector.
pub open spec fn valid_picks(samples: Seq<u64>, picks: Seq<int>) -> bool {
    forall|j: int| 0 <= j < picks.len() ==> 0 <= #[trigger] picks[j] < samples.len()
}

/// The sum of the samples a resample draws.
pub open spec fn sum_picks(samples: Seq<u64>, picks: Seq<int>) -> int
    decreases picks.len(),
{
    if picks.len() == 0 {
        0
    } else {
        sum_picks(samples, picks.drop_last()) + if 0 <= picks.last() < samples.len() {
            samples[picks.last()] as int
        } else {
            0int
        }
    }
}

proof fn lemma_sum_picks_bound(samples: Seq<u64>, picks: Seq<int>)
    ensures
        0 <= sum_picks(samples, picks),
        sum_picks(samples, picks) <= picks.len() * u64::MAX,
    decreases picks.len(),
{
    if picks.len() > 0 {
        lemma_sum_picks_bound(samples, picks.drop_last());
        assert((picks.len() - 1) * u64::MAX + u64::MAX == picks.len() * u64::MAX)
            by (nonlinear_arith);
    }
}

/// Bootstrap resampling of a sample vector with the fixed seed: uniform
/// draws with replacement estimate the sampling distribution of the mean.
pub struct BootstrapSampler {
    pub samples: Vec<u64>,
}

impl BootstrapSampler {
    pub fn new(samples: Vec<u64>) -> (r: Self)
        ensures
            r.samples@ == samples@,
    {
        BootstrapSampler { samples }
    }

    /// `n_samples` resamples of `n` uniform draws each, with replacement
    /// and the fixed seed; each returned value is the exact sum of one
    /// resample, so the resample's mean is the value over `n`.
    pub fn sample_sums(&self, n: usize, n_samples: usize) -> (r: Vec<u128>)
        requires
            self.samples@.len() >= 1,
        ensures
            r@.len() == n_samples,
            forall|i: int|
                0 <= i < r@.len() ==> is_resample_sum(self.samples@, n as int, #[trigger] r@[i] as int),
    {
        let mut rng = chacha8_from_seed(42);
        let mut r: Vec<u128> = Vec::new();
        let mut i: usize = 0;
        let len = self.samples.len();
        while i < n_samples
            invariant
                i <= n_samples,
                r@.len() == i,
                len == self.samples@.len(),
                len >= 1,
                forall|k: int|
                    0 <= k < r@.len() ==> is_resample_sum(self.samples@, n as int, #[trigger] r@[k] as int),
            decreases n_samples - i,
        {
            let mut acc: u128 = 0;
            let mut j: usize = 0;
            let ghost mut picks: Seq<int> = Seq::empty();
            while j < n
                invariant
                    j <= n,
                    len == self.samples@.len(),
                    len >= 1,
                    picks.len() == j,
                    valid_picks(self.samples@, picks),
                    acc == sum_picks(self.samples@, picks),
                decreases n - j,
            {
                let idx = sample_index(&mut rng, len);
                proof {
                    lemma_sum_picks_bound(self.samples@, picks);
                    assert(picks.len() * u64::MAX <= (u64::MAX as int) * (u64::MAX as int))
                        by (nonlinear_arith)
                        requires 0 <= picks.len() <= u64::MAX as int;
                    let grown = picks.push(idx as int);
                    assert(grown.drop_last() =~= picks);
                }
                acc = acc + self.samples[idx] as u128;
                proof {
                    picks = picks.push(idx as int);
                }
                j = j + 1;
            }
            r.push(acc);
            proof {
                assert(is_resample_sum(self.samples@, n as int, acc as int)) by {
                    assert(picks.len() == n && valid_picks(self.samples@, picks) && acc as int
                        == sum_picks(self.samples@, picks));
                }
            }
            i = i + 1;
        }
        r
    }
}

} // verus!
