use crate::sample::{RequestResult, SampleCollector, SampleResult, StatusCode};
use crate::stats::{lemma_sum_seq_bound, sum_seq};
use vstd::prelude::*;

verus! {

use vstd::pervasive::VecAdditionalExecFns;

/// How many outcomes of the sequence are successful samples.
pub open spec fn count_ok(results: Seq<RequestResult>) -> int
    decreases results.len(),
{
    if results.len() == 0 {
        0
    } else {
        count_ok(results.drop_last()) + match results.last() {
            RequestResult::Success(_) => 1int,
            RequestResult::Failed(_) => 0int,
        }
    }
}

/// How many outcomes of the sequence are failures.
pub open spec fn count_failed(results: Seq<RequestResult>) -> int
    decreases results.len(),
{
    if results.len() == 0 {
        0
    } else {
        count_failed(results.drop_last()) + match results.last() {
            RequestResult::Success(_) => 0int,
            RequestResult::Failed(_) => 1int,
        }
    }
}

/// How many failures of the sequence carry the given status code.
pub open spec fn count_status(results: Seq<RequestResult>, code: StatusCode) -> int
    decreases results.len(),
{
    if results.len() == 0 {
        0
    } else {
        count_status(results.drop_last(), code) + match results.last() {
            RequestResult::Success(_) => 0int,
            RequestResult::Failed(c) => if c == code {
                1int
            } else {
                0int
            },
        }
    }
}

/// The durations of the successful samples, in issuance order.
pub open spec fn ok_durations(results: Seq<RequestResult>) -> Seq<u64>
    decreases results.len(),
{
    if results.len() == 0 {
        Seq::<u64>::empty()
    } else {
        match results.last() {
            RequestResult::Success(sr) => ok_durations(results.drop_last()).push(sr.duration),
            RequestResult::Failed(_) => ok_durations(results.drop_last()),
        }
    }
}

/// The successful samples themselves, in issuance order.
pub open spec fn ok_samples(results: Seq<RequestResult>) -> Seq<SampleResult>
    decreases results.len(),
{
    if results.len() == 0 {
        Seq::<SampleResult>::empty()
    } else {
        match results.last() {
            RequestResult::Success(sr) => ok_samples(results.drop_last()).push(sr),
            RequestResult::Failed(_) => ok_samples(results.drop_last()),
        }
    }
}

/// The declared content bytes of the successful samples, summed; samples
/// without a declared length count as zero.
pub open spec fn sum_bytes(results: Seq<RequestResult>) -> int
    decreases results.len(),
{
    if results.len() == 0 {
        0
    } else {
        sum_bytes(results.drop_last()) + match results.last() {
            RequestResult::Success(sr) => match sr.content_length {
                Some(b) => b as int,
                None => 0int,
            },
            RequestResult::Failed(_) => 0int,
        }
    }
}

/// The largest value of the sequence, folded from zero.
pub open spec fn max_fold(s: Seq<u64>) -> u64
    decreases s.len(),
{
    if s.len() == 0 {
        0
    } else {
        let rest = max_fold(s.drop_last());
        if s.last() > rest {
            s.last()
        } else {
            rest
        }
    }
}

/// The smallest value of the sequence, folded from the largest integer.
pub open spec fn min_fold(s: Seq<u64>) -> u64
    decreases s.len(),
{
    if s.len() == 0 {
        u64::MAX
    } else {
        let rest = min_fold(s.drop_last());
        if s.last() < rest {
            s.last()
        } else {
            rest
        }
    }
}

/// The basic accounting facts of an outcome sequence: the ok and failed
/// counts partition it, and the extracted durations match the ok count.
pub proof fn lemma_outcome_counts(results: Seq<RequestResult>)
    ensures
        0 <= count_ok(results) <= results.len(),
        0 <= count_failed(results) <= results.len(),
        count_ok(results) + count_failed(results) == results.len(),
        ok_durations(results).len() == count_ok(results),
        ok_samples(results).len() == count_ok(results),
        sum_bytes(results) >= 0,
    decreases results.len(),
{
    if results.len() > 0 {
        lemma_outcome_counts(results.drop_last());
    }
}

/// Per status code, the count never exceeds the total failure count.
pub proof fn lemma_count_status_bound(results: Seq<RequestResult>, code: StatusCode)
    ensures
        0 <= count_status(results, code) <= count_failed(results),
    decreases results.len(),
{
    if results.len() > 0 {
        lemma_count_status_bound(results.drop_last(), code);
    }
}

/// How many failures the error table records for a status code: the sum
/// of the counts of the entries carrying that code.
pub open spec fn pairs_count(pairs: Seq<(StatusCode, usize)>, code: StatusCode) -> int
    decreases pairs.len(),
{
    if pairs.len() == 0 {
        0
    } else {
        pairs_count(pairs.drop_last(), code) + if pairs.last().0 == code {
            pairs.last().1 as int
        } else {
            0int
        }
    }
}

/// No status code appears in two entries of the error table.
pub open spec fn distinct_keys(pairs: Seq<(StatusCode, usize)>) -> bool {
    forall|i: int, j: int| 0 <= i < j < pairs.len() ==> pairs[i].0 != pairs[j].0
}

pub(crate) proof fn lemma_pairs_count_absent(pairs: Seq<(StatusCode, usize)>, code: StatusCode)
    requires
        forall|i: int| 0 <= i < pairs.len() ==> pairs[i].0 != code,
    ensures
        pairs_count(pairs, code) == 0,
    decreases pairs.len(),
{
    if pairs.len() > 0 {
        lemma_pairs_count_absent(pairs.drop_last(), code);
    }
}

pub(crate) proof fn lemma_pairs_count_at(pairs: Seq<(StatusCode, usize)>, j: int)
    requires
        distinct_keys(pairs),
        0 <= j < pairs.len(),
    ensures
        pairs_count(pairs, pairs[j].0) == pairs[j].1,
    decreases pairs.len(),
{
    if j == pairs.len() - 1 {
        lemma_pairs_count_absent(pairs.drop_last(), pairs[j].0);
    } else {
        lemma_pairs_count_at(pairs.drop_last(), j);
    }
}

proof fn lemma_pairs_count_update(
    pairs: Seq<(StatusCode, usize)>,
    j: int,
    v: (StatusCode, usize),
    code: StatusCode,
)
    requires
        0 <= j < pairs.len(),
    ensures
        pairs_count(pairs.update(j, v), code) == pairs_count(pairs, code) - (
        if pairs[j].0 == code {
            pairs[j].1 as int
        } else {
            0int
        }) + (
        if v.0 == code {
            v.1 as int
        } else {
            0int
        }),
    decreases pairs.len(),
{
    let t = pairs.update(j, v);
    if j == pairs.len() - 1 {
        assert(t.drop_last() =~= pairs.drop_last());
    } else {
        lemma_pairs_count_update(pairs.drop_last(), j, v, code);
        assert(t.drop_last() =~= pairs.drop_last().update(j, v));
        assert(t.last() == pairs.last());
    }
}

/// Adds `delta` failures with the given status code to the error table,
/// extending the table if the code is new.
pub(crate) fn bump_status(errors: &mut Vec<(StatusCode, usize)>, code: StatusCode, delta: usize)
    requires
        distinct_keys(old(errors)@),
        pairs_count(old(errors)@, code) + delta <= usize::MAX,
    ensures
        distinct_keys(final(errors)@),
        pairs_count(final(errors)@, code) == pairs_count(old(errors)@, code) + delta,
        forall|c: StatusCode|
            c != code ==> #[trigger] pairs_count(final(errors)@, c) == pairs_count(old(errors)@, c),
{
    let ghost orig = errors@;
    let n = errors.len();
    let mut j: usize = 0;
    while j < n && errors[j].0 != code
        invariant
            j <= n,
            n == errors@.len(),
            errors@ == orig,
            forall|i: int| 0 <= i < j ==> errors@[i].0 != code,
        decreases n - j,
    {
        j = j + 1;
    }
    if j < n {
        let current = errors[j].1;
        proof {
            lemma_pairs_count_at(orig, j as int);
        }
        errors.set(j, (code, current + delta));
        proof {
            assert forall|c: StatusCode| #[trigger] pairs_count(errors@, c) == pairs_count(orig, c)
                + (if c == code {
                delta as int
            } else {
                0int
            }) by {
                lemma_pairs_count_update(orig, j as int, (code, (current + delta) as usize), c);
            }
            assert forall|a: int, b: int| 0 <= a < b < errors@.len() implies errors@[a].0
                != errors@[b].0 by {
                assert(distinct_keys(orig));
            }
        }
    } else {
        proof {
            lemma_pairs_count_absent(orig, code);
        }
        errors.push((code, delta));
        proof {
            assert(errors@.drop_last() =~= orig);
            assert forall|c: StatusCode| c != code implies #[trigger] pairs_count(errors@, c)
                == pairs_count(orig, c) by {}
            assert forall|a: int, b: int| 0 <= a < b < errors@.len() implies errors@[a].0
                != errors@[b].0 by {
                assert(distinct_keys(orig));
                if b == errors@.len() - 1 {
                    assert(errors@[a].0 != code);
                }
            }
        }
    }
}

/// The reduction of one worker's collector: counts, failure table, the
/// successful durations in issuance order, and their total and extrema.
pub struct ThreadStats {
    pub errors: Vec<(StatusCode, usize)>,
    pub durations: Vec<u64>,
    pub total_bytes: u64,
    pub n_ok: usize,
    pub n_errors: usize,
    pub total_duration: Option<u128>,
    pub max: Option<u64>,
    pub min: Option<u64>,
}

/// What it means for a [`ThreadStats`] value to be the reduction of an
/// outcome sequence.
pub open spec fn thread_stats_matches(ts: ThreadStats, results: Seq<RequestResult>) -> bool {
    &&& ts.durations@ == ok_durations(results)
    &&& ts.n_ok == count_ok(results)
    &&& ts.n_errors == count_failed(results)
    &&& ts.n_ok == ts.durations@.len()
    &&& ts.n_ok + ts.n_errors == results.len()
    &&& ts.total_bytes == sum_bytes(results)
    &&& distinct_keys(ts.errors@)
    &&& forall|c: StatusCode| #[trigger] pairs_count(ts.errors@, c) == count_status(results, c)
    &&& (ts.n_ok > 0 ==> {
        &&& ts.total_duration matches Some(t) && t == sum_seq(ok_durations(results))
        &&& ts.max == Some(max_fold(ok_durations(results)))
        &&& ts.min == Some(min_fold(ok_durations(results)))
    })
    &&& (ts.n_ok == 0 ==> ts.total_duration is None && ts.max is None && ts.min is None)
}

impl ThreadStats {
    /// Reduces one worker's outcomes. The byte total must fit the counter,
    /// as it would in any run that a machine can hold in memory.
    pub fn from_collector(samples: &SampleCollector) -> (r: ThreadStats)
        requires
            sum_bytes(samples.results@) <= u64::MAX,
        ensures
            thread_stats_matches(r, samples.results@),
    {
        let n_results = samples.results.len();
        let mut durations: Vec<u64> = Vec::new();
        let mut errors: Vec<(StatusCode, usize)> = Vec::new();
        let mut total_bytes: u64 = 0;
        let mut n_ok: usize = 0;
        let mut n_errors: usize = 0;
        let mut max_acc: u64 = 0;
        let mut min_acc: u64 = u64::MAX;
        let mut total_acc: u128 = 0;
        let mut i: usize = 0;
        proof {
            assert(samples.results@.subrange(0, 0) =~= Seq::<RequestResult>::empty());
        }
        while i < n_results
            invariant
                i <= n_results,
                n_results == samples.results@.len(),
                sum_bytes(samples.results@) <= u64::MAX,
                durations@ == ok_durations(samples.results@.subrange(0, i as int)),
                n_ok == count_ok(samples.results@.subrange(0, i as int)),
                n_errors == count_failed(samples.results@.subrange(0, i as int)),
                n_ok == durations@.len(),
                n_ok + n_errors == i,
                total_bytes == sum_bytes(samples.results@.subrange(0, i as int)),
                distinct_keys(errors@),
                forall|c: StatusCode| #[trigger]
                    pairs_count(errors@, c) == count_status(
                        samples.results@.subrange(0, i as int),
                        c,
                    ),
                max_acc == max_fold(ok_durations(samples.results@.subrange(0, i as int))),
                min_acc == min_fold(ok_durations(samples.results@.subrange(0, i as int))),
                total_acc == sum_seq(ok_durations(samples.results@.subrange(0, i as int))),
            decreases n_results - i,
        {
            let ghost prefix = samples.results@.subrange(0, i as int);
            let ghost next_prefix = samples.results@.subrange(0, i as int + 1);
            proof {
                assert(next_prefix.drop_last() =~= prefix);
                assert(next_prefix.last() == samples.results@[i as int]);
                lemma_sum_bytes_prefix(samples.results@, i as int + 1);
                lemma_outcome_counts(prefix);
                lemma_sum_seq_bound(ok_durations(prefix));
            }
            match samples.results[i] {
                RequestResult::Success(sr) => {
                    proof {
                        let ds = ok_durations(prefix);
                        assert(ok_durations(next_prefix) == ds.push(sr.duration));
                        assert(ds.push(sr.duration).drop_last() =~= ds);
                        assert(ds.push(sr.duration).last() == sr.duration);
                        assert(ds.len() * u64::MAX <= (u64::MAX as int) * (u64::MAX as int))
                            by (nonlinear_arith)
                            requires 0 <= ds.len() <= u64::MAX as int;
                    }
                    durations.push(sr.duration);
                    if let Some(bytes) = sr.content_length {
                        total_bytes = total_bytes + bytes;
                    }
                    if sr.duration > max_acc {
                        max_acc = sr.duration;
                    }
                    if sr.duration < min_acc {
                        min_acc = sr.duration;
                    }
                    total_acc = total_acc + sr.duration as u128;
                    n_ok = n_ok + 1;
                },
                RequestResult::Failed(status_code) => {
                    proof {
                        lemma_count_status_bound(prefix, status_code);
                    }
                    bump_status(&mut errors, status_code, 1);
                    n_errors = n_errors + 1;
                },
            }
            proof {
                assert forall|c: StatusCode| #[trigger] pairs_count(errors@, c) == count_status(
                    next_prefix,
                    c,
                ) by {}
            }
            i = i + 1;
        }
        proof {
            assert(samples.results@.subrange(0, n_results as int) =~= samples.results@);
        }
        if n_ok == 0 {
            ThreadStats {
                errors,
                durations,
                total_bytes,
                n_ok,
                n_errors,
                total_duration: None,
                max: None,
                min: None,
            }
        } else {
            ThreadStats {
                errors,
                durations,
                total_bytes,
                n_ok,
                n_errors,
                total_duration: Some(total_acc),
                max: Some(max_acc),
                min: Some(min_acc),
            }
        }
    }
}

/// A prefix of the byte total never exceeds the whole: every contribution
/// is non-negative.
pub proof fn lemma_sum_bytes_prefix(results: Seq<RequestResult>, i: int)
    requires
        0 <= i <= results.len(),
    ensures
        sum_bytes(results.subrange(0, i)) <= sum_bytes(results),
    decreases results.len() - i,
{
    if i == results.len() {
        assert(results.subrange(0, i) =~= results);
    } else {
        lemma_sum_bytes_prefix(results, i + 1);
        let longer = results.subrange(0, i + 1);
        assert(longer.drop_last() =~= results.subrange(0, i));
        lemma_outcome_counts(results.subrange(0, i));
    }
}

} // verus!
