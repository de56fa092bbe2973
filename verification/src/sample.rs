use crate::scale::DurationScale;
use vstd::prelude::*;

verus! {

/// The HTTP status code of a response.
pub type StatusCode = usize;

/// The index of a worker within a run.
pub type ThreadIdx = usize;

/// The status code that classifies a sample as successful.
pub const SUCCESS: StatusCode = 200;

/// A successful sample. The offsets are measured from the run's shared
/// monotonic origin and, like the duration, are given in whole units of
/// the run's scale; the content length is the byte count the response
/// declared, if any.
#[derive(Clone, Copy, PartialEq, Eq, Debug)]
pub struct SampleResult {
    pub measurement_start: u64,
    pub measurement_end: u64,
    pub duration: u64,
    pub content_length: Option<u64>,
}

impl SampleResult {
    /// The sample as a point of the time-series plot: when the request
    /// went out, and how long it took.
    pub fn as_timeseries_point(&self) -> (r: (u64, u64))
        ensures
            r.0 == self.measurement_start,
            r.1 == self.duration,
    {
        (self.measurement_start, self.duration)
    }
}

/// The outcome of one request attempt: a timed success or the status code
/// of a non-OK response. Transport failures produce no outcome at all.
#[derive(Clone, Copy, PartialEq, Eq, Debug)]
pub enum RequestResult {
    /// Contains the status code.
    Failed(StatusCode),
    /// Contains the timings of the request.
    Success(SampleResult),
}

impl RequestResult {
    pub fn as_result(&self) -> (r: Option<&SampleResult>)
        ensures
            match self {
                RequestResult::Success(sr) => r == Some(sr),
                RequestResult::Failed(_) => r is None,
            },
    {
        match self {
            RequestResult::Success(sr) => Some(sr),
            RequestResult::Failed(_) => None,
        }
    }
}

/// How one raw measurement is classified and scaled: a response with the
/// success status yields a successful sample with all three time values
/// converted to whole scale units; any other status is recorded as a
/// failure with its code.
pub open spec fn spec_classified(
    scale: DurationScale,
    start_ns: u64,
    end_ns: u64,
    duration_ns: u64,
    status_code: StatusCode,
    content_length: Option<u64>,
) -> RequestResult {
    if status_code == SUCCESS {
        RequestResult::Success(
            SampleResult {
                measurement_start: (start_ns as int / scale.spec_unit_nanos() as int) as u64,
                measurement_end: (end_ns as int / scale.spec_unit_nanos() as int) as u64,
                duration: (duration_ns as int / scale.spec_unit_nanos() as int) as u64,
                content_length,
            },
        )
    } else {
        RequestResult::Failed(status_code)
    }
}

/// The per-worker record of a run: the worker's index, the scale and
/// planned sample count, and the outcomes in issuance order. A collector
/// never holds more outcomes than it has planned samples.
pub struct SampleCollector {
    pub thread_idx: ThreadIdx,
    pub duration_scale: DurationScale,
    pub n_runs: usize,
    pub results: Vec<RequestResult>,
}

impl SampleCollector {
    pub fn new(thread_idx: ThreadIdx, n_runs: usize, duration_scale: DurationScale) -> (r: Self)
        ensures
            r.thread_idx == thread_idx,
            r.duration_scale == duration_scale,
            r.n_runs == n_runs,
            r.results@ =~= Seq::<RequestResult>::empty(),
    {
        SampleCollector { thread_idx, duration_scale, n_runs, results: Vec::new() }
    }

    /// Classifies one measured response and appends its outcome. The raw
    /// time values are in nanoseconds; a successful sample is stored in
    /// whole units of the collector's scale. The offsets come from one
    /// monotonic clock read twice, so the start never exceeds the end,
    /// and a sample is only recorded while the planned count leaves room.
    pub fn add(
        &mut self,
        start_ns: u64,
        end_ns: u64,
        duration_ns: u64,
        status_code: StatusCode,
        content_length: Option<u64>,
    )
        requires
            start_ns <= end_ns,
            old(self).results@.len() < old(self).n_runs,
        ensures
            final(self).results@ == old(self).results@.push(
                spec_classified(
                    old(self).duration_scale,
                    start_ns,
                    end_ns,
                    duration_ns,
                    status_code,
                    content_length,
                ),
            ),
            final(self).thread_idx == old(self).thread_idx,
            final(self).duration_scale == old(self).duration_scale,
            final(self).n_runs == old(self).n_runs,
    {
        let result = if status_code == SUCCESS {
            RequestResult::Success(
                SampleResult {
                    measurement_start: self.duration_scale.elapsed(start_ns),
                    measurement_end: self.duration_scale.elapsed(end_ns),
                    duration: self.duration_scale.elapsed(duration_ns),
                    content_length,
                },
            )
        } else {
            RequestResult::Failed(status_code)
        };
        self.results.push(result);
    }
}

/// Within a successful outcome the start offset never exceeds the end
/// offset: truncating to whole units keeps the order of the readings.
pub proof fn lemma_classified_offsets_ordered(
    scale: DurationScale,
    start_ns: u64,
    end_ns: u64,
    duration_ns: u64,
    status_code: StatusCode,
    content_length: Option<u64>,
)
    requires
        start_ns <= end_ns,
    ensures
        ({
            let outcome = spec_classified(
                scale,
                start_ns,
                end_ns,
                duration_ns,
                status_code,
                content_length,
            );
            outcome matches RequestResult::Success(sr) ==> sr.measurement_start <= sr.measurement_end
        }),
{
    crate::scale::lemma_elapsed_monotonic(scale, start_ns, end_ns);
    vstd::arithmetic::div_mod::lemma_div_pos_is_pos(start_ns as int, scale.spec_unit_nanos() as int);
    vstd::arithmetic::div_mod::lemma_div_is_ordered(
        start_ns as int,
        end_ns as int,
        scale.spec_unit_nanos() as int,
    );
}

} // verus!
