use crate::scale::{DurationScale, DurationUnit};
use vstd::prelude::*;

verus! {

/// The HTTP method of the benchmarked request.
#[derive(Clone, Copy, PartialEq, Eq, Structural, Debug)]
pub enum Method {
    Get,
    Post,
    Put,
    Delete,
}

impl Default for Method {
    /// Requests are issued with GET unless configured otherwise.
    fn default() -> (r: Self)
        ensures
            r == Method::Get,
    {
        Method::Get
    }
}

/// How the run fans out over workers: strictly sequential, or a number of
/// concurrent worker tasks.
#[derive(Clone, Copy, PartialEq, Eq, Structural, Debug)]
pub enum ConcurrenyLevel {
    Sequential,
    /// Concurrency level
    Concurrent(usize),
}

impl Default for ConcurrenyLevel {
    /// Runs are sequential unless configured otherwise.
    fn default() -> (r: Self)
        ensures
            r == ConcurrenyLevel::Sequential,
    {
        ConcurrenyLevel::Sequential
    }
}

/// The integer knobs of the statistical pipeline. The significance level
/// of the hypothesis tests is chosen by the caller at test time.
#[derive(Clone, Debug)]
pub struct StatsConfig {
    pub n_bootstrap_samples: Option<usize>,
    pub n_bootstrap_draw_size: Option<usize>,
}

pub const DEFAULT_NRUNS: usize = 300;

pub const DEFAULT_BOOTSTRAP_SAMPLES: usize = 1_000;

pub const DEFAULT_BOOTSTRAP_DRAW_SIZE: usize = 100;

/// The immutable specification of a run: what to request, how often, how
/// wide, and where the report goes.
#[derive(Clone, Debug)]
pub struct BenchConfig {
    pub url: String,
    pub method: Method,
    pub disable_certificate_validation: Option<bool>,
    pub headers: Option<Vec<(String, String)>>,
    pub json_payload: Option<String>,
    pub json_payload_ref: Option<String>,
    pub gql_query: Option<String>,
    pub bearer_token: Option<String>,
    pub duration_scale: Option<DurationScale>,
    pub n_runs: Option<usize>,
    pub n_warmup_runs: Option<usize>,
    pub concurrency_level: Option<usize>,
    pub report_directory: Option<String>,
    pub baseline_path: Option<String>,
    pub stats_config: Option<StatsConfig>,
}

impl BenchConfig {
    /// The number of timed samples each worker performs.
    pub open spec fn spec_n_runs(self) -> usize {
        match self.n_runs {
            Some(n) => n,
            None => DEFAULT_NRUNS,
        }
    }

    /// Configured levels of 1 or below collapse to a sequential run.
    pub open spec fn spec_concurrency_level(self) -> ConcurrenyLevel {
        match self.concurrency_level {
            Some(level) => if level > 1 {
                ConcurrenyLevel::Concurrent(level)
            } else {
                ConcurrenyLevel::Sequential
            },
            None => ConcurrenyLevel::Sequential,
        }
    }

    pub open spec fn spec_duration_scale(self) -> DurationScale {
        match self.duration_scale {
            Some(scale) => scale,
            None => DurationScale::Micro,
        }
    }

    pub open spec fn spec_warmup_runs(self) -> usize {
        match self.n_warmup_runs {
            Some(n) => n,
            None => 0,
        }
    }

    pub open spec fn spec_n_bootstrap_samples(self) -> usize {
        match self.stats_config {
            Some(cfg) => match cfg.n_bootstrap_samples {
                Some(n) => n,
                None => DEFAULT_BOOTSTRAP_SAMPLES,
            },
            None => DEFAULT_BOOTSTRAP_SAMPLES,
        }
    }

    pub open spec fn spec_n_bootstrap_draw_size(self) -> usize {
        match self.stats_config {
            Some(cfg) => match cfg.n_bootstrap_draw_size {
                Some(n) => n,
                None => DEFAULT_BOOTSTRAP_DRAW_SIZE,
            },
            None => DEFAULT_BOOTSTRAP_DRAW_SIZE,
        }
    }

    /// A specification that only names the target: every other knob keeps
    /// its default.
    pub fn new(url: String) -> (r: Self)
        ensures
            r.url == url,
            r.method == Method::Get,
            r.disable_certificate_validation is None,
            r.headers is None,
            r.json_payload is None,
            r.json_payload_ref is None,
            r.gql_query is None,
            r.bearer_token is None,
            r.duration_scale is None,
            r.n_runs is None,
            r.n_warmup_runs is None,
            r.concurrency_level is None,
            r.report_directory is None,
            r.baseline_path is None,
            r.stats_config is None,
    {
        BenchConfig {
            url,
            method: Method::Get,
            disable_certificate_validation: None,
            headers: None,
            json_payload: None,
            json_payload_ref: None,
            gql_query: None,
            bearer_token: None,
            duration_scale: None,
            n_runs: None,
            n_warmup_runs: None,
            concurrency_level: None,
            report_directory: None,
            baseline_path: None,
            stats_config: None,
        }
    }

    pub fn n_runs(&self) -> (r: usize)
        ensures
            r == self.spec_n_runs(),
    {
        match &self.n_runs {
            Some(n) => *n,
            None => DEFAULT_NRUNS,
        }
    }

    pub fn concurrency_level(&self) -> (r: ConcurrenyLevel)
        ensures
            r == self.spec_concurrency_level(),
    {
        match &self.concurrency_level {
            Some(level) => if *level > 1 {
                ConcurrenyLevel::Concurrent(*level)
            } else {
                ConcurrenyLevel::Sequential
            },
            None => ConcurrenyLevel::Sequential,
        }
    }

    pub fn duration_scale(&self) -> (r: DurationScale)
        ensures
            r == self.spec_duration_scale(),
    {
        match &self.duration_scale {
            Some(scale) => *scale,
            None => DurationScale::Micro,
        }
    }

    pub fn warmup_runs(&self) -> (r: usize)
        ensures
            r == self.spec_warmup_runs(),
    {
        match &self.n_warmup_runs {
            Some(n) => *n,
            None => 0,
        }
    }

    /// The inline JSON payload. A file-referenced payload must be resolved
    /// into the inline field before the specification reaches the library.
    pub fn json_payload(&self) -> (r: Option<String>)
        requires
            self.json_payload is Some || self.json_payload_ref is None,
        ensures
            r == self.json_payload,
    {
        match &self.json_payload {
            Some(payload) => Some(payload.clone()),
            None => None,
        }
    }

    pub fn n_bootstrap_samples(&self) -> (r: usize)
        ensures
            r == self.spec_n_bootstrap_samples(),
    {
        match &self.stats_config {
            Some(cfg) => match cfg.n_bootstrap_samples {
                Some(n) => n,
                None => DEFAULT_BOOTSTRAP_SAMPLES,
            },
            None => DEFAULT_BOOTSTRAP_SAMPLES,
        }
    }

    pub fn n_bootstrap_draw_size(&self) -> (r: usize)
        ensures
            r == self.spec_n_bootstrap_draw_size(),
    {
        match &self.stats_config {
            Some(cfg) => match cfg.n_bootstrap_draw_size {
                Some(n) => n,
                None => DEFAULT_BOOTSTRAP_DRAW_SIZE,
            },
            None => DEFAULT_BOOTSTRAP_DRAW_SIZE,
        }
    }
}

/// The run specification of the early sampling interface. It predates
/// [`BenchConfig`] and keeps a narrower field set; an unspecified run
/// count falls back to the same default of 300 timed samples.
#[derive(Clone, Debug)]
pub struct BenchInput {
    pub url: String,
    pub method: Method,
    pub headers: Option<String>,
    pub json_payload: Option<String>,
    pub gql_query: Option<String>,
    pub bearer_token: Option<String>,
    pub duration_unit: Option<DurationUnit>,
    pub n_runs: Option<usize>,
    pub n_warmup_runs: Option<usize>,
    pub concurrency_level: Option<usize>,
    pub plot_folder: Option<String>,
}

impl BenchInput {
    /// An input that only names the target: every other knob keeps its
    /// default.
    pub fn new(url: String) -> (r: Self)
        ensures
            r.url == url,
            r.method == Method::Get,
            r.headers is None,
            r.json_payload is None,
            r.gql_query is None,
            r.bearer_token is None,
            r.duration_unit is None,
            r.n_runs is None,
            r.n_warmup_runs is None,
            r.concurrency_level is None,
            r.plot_folder is None,
    {
        BenchInput {
            url,
            method: Method::Get,
            headers: None,
            json_payload: None,
            gql_query: None,
            bearer_token: None,
            duration_unit: None,
            n_runs: None,
            n_warmup_runs: None,
            concurrency_level: None,
            plot_folder: None,
        }
    }

    pub fn n_runs(&self) -> (r: usize)
        ensures
            r == match self.n_runs {
                Some(n) => n,
                None => DEFAULT_NRUNS,
            },
    {
        match &self.n_runs {
            Some(n) => *n,
            None => DEFAULT_NRUNS,
        }
    }

    pub fn concurrency_level(&self) -> (r: ConcurrenyLevel)
        ensures
            r == match self.concurrency_level {
                Some(level) => if level > 1 {
                    ConcurrenyLevel::Concurrent(level)
                } else {
                    ConcurrenyLevel::Sequential
                },
                None => ConcurrenyLevel::Sequential,
            },
    {
        match &self.concurrency_level {
            Some(level) => if *level > 1 {
                ConcurrenyLevel::Concurrent(*level)
            } else {
                ConcurrenyLevel::Sequential
            },
            None => ConcurrenyLevel::Sequential,
        }
    }

    pub fn duration_unit(&self) -> (r: DurationUnit)
        ensures
            r == match self.duration_unit {
                Some(unit) => unit,
                None => DurationUnit::Micro,
            },
    {
        match &self.duration_unit {
            Some(unit) => *unit,
            None => DurationUnit::Micro,
        }
    }

    pub fn warmup_runs(&self) -> (r: usize)
        ensures
            r == match self.n_warmup_runs {
                Some(n) => n,
                None => 0,
            },
    {
        match &self.n_warmup_runs {
            Some(n) => *n,
            None => 0,
        }
    }
}

} // verus!
