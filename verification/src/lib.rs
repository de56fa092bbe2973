//! Verified core of an HTTP load-generation and latency-measurement tool.
//!
//! The library owns the measurement bookkeeping and the statistics pipeline:
//! duration scaling, sample classification, per-worker and aggregate
//! summaries, empirical percentiles, the permutation test's resampling
//! machinery, bootstrap resampling, and the report's token substitution.
//! Time is carried as integer counts of the configured scale unit, so every
//! step of the pipeline has an exact contract; callers render those counts
//! as they see fit.

mod config;
mod errors;
pub mod report;
pub mod request;
mod rng;
mod sample;
mod scale;
pub mod stats;
pub mod template;
pub mod summary;
pub mod testers;
pub mod thread_stats;

pub use report::SummaryComponent;
pub use request::BodySpec;
pub use request::RequestPlan;
pub use testers::BootstrapSampler;
pub use testers::PermutationTester;
pub use testers::PermutationVerdict;
pub use testers::TestOutcome;
pub use summary::StatsProcessor;
pub use summary::StatsSummary;
pub use thread_stats::ThreadStats;

pub use sample::RequestResult;
pub use sample::SampleCollector;
pub use sample::SampleResult;
pub use sample::StatusCode;
pub use sample::ThreadIdx;

pub use config::BenchConfig;
pub use config::BenchInput;
pub use config::ConcurrenyLevel;
pub use config::Method;
pub use config::StatsConfig;
pub use errors::BurlError;
pub use errors::BurlResult;
pub use scale::DurationScale;
pub use scale::DurationUnit;
