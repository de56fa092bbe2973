use burl::report::{comparable_scales, rgb_color, test_outcome_html};
use burl::{
    BenchConfig, BenchInput, BodySpec, BurlError, ConcurrenyLevel, DurationScale, DurationUnit,
    Method, SummaryComponent, TestOutcome,
};

/// The scale table: units per second, nanoseconds per unit, labels.
#[test]
fn scale_units() {
    assert_eq!(DurationScale::Nano.scale(), 1_000_000_000);
    assert_eq!(DurationScale::Micro.scale(), 1_000_000);
    assert_eq!(DurationScale::Milli.scale(), 1_000);
    assert_eq!(DurationScale::Secs.scale(), 1);
    assert_eq!(DurationScale::Nano.scale(), 1_000_000_000 * DurationScale::Secs.scale());

    assert_eq!(DurationScale::Micro.elapsed(1_500), 1);
    assert_eq!(DurationScale::Milli.elapsed(999_999), 0);
    assert_eq!(DurationScale::Secs.elapsed(2_000_000_001), 2);
    assert_eq!(DurationScale::Nano.elapsed(17), 17);

    assert_eq!(DurationScale::Nano.label(), "n");
    assert_eq!(DurationScale::Micro.label(), "\u{b5}");
    assert_eq!(DurationScale::Milli.label(), "m");
    assert_eq!(DurationScale::Secs.label(), "");
}

/// Expressing a duration in a scale never orders two durations the wrong
/// way around.
#[test]
fn elapsed_is_monotonic() {
    let scale = DurationScale::Milli;
    let mut previous = 0;
    for nanos in [0u64, 1, 999_999, 1_000_000, 1_000_001, 5_000_000] {
        let elapsed = scale.elapsed(nanos);
        assert!(previous <= elapsed);
        previous = elapsed;
    }
}

/// The factor between two scales is exact, and a scale against itself is
/// one.
#[test]
fn scale_factor_table() {
    // requests per second uses factor(scale, Secs) over the mean
    assert_eq!(DurationScale::Milli.factor(&DurationScale::Secs), (1_000, 1));
    assert_eq!(DurationScale::Micro.factor(&DurationScale::Secs), (1_000_000, 1));
    assert_eq!(DurationScale::Nano.factor(&DurationScale::Secs), (1_000_000_000, 1));
    assert_eq!(DurationScale::Secs.factor(&DurationScale::Milli), (1, 1_000));
    // every scale measured against itself gives one
    for scale in [
        DurationScale::Nano,
        DurationScale::Micro,
        DurationScale::Milli,
        DurationScale::Secs,
    ] {
        assert_eq!(scale.factor(&scale), (1, 1));
    }
}

/// Only runs under the same scale are compared.
#[test]
fn baseline_comparability() {
    assert!(comparable_scales(&DurationScale::Micro, &DurationScale::Micro));
    assert!(!comparable_scales(&DurationScale::Micro, &DurationScale::Milli));
}

/// The outcome fragments of the summary table.
#[test]
fn performance_outcome_fragments() {
    assert_eq!(
        test_outcome_html(&TestOutcome::Improved, "0.0091"),
        "<font color='green'>improved (p-value 0.0091)</font>"
    );
    assert_eq!(
        test_outcome_html(&TestOutcome::Regressed, "0.008"),
        "<font color='red'>regressed (p-value 0.008)</font>"
    );
    assert_eq!(
        test_outcome_html(&TestOutcome::Inconclusive, "ignored"),
        "inconclusive (no significant change)"
    );
}

/// Token substitution fills the summary template; every occurrence of a
/// token is replaced.
#[test]
fn summary_token_substitution() {
    let template = b"<tr><td>Mean</td><td>$MEAN$</td></tr><td>$MEAN$ $RPS$</td>".to_vec();
    let mut component = SummaryComponent::new(template);
    component.substitute(&b"$MEAN$".to_vec(), &b"12.5".to_vec());
    component.substitute(&b"$RPS$".to_vec(), &b"80".to_vec());
    let html = component.compile();
    assert_eq!(
        String::from_utf8(html).unwrap(),
        "<tr><td>Mean</td><td>12.5</td></tr><td>12.5 80</td>"
    );
}

/// The worker color scheme is deterministic and stays within the byte
/// range.
#[test]
fn worker_color_scheme() {
    assert_eq!(rgb_color(0, 4), (50, 50, 50));
    assert_eq!(rgb_color(1, 4), (101, 50, 101));
    assert_eq!(rgb_color(3, 4), (203, 50, 203));
    assert_eq!(rgb_color(0, 1), (50, 50, 50));
}

/// The configuration defaults of a fresh specification.
#[test]
fn config_defaults() {
    let config = BenchConfig::new(String::from("http://localhost:8080"));
    assert_eq!(config.n_runs(), 300);
    assert_eq!(config.warmup_runs(), 0);
    assert_eq!(config.duration_scale(), DurationScale::Micro);
    assert!(matches!(config.concurrency_level(), ConcurrenyLevel::Sequential));
    assert_eq!(config.n_bootstrap_samples(), 1_000);
    assert_eq!(config.n_bootstrap_draw_size(), 100);
    assert_eq!(config.json_payload(), None);

    let mut config = config;
    config.concurrency_level = Some(1);
    assert!(matches!(config.concurrency_level(), ConcurrenyLevel::Sequential));
    config.concurrency_level = Some(4);
    assert!(matches!(config.concurrency_level(), ConcurrenyLevel::Concurrent(4)));
}

/// The early input type shares the run-count default of the main
/// specification type.
#[test]
fn bench_input_defaults() {
    let input = BenchInput::new(String::from("http://localhost:8080"));
    assert_eq!(input.n_runs(), 300);
    assert_eq!(input.warmup_runs(), 0);
    assert!(matches!(input.duration_unit(), DurationUnit::Micro));
    assert!(matches!(input.concurrency_level(), ConcurrenyLevel::Sequential));
}

/// A POST without a payload is rejected; other requests assemble with the
/// keep-alive header last.
#[test]
fn request_plan_validation() {
    let mut config = BenchConfig::new(String::from("http://localhost/graphql"));
    config.method = Method::Post;
    let rejected = burl::request::assemble_request(&config);
    match rejected {
        Err(BurlError::InvalidConfig { issue }) => {
            assert!(issue.contains("json_payload"));
        }
        _ => panic!("a POST without payload must be rejected"),
    }

    config.gql_query = Some(String::from("{ user { id } }"));
    config.bearer_token = Some(String::from("SECRET-REDACTED"));
    config.headers = Some(vec![(String::from("Accept"), String::from("application/json"))]);
    let plan = burl::request::assemble_request(&config).expect("a valid POST");
    assert!(matches!(plan.body, BodySpec::GqlQuery(ref q) if q == "{ user { id } }"));
    assert_eq!(plan.headers.len(), 2);
    assert_eq!(plan.headers[0].0, "Accept");
    assert_eq!(plan.headers[1].0, "Connection");
    assert_eq!(plan.headers[1].1, "keep-alive");
    assert!(!plan.warn_post_without_headers);
    assert!(!plan.disable_certificate_validation);

    // a POST with a payload and no headers warns
    let mut config = BenchConfig::new(String::from("http://localhost/api"));
    config.method = Method::Post;
    config.json_payload = Some(String::from("{\"n\": 1}"));
    let plan = burl::request::assemble_request(&config).expect("a valid POST");
    assert!(matches!(plan.body, BodySpec::Raw(ref b) if b == "{\"n\": 1}"));
    assert!(plan.warn_post_without_headers);

    // a GET sends no body and never warns
    let config = BenchConfig::new(String::from("http://localhost/"));
    let plan = burl::request::assemble_request(&config).expect("a valid GET");
    assert!(matches!(plan.body, BodySpec::Empty));
    assert!(!plan.warn_post_without_headers);
    assert_eq!(plan.headers.len(), 1);
}

/// The error descriptions carry their kind.
#[test]
fn error_description() {
    let error = BurlError::InvalidConfig { issue: String::from("bad spec") };
    assert_eq!(error.description(), "Invalid configuration: bad spec");
    let error = BurlError::IO { message: String::from("missing dir") };
    assert_eq!(error.description(), "IO error: missing dir");
    let error = BurlError::SerDe { message: String::from("bad json") };
    assert_eq!(error.description(), "Serialization error: bad json");
}
