//! Tests for the metric registry, the metrics middleware and the scrape
//! serializer.

use tracemetrics::metrics::{CounterKind, HistogramKind, LabelSet, MetricRegistry, MetricsConfig, MetricsMiddleware};
use tracemetrics::render::{fmt_scaled, fmt_u128, render};

#[test]
fn config_default_values() {
    let c = MetricsConfig::default();
    assert_eq!(c.route, "/metrics");
    assert_eq!(c.boundaries.len(), 31);
    assert_eq!(c.boundaries[0], 1_000_000, "0.001 s in nanoseconds");
    assert_eq!(c.boundaries[30], 1_000_000_000_000, "1000 s in nanoseconds");
    assert_eq!(c.quantiles.len(), 8);
    assert!(c.global_labels.is_none());
}

#[test]
fn config_new_keeps_parts() {
    let c = MetricsConfig::new(
        Some(vec![("service".to_string(), "api".to_string())]),
        vec![1, 2, 3],
        vec![500000],
        "/stats".to_string(),
    );
    assert_eq!(c.route, "/stats");
    assert_eq!(c.boundaries, vec![1, 2, 3]);
    assert_eq!(c.quantiles, vec![500000]);
    assert_eq!(
        c.global_labels,
        Some(vec![("service".to_string(), "api".to_string())])
    );
}

#[test]
fn decimal_formatting() {
    assert_eq!(fmt_u128(0), "0");
    assert_eq!(fmt_u128(1234567890), "1234567890");
    assert_eq!(fmt_scaled(1_000_000, 9), "0.001");
    assert_eq!(fmt_scaled(2_000_000, 9), "0.002");
    assert_eq!(fmt_scaled(1_000_000_000, 9), "1");
    assert_eq!(fmt_scaled(2_500_000_000, 9), "2.5");
    assert_eq!(fmt_scaled(1_000_000_000_000, 9), "1000");
    assert_eq!(fmt_scaled(1_500_000, 6), "1.5");
    assert_eq!(fmt_scaled(0, 9), "0");
    assert_eq!(fmt_scaled(1, 9), "0.000000001");
}

#[test]
fn request_count_appears_in_scrape_body() {
    let mut mw = MetricsMiddleware::default();
    assert!(mw.on_request("/").is_none(), "ordinary routes pass through");
    mw.on_response("/".to_string(), "GET".to_string(), 200, 1_500_000);
    let body = mw.on_request("/metrics").expect("scrape route answered");
    assert!(body.contains("# TYPE request_count counter"));
    assert!(body.contains("request_count{route=\"/\",method=\"GET\",status=\"200\"} 1"));
    assert!(body.contains("# TYPE request_duration_seconds histogram"));
    assert!(body.contains("request_duration_seconds_count{route=\"/\",method=\"GET\",status=\"200\"} 1"));
    assert!(
        !body.contains("error_count{"),
        "no error series before any server error"
    );
}

#[test]
fn error_count_changes_only_for_server_errors() {
    let mut mw = MetricsMiddleware::default();
    mw.on_response("/fail".to_string(), "GET".to_string(), 503, 1_000);
    assert_eq!(mw.registry.error_count.len(), 1);
    assert_eq!(mw.registry.error_count[0].value, 1);
    assert_eq!(mw.registry.error_count[0].labels.status, 503);

    mw.on_response("/".to_string(), "GET".to_string(), 200, 1_000);
    mw.on_response("/miss".to_string(), "GET".to_string(), 404, 1_000);
    assert_eq!(
        mw.registry.error_count.len(),
        1,
        "2xx and 4xx do not touch the error counter"
    );
    assert_eq!(mw.registry.error_count[0].value, 1);

    mw.on_response("/fail".to_string(), "GET".to_string(), 503, 1_000);
    assert_eq!(mw.registry.error_count[0].value, 2);
    assert_eq!(mw.registry.request_count.len(), 3);
}

#[test]
fn scrape_route_bypasses_recording() {
    let mut mw = MetricsMiddleware::default();
    mw.on_response("/".to_string(), "GET".to_string(), 200, 1_000_000);
    let before = render(&mw.registry);
    let body = mw.on_request("/metrics").expect("scrape answered");
    assert!(body.contains("request_count"));
    let after = render(&mw.registry);
    assert_eq!(before, after, "a scrape records nothing");
    assert_eq!(mw.registry.request_count.len(), 1);
}

#[test]
fn rendering_twice_is_identical() {
    let mut mw = MetricsMiddleware::default();
    mw.on_response("/a".to_string(), "POST".to_string(), 201, 42_000_000);
    mw.on_response("/b".to_string(), "GET".to_string(), 500, 7_000);
    let one = render(&mw.registry);
    let two = render(&mw.registry);
    assert_eq!(one, two);
}

#[test]
fn histogram_buckets_are_cumulative_and_monotone() {
    let mut mw = MetricsMiddleware::default();
    // 1.5 ms: above the 0.001 s boundary, within 0.002 s.
    mw.on_response("/".to_string(), "GET".to_string(), 200, 1_500_000);
    let h = &mw.registry.duration_s[0];
    assert_eq!(h.buckets.len(), 32);
    assert_eq!(h.buckets[0], 0);
    assert_eq!(h.buckets[1], 1, "falls in the le=0.002 bucket");
    assert_eq!(h.count, 1);
    assert_eq!(h.sum_ns, 1_500_000);

    // In milliseconds the same observation is 1.5, within the 2.0 boundary,
    // which is bucket index 16 of the shared boundary list.
    let hms = &mw.registry.duration_ms[0];
    assert_eq!(hms.buckets[16], 1);

    let body = render(&mw.registry);
    assert!(body.contains("request_duration_seconds_bucket{route=\"/\",method=\"GET\",status=\"200\",le=\"0.001\"} 0"));
    assert!(body.contains("request_duration_seconds_bucket{route=\"/\",method=\"GET\",status=\"200\",le=\"0.002\"} 1"));
    assert!(body.contains("request_duration_seconds_bucket{route=\"/\",method=\"GET\",status=\"200\",le=\"+Inf\"} 1"));
    assert!(body.contains("request_duration_seconds_sum{route=\"/\",method=\"GET\",status=\"200\"} 0.0015"));

    // Cumulative counts never decrease as the boundary grows.
    let mut cumulative: u128 = 0;
    let mut previous: u128 = 0;
    for b in &h.buckets {
        cumulative += *b as u128;
        assert!(cumulative >= previous);
        previous = cumulative;
    }
}

#[test]
fn global_labels_prefix_every_series() {
    let config = MetricsConfig::new(
        Some(vec![("service".to_string(), "api".to_string())]),
        vec![1_000_000],
        vec![],
        "/metrics".to_string(),
    );
    let mut mw = MetricsMiddleware::new(config);
    mw.on_response("/".to_string(), "GET".to_string(), 200, 10);
    let body = mw.on_request("/metrics").expect("scrape answered");
    assert!(body.contains("request_count{service=\"api\",route=\"/\",method=\"GET\",status=\"200\"} 1"));
}

#[test]
fn custom_scrape_route_is_honoured() {
    let config = MetricsConfig::new(None, vec![1_000], vec![], "/stats".to_string());
    let mut mw = MetricsMiddleware::new(config);
    assert!(mw.on_request("/metrics").is_none());
    assert!(mw.on_request("/stats").is_some());
    mw.on_response("/metrics".to_string(), "GET".to_string(), 200, 5);
    assert_eq!(mw.registry.request_count[0].labels.route, "/metrics");
}

#[test]
fn registry_exposes_increment_observe_snapshot() {
    let mut reg = MetricRegistry::new(MetricsConfig::default());
    let labels = || LabelSet {
        route: "/x".to_string(),
        method: "PUT".to_string(),
        status: 200,
    };
    reg.increment(CounterKind::RequestCount, labels());
    reg.increment(CounterKind::RequestCount, labels());
    reg.increment(CounterKind::ErrorCount, labels());
    reg.observe(HistogramKind::DurationSeconds, 3_000_000, labels());
    reg.observe(HistogramKind::DurationMs, 3_000_000, labels());
    assert_eq!(reg.request_count[0].value, 2);
    assert_eq!(reg.error_count[0].value, 1);
    assert_eq!(reg.duration_s[0].count, 1);
    assert_eq!(reg.duration_ms[0].count, 1);
    let body = reg.snapshot();
    assert!(body.contains("request_count{route=\"/x\",method=\"PUT\",status=\"200\"} 2"));
    assert_eq!(body, render(&reg));
}
