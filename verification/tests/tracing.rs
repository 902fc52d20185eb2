//! Tests for the propagation codecs, the header carrier and the trace
//! middleware engine.

use tracemetrics::carrier::HeaderCarrier;
use tracemetrics::hex::{hex_str, parse_hex};
use tracemetrics::propagators::{parse_baggage, parse_traceparent, render_traceparent};
use tracemetrics::registry::{Propagator, PropagatorRegistry};
use tracemetrics::request::{http_target, http_version_str, HttpVersion, RequestInfo};
use tracemetrics::span::{span_status, status_text, AttrValue, SpanKind, SpanStatus};
use tracemetrics::trace::TraceMiddleware;

fn plain_request(path: &str) -> RequestInfo {
    RequestInfo {
        method: "GET".to_string(),
        scheme: "http".to_string(),
        url: format!("http://example.com{}", path),
        path: path.to_string(),
        query: None,
        fragment: None,
        version: Some(HttpVersion::Http1_1),
        host: Some("example.com".to_string()),
        domain: Some("example.com".to_string()),
        port: Some(80),
        peer_ip: None,
        peer_port: None,
        client_ip: None,
    }
}

fn header<'a>(headers: &'a [(String, String)], name: &str) -> Option<&'a str> {
    headers
        .iter()
        .find(|(n, _)| n == name)
        .map(|(_, v)| v.as_str())
}

#[test]
fn hex_round_trip() {
    let s = hex_str(0x0af7651916cd43dd8448eb211c80319c, 32);
    assert_eq!(s, "0af7651916cd43dd8448eb211c80319c");
    assert_eq!(
        parse_hex(&s, 32),
        Some(0x0af7651916cd43dd8448eb211c80319c)
    );
    assert_eq!(parse_hex("00ff", 4), Some(255));
    assert_eq!(hex_str(255, 4), "00ff");
    assert_eq!(parse_hex("00FF", 4), None, "uppercase is rejected");
    assert_eq!(parse_hex("0f", 4), None, "wrong width is rejected");
    assert_eq!(parse_hex("zz", 2), None);
}

#[test]
fn carrier_is_case_insensitive_and_last_set_wins() {
    let mut c = HeaderCarrier::new();
    c.set("X-Custom".to_string(), "one".to_string());
    assert_eq!(c.get("x-custom"), Some("one".to_string()));
    assert_eq!(c.get("X-CUSTOM"), Some("one".to_string()));
    c.set("x-cUsToM".to_string(), "two".to_string());
    assert_eq!(c.get("X-Custom"), Some("two".to_string()));
    assert_eq!(c.get("other"), None);
}

#[test]
fn traceparent_parses_and_renders() {
    let tp = "00-0af7651916cd43dd8448eb211c80319c-b7ad6b7169203331-01";
    let parsed = parse_traceparent(tp).expect("valid traceparent");
    assert_eq!(parsed.0, 0x0af7651916cd43dd8448eb211c80319c);
    assert_eq!(parsed.1, 0xb7ad6b7169203331);
    assert_eq!(parsed.2, 1);
    assert_eq!(render_traceparent(parsed.0, parsed.1, parsed.2), tp);
    assert_eq!(parse_traceparent("00-abc-def-01"), None);
    assert_eq!(
        parse_traceparent("00-00000000000000000000000000000000-b7ad6b7169203331-01"),
        None,
        "zero trace id is invalid"
    );
}

#[test]
fn baggage_parses_entries_and_skips_malformed() {
    let entries = parse_baggage("userId=alice,serverNode=DF%2028,noequals,=empty");
    assert_eq!(entries.len(), 2);
    assert_eq!(entries[0].0, "userId");
    assert_eq!(entries[0].1, "alice");
    assert_eq!(entries[1].0, "serverNode");
    assert_eq!(entries[1].1, "DF%2028");
}

#[test]
fn extraction_order_is_last_registered_wins() {
    let mut headers = HeaderCarrier::new();
    headers.set(
        "traceparent".to_string(),
        "00-0af7651916cd43dd8448eb211c80319c-b7ad6b7169203331-01".to_string(),
    );
    headers.set(
        "x-b3-traceid".to_string(),
        "463ac35c9f6413ad48485a3953bb6124".to_string(),
    );
    headers.set("x-b3-spanid".to_string(), "0020000000000001".to_string());

    let mut w3c_last = PropagatorRegistry::new();
    w3c_last.register(Propagator::LegacyMultiHeader);
    w3c_last.register(Propagator::W3cTraceContext);
    let ctx = w3c_last.extract(&headers);
    assert_eq!(ctx.trace_id, 0x0af7651916cd43dd8448eb211c80319c);

    let mut legacy_last = PropagatorRegistry::new();
    legacy_last.register(Propagator::W3cTraceContext);
    legacy_last.register(Propagator::LegacyMultiHeader);
    let ctx = legacy_last.extract(&headers);
    assert_eq!(ctx.trace_id, 0x463ac35c9f6413ad48485a3953bb6124);
}

#[test]
fn root_span_for_request_without_trace_headers() {
    let mw = TraceMiddleware::with_default_propagators();
    let req = plain_request("/");
    let headers = HeaderCarrier::new();
    let t = mw.on_request(&req, &headers, 0x1234, 0x5678, 10);
    assert_eq!(t.span.parent_span_id, None, "span must be a root span");
    assert_eq!(t.ctx.trace_id, 0x1234);
    assert_eq!(t.ctx.span_id, 0x5678);
    assert!(!t.ctx.is_remote);

    let f = mw.on_response(t, 200, Some(5), Some("text/plain".to_string()), 20);
    assert_eq!(f.span.status, SpanStatus::Okay);
    let tp = header(&f.headers, "traceparent").expect("outgoing traceparent present");
    let parsed = parse_traceparent(tp).expect("internally consistent header");
    assert_eq!(parsed.0, 0x1234);
    assert_eq!(parsed.1, 0x5678);
}

#[test]
fn failing_request_scenario() {
    let mw = TraceMiddleware::with_default_propagators();
    let req = plain_request("/fail");
    let t = mw.on_request(&req, &HeaderCarrier::new(), 3, 4, 0);
    let f = mw.on_response(t, 503, None, None, 9);
    assert_eq!(f.span.status, SpanStatus::Unavailable);

    let mut metrics = tracemetrics::metrics::MetricsMiddleware::default();
    assert!(metrics.on_request("/fail").is_none());
    metrics.on_response("/fail".to_string(), "GET".to_string(), 503, 1_000);
    let body = metrics.on_request("/metrics").expect("scrape answered");
    assert!(body.contains("error_count{route=\"/fail\",method=\"GET\",status=\"503\"} 1"));
}

#[test]
fn trace_id_round_trips_through_w3c_header() {
    let mw = TraceMiddleware::with_default_propagators();
    let req = plain_request("/");
    let mut headers = HeaderCarrier::new();
    let incoming = "00-0af7651916cd43dd8448eb211c80319c-b7ad6b7169203331-01";
    headers.set("traceparent".to_string(), incoming.to_string());
    let t = mw.on_request(&req, &headers, 0x9999, 0x8888, 0);
    assert!(!t.ctx.is_remote, "child context is local");
    assert_eq!(t.ctx.trace_id, 0x0af7651916cd43dd8448eb211c80319c);
    assert_eq!(t.span.parent_span_id, Some(0xb7ad6b7169203331));

    let f = mw.on_response(t, 200, None, None, 1);
    let tp = header(&f.headers, "traceparent").expect("outgoing traceparent present");
    assert_eq!(&tp[3..35], &incoming[3..35], "trace id field unchanged");
}

#[test]
fn trace_id_round_trips_through_legacy_headers() {
    let mw = TraceMiddleware::with_default_propagators();
    let req = plain_request("/");
    let mut headers = HeaderCarrier::new();
    headers.set(
        "x-b3-traceid".to_string(),
        "463ac35c9f6413ad48485a3953bb6124".to_string(),
    );
    headers.set("x-b3-spanid".to_string(), "0020000000000001".to_string());
    headers.set("x-b3-sampled".to_string(), "1".to_string());
    let t = mw.on_request(&req, &headers, 0x1, 0x2, 0);
    assert_eq!(t.ctx.trace_id, 0x463ac35c9f6413ad48485a3953bb6124);
    assert_eq!(t.ctx.flags, 1);
    let f = mw.on_response(t, 200, None, None, 1);
    assert_eq!(
        header(&f.headers, "x-b3-traceid"),
        Some("463ac35c9f6413ad48485a3953bb6124")
    );
    assert_eq!(header(&f.headers, "x-b3-sampled"), Some("1"));
}

#[test]
fn baggage_round_trips_into_outgoing_headers() {
    let mw = TraceMiddleware::with_default_propagators();
    let req = plain_request("/");
    let mut headers = HeaderCarrier::new();
    headers.set("baggage".to_string(), "userId=alice,tier=gold".to_string());
    let t = mw.on_request(&req, &headers, 0x1, 0x2, 0);
    let f = mw.on_response(t, 200, None, None, 1);
    assert_eq!(header(&f.headers, "baggage"), Some("userId=alice,tier=gold"));
}

#[test]
fn span_records_lifecycle_events_and_attributes() {
    let mw = TraceMiddleware::with_default_propagators();
    let mut req = plain_request("/items");
    req.query = Some("page=2".to_string());
    req.fragment = Some("top".to_string());
    let headers = HeaderCarrier::new();
    let t = mw.on_request(&req, &headers, 7, 8, 100);
    assert_eq!(t.span.name, "GET http://example.com/items");
    assert_eq!(t.span.kind, SpanKind::Server);
    assert_eq!(t.span.status, SpanStatus::Unset);
    assert_eq!(t.span.start_ns, 100);
    assert_eq!(t.span.end_ns, None);
    assert_eq!(t.span.events.len(), 1);
    assert_eq!(t.span.events[0].0, "request.started");

    let attr = |name: &str| {
        t.span
            .attributes
            .iter()
            .find(|(k, _)| k == name)
            .map(|(_, v)| v.clone())
    };
    assert!(matches!(attr("http.method"), Some(AttrValue::Text(s)) if s == "GET"));
    assert!(matches!(attr("http.target"), Some(AttrValue::Text(s)) if s == "/items?page=2#top"));
    assert!(matches!(attr("http.flavor"), Some(AttrValue::Text(s)) if s == "1.1"));
    assert!(matches!(attr("net.host.port"), Some(AttrValue::Int(80))));
    assert!(
        matches!(attr("net.peer.ip"), Some(AttrValue::Text(s)) if s == "unknown"),
        "absent values keep their key with the unknown marker"
    );

    let f = mw.on_response(t, 404, Some(11), Some("text/html".to_string()), 250);
    assert_eq!(f.span.status, SpanStatus::NotFound);
    assert_eq!(f.span.end_ns, Some(250));
    assert_eq!(f.span.events.len(), 3);
    assert_eq!(f.span.events[1].0, "request.completed");
    assert_eq!(f.span.events[2].0, "request.finished");
    let rattr = |name: &str| {
        f.span
            .attributes
            .iter()
            .find(|(k, _)| k == name)
            .map(|(_, v)| v.clone())
    };
    assert!(matches!(rattr("http.status_code"), Some(AttrValue::Int(404))));
    assert!(matches!(rattr("http.status_text"), Some(AttrValue::Text(s)) if s == "Not Found"));
    assert!(matches!(
        rattr("http.response_content_length"),
        Some(AttrValue::Int(11))
    ));
    assert!(matches!(
        rattr("http.response_content_type"),
        Some(AttrValue::Text(s)) if s == "text/html"
    ));
}

#[test]
fn invalid_outgoing_headers_are_dropped_and_names_folded() {
    let mut c = HeaderCarrier::new();
    c.set("X-Mixed-Case".to_string(), "kept".to_string());
    c.set("x-bad-value".to_string(), "caf\u{e9}".to_string());
    let out = tracemetrics::headers::validated_headers(c);
    assert_eq!(out.len(), 1);
    assert_eq!(out[0].0, "x-mixed-case", "names come out folded");
    assert_eq!(out[0].1, "kept");
}

#[test]
fn status_table_maps_each_row() {
    assert_eq!(span_status(100), SpanStatus::Okay);
    assert_eq!(span_status(200), SpanStatus::Okay);
    assert_eq!(span_status(399), SpanStatus::Okay);
    assert_eq!(span_status(401), SpanStatus::Unauthenticated);
    assert_eq!(span_status(403), SpanStatus::PermissionDenied);
    assert_eq!(span_status(404), SpanStatus::NotFound);
    assert_eq!(span_status(429), SpanStatus::ResourceExhausted);
    assert_eq!(span_status(400), SpanStatus::InvalidArgument);
    assert_eq!(span_status(418), SpanStatus::InvalidArgument);
    assert_eq!(span_status(501), SpanStatus::Unimplemented);
    assert_eq!(span_status(503), SpanStatus::Unavailable);
    assert_eq!(span_status(504), SpanStatus::DeadlineExceeded);
    assert_eq!(span_status(500), SpanStatus::Internal);
    assert_eq!(span_status(599), SpanStatus::Internal);
    assert_eq!(span_status(99), SpanStatus::Unknown);
    assert_eq!(span_status(600), SpanStatus::Unknown);
}

#[test]
fn status_text_gives_canonical_phrases() {
    assert_eq!(status_text(200), "OK");
    assert_eq!(status_text(404), "Not Found");
    assert_eq!(status_text(503), "Service Unavailable");
    assert_eq!(status_text(599), "");
}

#[test]
fn http_version_and_target_derivation() {
    assert_eq!(http_version_str(HttpVersion::Http0_9), "0.9");
    assert_eq!(http_version_str(HttpVersion::Http1_0), "1.0");
    assert_eq!(http_version_str(HttpVersion::Http1_1), "1.1");
    assert_eq!(http_version_str(HttpVersion::Http2_0), "2.0");
    assert_eq!(http_version_str(HttpVersion::Http3_0), "3.0");
    let mut req = plain_request("/a/b");
    assert_eq!(http_target(&req), "/a/b");
    req.query = Some("x=1".to_string());
    assert_eq!(http_target(&req), "/a/b?x=1");
    req.fragment = Some("f".to_string());
    assert_eq!(http_target(&req), "/a/b?x=1#f");
}

#[test]
fn malformed_trace_headers_fall_back_to_root() {
    let mw = TraceMiddleware::with_default_propagators();
    let req = plain_request("/");
    let mut headers = HeaderCarrier::new();
    headers.set("traceparent".to_string(), "not-a-traceparent".to_string());
    headers.set("x-b3-traceid".to_string(), "zz".to_string());
    headers.set("x-b3-spanid".to_string(), "0020000000000001".to_string());
    let t = mw.on_request(&req, &headers, 0xabc, 0xdef, 0);
    assert_eq!(t.span.parent_span_id, None, "malformed headers never abort, they degrade to a root span");
    assert_eq!(t.ctx.trace_id, 0xabc);
    let f = mw.on_response(t, 200, None, None, 1);
    let tp = header(&f.headers, "traceparent").expect("fresh context still propagated");
    assert_eq!(parse_traceparent(tp).map(|p| p.0), Some(0xabc));
}
