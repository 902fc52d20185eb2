//! The trace middleware: per request it extracts the remote context from
//! the inbound headers, starts a span (as a child of a remote parent when
//! one was carried, else as a root span), and after the downstream handler
//! completes it finalizes the span and injects the context into outgoing
//! headers.
//!
//! A request moves through fixed phases: context extraction from the
//! carrier, span start (with the pre-request attributes and the
//! `request.started` event), the downstream call, span finalization (the
//! post-request attributes, the status from the status table and the
//! `request.completed` event), injection into a fresh carrier with
//! byte-level validation of each header, and the closing
//! `request.finished` event.  [`TraceMiddleware::on_request`] performs
//! everything before the downstream call and hands back an
//! [`ActiveTrace`]; [`TraceMiddleware::on_response`] performs everything
//! after it.  The caller runs the downstream handler between the two and
//! must call `on_response` on every exit path — normal return, handler
//! error, cancellation — so the span is always finalized and exactly
//! once.  Each request's state is independent; the middleware itself is
//! read-only after construction.

use vstd::prelude::*;
use crate::carrier::HeaderCarrier;
use crate::context::{context_valid, TraceContext, TraceContextV};
use crate::headers::{is_ascii_key, is_ascii_text, validated_headers};
use crate::registry::{extract_all, inject_all, Propagator, PropagatorRegistry};
use crate::request::{build_request_attrs, build_response_attrs, opt_view, request_attrs_spec, response_attrs_spec, RequestInfo, RequestInfoV};
use crate::span::{attrs_view, events_view, span_status, span_status_spec, SpanKind, SpanRecord, SpanRecordV, SpanStatus};

verus! {

/// The context the new span runs under: a child of a valid remote parent
/// keeps its trace id, flags and baggage and takes the fresh span id;
/// otherwise a fresh sampled root context from the supplied identifiers,
/// still carrying any extracted baggage.
pub open spec fn child_context(
    extracted: TraceContextV,
    fresh_trace_id: u128,
    fresh_span_id: u64,
) -> TraceContextV {
    if extracted.is_remote && context_valid(extracted) {
        TraceContextV {
            trace_id: extracted.trace_id,
            span_id: fresh_span_id,
            flags: extracted.flags,
            is_remote: false,
            baggage: extracted.baggage,
        }
    } else {
        TraceContextV {
            trace_id: fresh_trace_id,
            span_id: fresh_span_id,
            flags: 1,
            is_remote: false,
            baggage: extracted.baggage,
        }
    }
}

/// The remote parent's span id, when the span starts as a child.
pub open spec fn parent_of(extracted: TraceContextV) -> Option<u64> {
    if extracted.is_remote && context_valid(extracted) {
        Some(extracted.span_id)
    } else {
        None
    }
}

/// The span name: `"{METHOD} {URL}"`.
pub open spec fn span_name_spec(r: RequestInfoV) -> Seq<char> {
    r.method + " "@ + r.url
}

/// The span as it stands when the downstream handler is invoked.
pub open spec fn started_span_spec(
    req: RequestInfoV,
    ctx: TraceContextV,
    parent: Option<u64>,
    now_ns: u64,
) -> SpanRecordV {
    SpanRecordV {
        name: span_name_spec(req),
        kind: SpanKind::Server,
        trace_id: ctx.trace_id,
        span_id: ctx.span_id,
        parent_span_id: parent,
        start_ns: now_ns,
        attributes: request_attrs_spec(req),
        events: seq![("request.started"@, now_ns)],
        status: SpanStatus::Unset,
        end_ns: None,
    }
}

/// The span as finalized from the response: the post-request attributes
/// appended, the completion and finish events recorded, the status set
/// from the status code, and the end time set, exactly once.
pub open spec fn finished_span_spec(
    s: SpanRecordV,
    status: u16,
    body_len: Option<u64>,
    content_type: Option<Seq<char>>,
    now_ns: u64,
) -> SpanRecordV {
    SpanRecordV {
        name: s.name,
        kind: s.kind,
        trace_id: s.trace_id,
        span_id: s.span_id,
        parent_span_id: s.parent_span_id,
        start_ns: s.start_ns,
        attributes: s.attributes + response_attrs_spec(status, body_len, content_type),
        events: s.events + seq![("request.completed"@, now_ns), ("request.finished"@, now_ns)],
        status: span_status_spec(status),
        end_ns: Some(now_ns),
    }
}

/// One request's tracing state while the downstream handler runs.
pub struct ActiveTrace {
    /// The current context, attached to the downstream execution scope.
    pub ctx: TraceContext,
    /// The span under construction.
    pub span: SpanRecord,
}

/// One request's tracing outcome: the finalized span for the tracer
/// backend, and the outgoing headers to copy onto the response.
pub struct FinishedTrace {
    /// The finalized span.
    pub span: SpanRecord,
    /// The valid outgoing headers, names in canonical lowercase form;
    /// headers that failed byte-level validity were dropped.
    pub headers: Vec<(String, String)>,
}

/// The trace middleware engine; holds the propagator registry, read-only
/// after construction.
#[derive(Debug)]
pub struct TraceMiddleware {
    registry: PropagatorRegistry,
}

impl View for TraceMiddleware {
    type V = Seq<Propagator>;

    closed spec fn view(&self) -> Seq<Propagator> {
        self.registry@
    }
}

impl TraceMiddleware {
    /// A middleware over the given registry.
    pub fn new(registry: PropagatorRegistry) -> (r: Self)
        ensures
            r@ == registry@,
    {
        TraceMiddleware { registry }
    }

    /// A middleware over the default registry.
    pub fn with_default_propagators() -> (r: Self)
        ensures
            r@ == seq![
                Propagator::LegacyMultiHeader,
                Propagator::Baggage,
                Propagator::W3cTraceContext,
            ],
    {
        TraceMiddleware { registry: PropagatorRegistry::with_defaults() }
    }

    /// Extracts the remote context from the inbound headers and starts the
    /// request's span: as a child of the extracted context when that is a
    /// valid remote one, else as a root span under a fresh context built
    /// from the supplied identifiers.  The `request.started` event is
    /// recorded at `now_ns`.
    pub fn on_request(
        &self,
        req: &RequestInfo,
        headers: &HeaderCarrier,
        fresh_trace_id: u128,
        fresh_span_id: u64,
        now_ns: u64,
    ) -> (t: ActiveTrace)
        requires
            fresh_trace_id != 0,
            fresh_span_id != 0,
        ensures
            t.ctx@ == child_context(extract_all(self@, headers@), fresh_trace_id, fresh_span_id),
            t.span@ == started_span_spec(
                req@,
                t.ctx@,
                parent_of(extract_all(self@, headers@)),
                now_ns,
            ),
    {
        let extracted = self.registry.extract(headers);
        let is_child = extracted.is_remote && extracted.trace_id != 0 && extracted.span_id != 0;
        let parent: Option<u64> = if is_child {
            Some(extracted.span_id)
        } else {
            None
        };
        let ctx = TraceContext {
            trace_id: if is_child {
                extracted.trace_id
            } else {
                fresh_trace_id
            },
            span_id: fresh_span_id,
            flags: if is_child {
                extracted.flags
            } else {
                1
            },
            is_remote: false,
            baggage: extracted.baggage,
        };
        let mut name = clone_str(&req.method);
        name.append(" ");
        name.append(req.url.as_str());
        let attributes = build_request_attrs(req);
        let mut events: Vec<(String, u64)> = Vec::new();
        events.push((String::from_str("request.started"), now_ns));
        let span = SpanRecord {
            name,
            kind: SpanKind::Server,
            trace_id: ctx.trace_id,
            span_id: ctx.span_id,
            parent_span_id: parent,
            start_ns: now_ns,
            attributes,
            events,
            status: SpanStatus::Unset,
            end_ns: None,
        };
        let t = ActiveTrace { ctx, span };
        proof {
            assert(t.ctx@ =~= child_context(
                extract_all(self@, headers@),
                fresh_trace_id,
                fresh_span_id,
            ));
            assert(events_view(t.span.events@) =~= seq![("request.started"@, now_ns)]);
            assert(t.span@ =~= started_span_spec(
                req@,
                t.ctx@,
                parent_of(extract_all(self@, headers@)),
                now_ns,
            ));
        }
        t
    }

    /// Finalizes the span from the response — post-request attributes,
    /// status per the status table, completion and finish events, end
    /// time — and injects the context into a fresh carrier, returning the
    /// headers that passed byte-level validity.  Must be called on every
    /// exit path of the downstream handler, exactly once per request.
    pub fn on_response(
        &self,
        t: ActiveTrace,
        status: u16,
        body_len: Option<u64>,
        content_type: Option<String>,
        now_ns: u64,
    ) -> (f: FinishedTrace)
        ensures
            f.span@ == finished_span_spec(
                t.span@,
                status,
                body_len,
                opt_view(content_type),
                now_ns,
            ),
            forall|l: int|
                0 <= l < f.headers@.len() ==> {
                    &&& is_ascii_text(#[trigger] f.headers@[l].0@)
                    &&& is_ascii_text(f.headers@[l].1@)
                    &&& inject_all(self@, t.ctx@, Map::empty()).contains_key(
                        crate::carrier::key_of(f.headers@[l].0@),
                    )
                    &&& inject_all(self@, t.ctx@, Map::empty())[crate::carrier::key_of(
                        f.headers@[l].0@,
                    )] == f.headers@[l].1@
                },
            forall|k: Seq<int>|
                inject_all(self@, t.ctx@, Map::empty()).contains_key(k) && #[trigger] is_ascii_key(
                    k,
                ) && is_ascii_text(inject_all(self@, t.ctx@, Map::empty())[k]) ==> exists|l: int|
                    0 <= l < f.headers@.len() && crate::carrier::key_of(#[trigger] f.headers@[l].0@)
                        == k && f.headers@[l].1@ == inject_all(self@, t.ctx@, Map::empty())[k],
    {
        let ActiveTrace { ctx, mut span } = t;
        span.events.push((String::from_str("request.completed"), now_ns));
        let mut resp_attrs = build_response_attrs(status, body_len, &content_type);
        span.attributes.append(&mut resp_attrs);
        span.status = span_status(status);
        let mut carrier = HeaderCarrier::new();
        self.registry.inject(&ctx, &mut carrier);
        proof {
            assert(carrier@ == inject_all(self@, t.ctx@, Map::<Seq<int>, Seq<char>>::empty()));
        }
        let ghost cm = carrier@;
        let headers = validated_headers(carrier);
        span.events.push((String::from_str("request.finished"), now_ns));
        span.end_ns = Some(now_ns);
        proof {
            assert(attrs_view(span.attributes@) =~= t.span@.attributes + response_attrs_spec(
                status,
                body_len,
                opt_view(content_type),
            ));
            assert(events_view(span.events@) =~= t.span@.events + seq![
                ("request.completed"@, now_ns),
                ("request.finished"@, now_ns),
            ]);
        }
        let f = FinishedTrace { span, headers };
        proof {
            assert(f.span@ =~= finished_span_spec(
                t.span@,
                status,
                body_len,
                opt_view(content_type),
                now_ns,
            ));
            let m = inject_all(self@, t.ctx@, Map::<Seq<int>, Seq<char>>::empty());
            assert(cm == m);
            assert forall|k: Seq<int>|
                m.contains_key(k) && #[trigger] is_ascii_key(k) && is_ascii_text(m[k]) implies
            exists|l: int|
                0 <= l < f.headers@.len() && crate::carrier::key_of(#[trigger] f.headers@[l].0@)
                    == k && f.headers@[l].1@ == m[k] by {
                assert(cm.contains_key(k) && is_ascii_key(k) && is_ascii_text(cm[k]));
                let l = choose|l: int|
                    0 <= l < headers@.len() && crate::carrier::key_of(#[trigger] headers@[l].0@)
                        == k && headers@[l].1@ == cm[k];
                assert(f.headers@[l].0@ == headers@[l].0@);
                assert(crate::carrier::key_of(f.headers@[l].0@) == k);
            }
        }
        f
    }
}

/// A fresh owned copy of a string.
fn clone_str(s: &String) -> (r: String)
    ensures
        r@ == s@,
{
    String::from_str(s.as_str())
}

} // verus!
