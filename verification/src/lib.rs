//! Request instrumentation engines for an HTTP middleware chain:
//! trace-context propagation with span lifecycle tracking, and
//! RED-method (Rate, Errors, Duration) metric aggregation with a
//! text scrape serializer.
//!
//! The two engines are [`trace::TraceMiddleware`], which extracts the
//! remote trace context from inbound headers, starts the request's span
//! and finally injects the context into outgoing headers, and
//! [`metrics::MetricsMiddleware`], which short-circuits the scrape route
//! and otherwise aggregates labeled counters and duration histograms,
//! rendered by [`render::render`].  The host server's glue — request
//! objects, the downstream call, timing, the tracer backend — stays
//! outside; the engines work on plain values.

pub mod carrier;
pub mod context;
pub mod headers;
pub mod hex;
pub mod laws;
pub mod metrics;
pub mod propagators;
pub mod registry;
pub mod render;
pub mod request;
pub mod span;
pub mod trace;
