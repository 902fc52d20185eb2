//! Spans: a timed unit of work with attributes, events and a status,
//! representing one traced server request.

use vstd::prelude::*;

verus! {

/// The span status, set once from the response's HTTP status code.
///
/// The chosen policy is the fine-grained mapping of [`span_status_spec`]
/// (rather than a binary ok/error split): each HTTP code maps to the most
/// specific status below.
#[derive(Clone, Copy, PartialEq, Eq, Structural, Debug)]
pub enum SpanStatus {
    /// Not yet finalized.
    Unset,
    /// The request succeeded or was redirected (codes 100-399).
    Okay,
    /// Code 401.
    Unauthenticated,
    /// Code 403.
    PermissionDenied,
    /// Code 404.
    NotFound,
    /// Code 429.
    ResourceExhausted,
    /// Any other code in 400-499.
    InvalidArgument,
    /// Code 501.
    Unimplemented,
    /// Code 503.
    Unavailable,
    /// Code 504.
    DeadlineExceeded,
    /// Any other code in 500-599.
    Internal,
    /// A code outside 100-599.
    Unknown,
}

/// The status a response code maps to; branches are mutually exclusive by
/// first match.
pub open spec fn span_status_spec(code: u16) -> SpanStatus {
    if 100 <= code <= 399 {
        SpanStatus::Okay
    } else if code == 401 {
        SpanStatus::Unauthenticated
    } else if code == 403 {
        SpanStatus::PermissionDenied
    } else if code == 404 {
        SpanStatus::NotFound
    } else if code == 429 {
        SpanStatus::ResourceExhausted
    } else if 400 <= code <= 499 {
        SpanStatus::InvalidArgument
    } else if code == 501 {
        SpanStatus::Unimplemented
    } else if code == 503 {
        SpanStatus::Unavailable
    } else if code == 504 {
        SpanStatus::DeadlineExceeded
    } else if 500 <= code <= 599 {
        SpanStatus::Internal
    } else {
        SpanStatus::Unknown
    }
}

/// Maps a response's HTTP status code to the span status.
pub fn span_status(code: u16) -> (r: SpanStatus)
    ensures
        r == span_status_spec(code),
{
    if 100 <= code && code <= 399 {
        SpanStatus::Okay
    } else if code == 401 {
        SpanStatus::Unauthenticated
    } else if code == 403 {
        SpanStatus::PermissionDenied
    } else if code == 404 {
        SpanStatus::NotFound
    } else if code == 429 {
        SpanStatus::ResourceExhausted
    } else if 400 <= code && code <= 499 {
        SpanStatus::InvalidArgument
    } else if code == 501 {
        SpanStatus::Unimplemented
    } else if code == 503 {
        SpanStatus::Unavailable
    } else if code == 504 {
        SpanStatus::DeadlineExceeded
    } else if 500 <= code && code <= 599 {
        SpanStatus::Internal
    } else {
        SpanStatus::Unknown
    }
}

/// The canonical reason phrase of a status code, or the empty string for a
/// code without one.
pub open spec fn status_text_spec(code: u16) -> Seq<char> {
    if code == 100 { "Continue"@ }
    else if code == 101 { "Switching Protocols"@ }
    else if code == 200 { "OK"@ }
    else if code == 201 { "Created"@ }
    else if code == 202 { "Accepted"@ }
    else if code == 204 { "No Content"@ }
    else if code == 206 { "Partial Content"@ }
    else if code == 301 { "Moved Permanently"@ }
    else if code == 302 { "Found"@ }
    else if code == 303 { "See Other"@ }
    else if code == 304 { "Not Modified"@ }
    else if code == 307 { "Temporary Redirect"@ }
    else if code == 308 { "Permanent Redirect"@ }
    else if code == 400 { "Bad Request"@ }
    else if code == 401 { "Unauthorized"@ }
    else if code == 403 { "Forbidden"@ }
    else if code == 404 { "Not Found"@ }
    else if code == 405 { "Method Not Allowed"@ }
    else if code == 408 { "Request Timeout"@ }
    else if code == 409 { "Conflict"@ }
    else if code == 410 { "Gone"@ }
    else if code == 413 { "Payload Too Large"@ }
    else if code == 414 { "URI Too Long"@ }
    else if code == 415 { "Unsupported Media Type"@ }
    else if code == 422 { "Unprocessable Entity"@ }
    else if code == 429 { "Too Many Requests"@ }
    else if code == 500 { "Internal Server Error"@ }
    else if code == 501 { "Not Implemented"@ }
    else if code == 502 { "Bad Gateway"@ }
    else if code == 503 { "Service Unavailable"@ }
    else if code == 504 { "Gateway Timeout"@ }
    else if code == 505 { "HTTP Version Not Supported"@ }
    else { ""@ }
}

/// The canonical reason phrase of a status code.
pub fn status_text(code: u16) -> (r: &'static str)
    ensures
        r@ == status_text_spec(code),
{
    if code == 100 { "Continue" }
    else if code == 101 { "Switching Protocols" }
    else if code == 200 { "OK" }
    else if code == 201 { "Created" }
    else if code == 202 { "Accepted" }
    else if code == 204 { "No Content" }
    else if code == 206 { "Partial Content" }
    else if code == 301 { "Moved Permanently" }
    else if code == 302 { "Found" }
    else if code == 303 { "See Other" }
    else if code == 304 { "Not Modified" }
    else if code == 307 { "Temporary Redirect" }
    else if code == 308 { "Permanent Redirect" }
    else if code == 400 { "Bad Request" }
    else if code == 401 { "Unauthorized" }
    else if code == 403 { "Forbidden" }
    else if code == 404 { "Not Found" }
    else if code == 405 { "Method Not Allowed" }
    else if code == 408 { "Request Timeout" }
    else if code == 409 { "Conflict" }
    else if code == 410 { "Gone" }
    else if code == 413 { "Payload Too Large" }
    else if code == 414 { "URI Too Long" }
    else if code == 415 { "Unsupported Media Type" }
    else if code == 422 { "Unprocessable Entity" }
    else if code == 429 { "Too Many Requests" }
    else if code == 500 { "Internal Server Error" }
    else if code == 501 { "Not Implemented" }
    else if code == 502 { "Bad Gateway" }
    else if code == 503 { "Service Unavailable" }
    else if code == 504 { "Gateway Timeout" }
    else if code == 505 { "HTTP Version Not Supported" }
    else { "" }
}

/// One span attribute value.
#[derive(Clone, Debug)]
pub enum AttrValue {
    /// A string-valued attribute.
    Text(String),
    /// An integer-valued attribute.
    Int(i64),
}

/// The mathematical value of an [`AttrValue`].
#[verifier::ext_equal]
pub ghost enum AttrValueV {
    Text(Seq<char>),
    Int(i64),
}

impl View for AttrValue {
    type V = AttrValueV;

    open spec fn view(&self) -> AttrValueV {
        match self {
            AttrValue::Text(s) => AttrValueV::Text(s@),
            AttrValue::Int(i) => AttrValueV::Int(*i),
        }
    }
}

/// The value of an ordered attribute list.
pub open spec fn attrs_view(s: Seq<(String, AttrValue)>) -> Seq<(Seq<char>, AttrValueV)> {
    s.map_values(|p: (String, AttrValue)| (p.0@, p.1@))
}

/// The value of an ordered event list.
pub open spec fn events_view(s: Seq<(String, u64)>) -> Seq<(Seq<char>, u64)> {
    s.map_values(|p: (String, u64)| (p.0@, p.1))
}

/// The kind of work a span stands for; every span of this engine is a
/// server-side request span.
#[derive(Clone, Copy, PartialEq, Eq, Structural, Debug)]
pub enum SpanKind {
    /// Handling of an inbound request.
    Server,
}

/// The mathematical value of a [`SpanRecord`].
#[verifier::ext_equal]
pub ghost struct SpanRecordV {
    pub name: Seq<char>,
    pub kind: SpanKind,
    pub trace_id: u128,
    pub span_id: u64,
    pub parent_span_id: Option<u64>,
    pub start_ns: u64,
    pub attributes: Seq<(Seq<char>, AttrValueV)>,
    pub events: Seq<(Seq<char>, u64)>,
    pub status: SpanStatus,
    pub end_ns: Option<u64>,
}

/// A mutable record owned by the trace middleware during a single request:
/// created at request entry, appended to during and after downstream
/// execution, finalized exactly once.  A span without an end time is not
/// yet finalized; a root span has no parent span id.
#[derive(Debug)]
pub struct SpanRecord {
    /// The span name, `"{METHOD} {URL}"`.
    pub name: String,
    /// Always [`SpanKind::Server`] here.
    pub kind: SpanKind,
    /// The trace this span belongs to.
    pub trace_id: u128,
    /// This span's own identifier.
    pub span_id: u64,
    /// The remote parent's span identifier, when the request carried one.
    pub parent_span_id: Option<u64>,
    /// Wall-clock start, in nanoseconds.
    pub start_ns: u64,
    /// Ordered attribute list.
    pub attributes: Vec<(String, AttrValue)>,
    /// Ordered event list, each with its timestamp.
    pub events: Vec<(String, u64)>,
    /// The finalized status, [`SpanStatus::Unset`] until then.
    pub status: SpanStatus,
    /// Wall-clock end, in nanoseconds; set exactly once, at finalization.
    pub end_ns: Option<u64>,
}

impl View for SpanRecord {
    type V = SpanRecordV;

    open spec fn view(&self) -> SpanRecordV {
        SpanRecordV {
            name: self.name@,
            kind: self.kind,
            trace_id: self.trace_id,
            span_id: self.span_id,
            parent_span_id: self.parent_span_id,
            start_ns: self.start_ns,
            attributes: attrs_view(self.attributes@),
            events: events_view(self.events@),
            status: self.status,
            end_ns: self.end_ns,
        }
    }
}

} // verus!
