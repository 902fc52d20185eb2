//! The request model: the plain values the span attribute builder reads
//! from an inbound request, and the pure derivation of the span's
//! attribute set from them.
//!
//! The attribute key set is stable across requests: an attribute whose
//! source is unavailable is emitted with the explicit marker `unknown`
//! rather than omitted.

use vstd::prelude::*;
use crate::span::{status_text, status_text_spec, AttrValue, AttrValueV};

verus! {

/// The HTTP protocol version of a request, where the transport reports it.
#[derive(Clone, Copy, PartialEq, Eq, Structural, Debug)]
pub enum HttpVersion {
    /// HTTP/0.9
    Http0_9,
    /// HTTP/1.0
    Http1_0,
    /// HTTP/1.1
    Http1_1,
    /// HTTP/2
    Http2_0,
    /// HTTP/3
    Http3_0,
}

/// The flavor text of a version.
pub open spec fn http_version_rep(v: HttpVersion) -> Seq<char> {
    match v {
        HttpVersion::Http0_9 => "0.9"@,
        HttpVersion::Http1_0 => "1.0"@,
        HttpVersion::Http1_1 => "1.1"@,
        HttpVersion::Http2_0 => "2.0"@,
        HttpVersion::Http3_0 => "3.0"@,
    }
}

/// The flavor text of a version.
pub fn http_version_str(v: HttpVersion) -> (r: &'static str)
    ensures
        r@ == http_version_rep(v),
{
    match v {
        HttpVersion::Http0_9 => "0.9",
        HttpVersion::Http1_0 => "1.0",
        HttpVersion::Http1_1 => "1.1",
        HttpVersion::Http2_0 => "2.0",
        HttpVersion::Http3_0 => "3.0",
    }
}

/// The mathematical value of a [`RequestInfo`].
#[verifier::ext_equal]
pub ghost struct RequestInfoV {
    pub method: Seq<char>,
    pub scheme: Seq<char>,
    pub url: Seq<char>,
    pub path: Seq<char>,
    pub query: Option<Seq<char>>,
    pub fragment: Option<Seq<char>>,
    pub version: Option<HttpVersion>,
    pub host: Option<Seq<char>>,
    pub domain: Option<Seq<char>>,
    pub port: Option<u16>,
    pub peer_ip: Option<Seq<char>>,
    pub peer_port: Option<u16>,
    pub client_ip: Option<Seq<char>>,
}

/// The value of an optional string.
pub open spec fn opt_view(o: Option<String>) -> Option<Seq<char>> {
    match o {
        Some(s) => Some(s@),
        None => None,
    }
}

/// The plain values of one inbound request, as the host server reports
/// them; optional fields are those the transport may not provide.
#[derive(Debug)]
pub struct RequestInfo {
    /// The request method, e.g. `GET`.
    pub method: String,
    /// The URL scheme, e.g. `http`.
    pub scheme: String,
    /// The full request URL.
    pub url: String,
    /// The URL path.
    pub path: String,
    /// The URL query, without the `?`.
    pub query: Option<String>,
    /// The URL fragment, without the `#`.
    pub fragment: Option<String>,
    /// The protocol version.
    pub version: Option<HttpVersion>,
    /// The URL host.
    pub host: Option<String>,
    /// The URL domain (a named host).
    pub domain: Option<String>,
    /// The URL port, explicit or known from the scheme.
    pub port: Option<u16>,
    /// The peer's IP address.
    pub peer_ip: Option<String>,
    /// The peer's port.
    pub peer_port: Option<u16>,
    /// The client's IP address.
    pub client_ip: Option<String>,
}

impl View for RequestInfo {
    type V = RequestInfoV;

    open spec fn view(&self) -> RequestInfoV {
        RequestInfoV {
            method: self.method@,
            scheme: self.scheme@,
            url: self.url@,
            path: self.path@,
            query: opt_view(self.query),
            fragment: opt_view(self.fragment),
            version: self.version,
            host: opt_view(self.host),
            domain: opt_view(self.domain),
            port: self.port,
            peer_ip: opt_view(self.peer_ip),
            peer_port: self.peer_port,
            client_ip: opt_view(self.client_ip),
        }
    }
}

/// The request target: path, then `?query`, then `#fragment`.
pub open spec fn target_spec(
    path: Seq<char>,
    query: Option<Seq<char>>,
    fragment: Option<Seq<char>>,
) -> Seq<char> {
    path + (match query {
        Some(q) => "?"@ + q,
        None => Seq::empty(),
    }) + (match fragment {
        Some(f) => "#"@ + f,
        None => Seq::empty(),
    })
}

/// Builds the request target from the URL parts.
pub fn http_target(req: &RequestInfo) -> (r: String)
    ensures
        r@ == target_spec(req@.path, req@.query, req@.fragment),
{
    let mut r = clone_str(&req.path);
    match &req.query {
        Some(q) => {
            r.append("?");
            r.append(q.as_str());
        },
        None => {},
    }
    match &req.fragment {
        Some(f) => {
            r.append("#");
            r.append(f.as_str());
        },
        None => {},
    }
    proof {
        assert(r@ =~= target_spec(req@.path, req@.query, req@.fragment));
    }
    r
}

/// A fresh owned copy of a string.
fn clone_str(s: &String) -> (r: String)
    ensures
        r@ == s@,
{
    String::from_str(s.as_str())
}

/// A present string as a text attribute, an absent one as the marker.
pub open spec fn opt_text(o: Option<Seq<char>>) -> AttrValueV {
    match o {
        Some(s) => AttrValueV::Text(s),
        None => AttrValueV::Text("unknown"@),
    }
}

/// The attribute set derived from a request before the downstream handler
/// runs.  The key set is fixed; unavailable values appear as `unknown`.
pub open spec fn request_attrs_spec(r: RequestInfoV) -> Seq<(Seq<char>, AttrValueV)> {
    seq![
        ("telemetry.sdk.name"@, AttrValueV::Text("tracemetrics"@)),
        ("telemetry.sdk.version"@, AttrValueV::Text("0.1.0"@)),
        ("telemetry.sdk.language"@, AttrValueV::Text("rust"@)),
        ("http.method"@, AttrValueV::Text(r.method)),
        ("http.scheme"@, AttrValueV::Text(r.scheme)),
        ("http.url"@, AttrValueV::Text(r.url)),
        ("http.target"@, AttrValueV::Text(target_spec(r.path, r.query, r.fragment))),
        (
            "http.flavor"@,
            match r.version {
                Some(v) => AttrValueV::Text(http_version_rep(v)),
                None => AttrValueV::Text("unknown"@),
            },
        ),
        ("http.host"@, opt_text(r.host)),
        ("http.server_name"@, opt_text(r.domain)),
        (
            "net.host.port"@,
            match r.port {
                Some(p) => AttrValueV::Int(p as i64),
                None => AttrValueV::Text("unknown"@),
            },
        ),
        ("net.peer.ip"@, opt_text(r.peer_ip)),
        (
            "net.peer.port"@,
            match r.peer_port {
                Some(p) => AttrValueV::Int(p as i64),
                None => AttrValueV::Text("unknown"@),
            },
        ),
        ("http.client_ip"@, opt_text(r.client_ip)),
    ]
}

/// Builds the pre-request attribute list.
pub fn build_request_attrs(req: &RequestInfo) -> (v: Vec<(String, AttrValue)>)
    ensures
        crate::span::attrs_view(v@) == request_attrs_spec(req@),
{
    let mut v: Vec<(String, AttrValue)> = Vec::new();
    v.push((String::from_str("telemetry.sdk.name"), AttrValue::Text(String::from_str("tracemetrics"))));
    v.push((String::from_str("telemetry.sdk.version"), AttrValue::Text(String::from_str("0.1.0"))));
    v.push((String::from_str("telemetry.sdk.language"), AttrValue::Text(String::from_str("rust"))));
    v.push((String::from_str("http.method"), AttrValue::Text(clone_str(&req.method))));
    v.push((String::from_str("http.scheme"), AttrValue::Text(clone_str(&req.scheme))));
    v.push((String::from_str("http.url"), AttrValue::Text(clone_str(&req.url))));
    v.push((String::from_str("http.target"), AttrValue::Text(http_target(req))));
    let flavor = match req.version {
        Some(ver) => AttrValue::Text(String::from_str(http_version_str(ver))),
        None => AttrValue::Text(String::from_str("unknown")),
    };
    v.push((String::from_str("http.flavor"), flavor));
    v.push((String::from_str("http.host"), opt_text_attr(&req.host)));
    v.push((String::from_str("http.server_name"), opt_text_attr(&req.domain)));
    let port = match req.port {
        Some(p) => AttrValue::Int(p as i64),
        None => AttrValue::Text(String::from_str("unknown")),
    };
    v.push((String::from_str("net.host.port"), port));
    v.push((String::from_str("net.peer.ip"), opt_text_attr(&req.peer_ip)));
    let peer_port = match req.peer_port {
        Some(p) => AttrValue::Int(p as i64),
        None => AttrValue::Text(String::from_str("unknown")),
    };
    v.push((String::from_str("net.peer.port"), peer_port));
    v.push((String::from_str("http.client_ip"), opt_text_attr(&req.client_ip)));
    proof {
        assert(crate::span::attrs_view(v@) =~= request_attrs_spec(req@));
    }
    v
}

/// A present string as a text attribute, an absent one as the marker.
fn opt_text_attr(o: &Option<String>) -> (r: AttrValue)
    ensures
        r@ == opt_text(opt_view(*o)),
{
    match o {
        Some(s) => AttrValue::Text(clone_str(s)),
        None => AttrValue::Text(String::from_str("unknown")),
    }
}

/// The attribute set appended after the downstream handler completes: the
/// numeric status code, its canonical text, the response body length (zero
/// when unknown, saturated when it exceeds the attribute range) and, when
/// present, the content type.
pub open spec fn response_attrs_spec(
    status: u16,
    body_len: Option<u64>,
    content_type: Option<Seq<char>>,
) -> Seq<(Seq<char>, AttrValueV)> {
    seq![
        ("http.status_code"@, AttrValueV::Int(status as i64)),
        ("http.status_text"@, AttrValueV::Text(status_text_spec(status))),
        (
            "http.response_content_length"@,
            AttrValueV::Int(
                match body_len {
                    Some(l) => if l > 0x7fffffffffffffff {
                        0x7fffffffffffffffi64
                    } else {
                        l as i64
                    },
                    None => 0i64,
                },
            ),
        ),
    ] + (match content_type {
        Some(c) => seq![("http.response_content_type"@, AttrValueV::Text(c))],
        None => Seq::empty(),
    })
}

/// Builds the post-request attribute list.
pub fn build_response_attrs(status: u16, body_len: Option<u64>, content_type: &Option<String>) -> (v: Vec<
    (String, AttrValue),
>)
    ensures
        crate::span::attrs_view(v@) == response_attrs_spec(status, body_len, opt_view(*content_type)),
{
    let mut v: Vec<(String, AttrValue)> = Vec::new();
    v.push((String::from_str("http.status_code"), AttrValue::Int(status as i64)));
    v.push((String::from_str("http.status_text"), AttrValue::Text(String::from_str(status_text(status)))));
    let len_attr: i64 = match body_len {
        Some(l) => {
            if l > 0x7fffffffffffffff {
                0x7fffffffffffffffi64
            } else {
                l as i64
            }
        },
        None => 0i64,
    };
    v.push((String::from_str("http.response_content_length"), AttrValue::Int(len_attr)));
    match content_type {
        Some(c) => {
            v.push((String::from_str("http.response_content_type"), AttrValue::Text(clone_str(c))));
        },
        None => {},
    }
    proof {
        assert(crate::span::attrs_view(v@) =~= response_attrs_spec(
            status,
            body_len,
            opt_view(*content_type),
        ));
    }
    v
}

} // verus!
