//! The summary span of a request, built from its method, its target and
//! its headers.

use crate::headers::first_value;
use crate::headers::header_texts;
use crate::headers::header_value;
use crate::headers::lookup_view;
use crate::span::Span;
use crate::span::SpanView;
use crate::span::StatusView;
use crate::text::combine;
use crate::text::find_first;
use crate::text::optional_text;
use crate::text::same_text;
use crate::text::slice;
use http::HeaderMap;
use http::HeaderValue;
use vstd::prelude::*;

verus! {

/// What the span builder reads of a request besides its headers.
#[derive(Debug, PartialEq, Eq)]
pub struct RequestHead {
    /// The request method, such as `GET`.
    pub method: String,
    /// The scheme of the request target, where it names one.
    pub scheme: Option<String>,
    /// The path of the request target.
    pub path: String,
    /// The query of the request target, without the `?`, where it has one.
    pub query: Option<String>,
}

/// The mathematical value of a [`RequestHead`].
pub struct RequestHeadView {
    pub method: Seq<char>,
    pub scheme: Option<Seq<char>>,
    pub path: Seq<char>,
    pub query: Option<Seq<char>>,
}

impl View for RequestHead {
    type V = RequestHeadView;

    open spec fn view(&self) -> RequestHeadView {
        RequestHeadView {
            method: self.method@,
            scheme: optional_text(self.scheme),
            path: self.path@,
            query: optional_text(self.query),
        }
    }
}

/// The scheme that the span records: the target's own, or `http`.
pub open spec fn scheme_of(head: RequestHeadView) -> Seq<char> {
    match head.scheme {
        Some(scheme) => scheme,
        None => "http"@,
    }
}

/// The query that the span records: the target's own, or nothing.
pub open spec fn query_of(head: RequestHeadView) -> Seq<char> {
    match head.query {
        Some(query) => query,
        None => Seq::empty(),
    }
}

/// The port that a scheme implies when the `Host` header names none.
pub open spec fn default_port(scheme: Seq<char>) -> Seq<char> {
    if scheme == "http"@ {
        "80"@
    } else if scheme == "https"@ {
        "443"@
    } else {
        Seq::empty()
    }
}

/// Server address and port, from the first `Host` value. The value splits
/// at its first colon; without a colon the port is the scheme's default.
/// With no `Host` header, or one that is not text, both are empty.
pub open spec fn server_of(host: Option<Option<Seq<char>>>, scheme: Seq<char>) -> (Seq<char>, Seq<char>) {
    match host {
        Some(Some(value)) => match value.index_of_first(':') {
            Some(colon) => (value.subrange(0, colon), value.subrange(colon + 1, value.len() as int)),
            None => (value, default_port(scheme)),
        },
        _ => (Seq::empty(), Seq::empty()),
    }
}

/// The full URL: `scheme://address`, then `:port` unless the port is empty,
/// then the path, then `?query` where the target has a query.
pub open spec fn full_url(
    scheme: Seq<char>,
    address: Seq<char>,
    port: Seq<char>,
    path: Seq<char>,
    query: Option<Seq<char>>,
) -> Seq<char> {
    scheme + "://"@ + address + (if port.len() == 0 {
        Seq::empty()
    } else {
        ":"@ + port
    }) + path + (match query {
        Some(query) => "?"@ + query,
        None => Seq::empty(),
    })
}

/// What is recorded for a header that may be missing: its text, `UNKNOWN`
/// where its first value is not text, `NOT_SENT` where it is absent.
pub open spec fn sent_or_fallback(value: Option<Option<Seq<char>>>) -> Seq<char> {
    match value {
        Some(Some(text)) => text,
        Some(None) => "UNKNOWN"@,
        None => "NOT_SENT"@,
    }
}

/// The summary span of a request with head `head` and header fields
/// `fields`.
pub open spec fn request_summary(head: RequestHeadView, fields: Seq<(Seq<char>, Option<Seq<char>>)>) -> SpanView {
    let scheme = scheme_of(head);
    let server = server_of(first_value(fields, "host"@), scheme);
    SpanView {
        name: "RequestSummary"@,
        attributes: Map::<Seq<char>, Seq<char>>::empty().insert(
            "http.request.method"@,
            head.method,
        ).insert("server.address"@, server.0).insert("server.port"@, server.1).insert(
            "url.scheme"@,
            scheme,
        ).insert("url.full"@, full_url(scheme, server.0, server.1, head.path, head.query)).insert(
            "user_agent.original"@,
            sent_or_fallback(first_value(fields, "user-agent"@)),
        ).insert("url.query"@, query_of(head)).insert(
            "client.address"@,
            sent_or_fallback(first_value(fields, "x-real-ip"@)),
        ).insert("http.request.path"@, head.path),
        status: StatusView::Unset,
    }
}

/// The default port of a scheme, as text.
fn port_for(scheme: &str) -> (port: String)
    ensures
        port@ == default_port(scheme@),
{
    if same_text(scheme, "http") {
        "80".to_owned()
    } else if same_text(scheme, "https") {
        "443".to_owned()
    } else {
        String::new()
    }
}

/// Splits what the `Host` lookup found into address and port.
fn server_address(host: &Option<Option<String>>, scheme: &str) -> (server: (String, String))
    ensures
        (server.0@, server.1@) == server_of(lookup_view(*host), scheme@),
{
    match host {
        Some(Some(value)) => {
            let value = value.as_str();
            match find_first(value, ':') {
                Some(colon) => {
                    let end = value.unicode_len();
                    (slice(value, 0, colon), slice(value, colon + 1, end))
                },
                None => (value.to_owned(), port_for(scheme)),
            }
        },
        _ => (String::new(), String::new()),
    }
}

/// Puts the full URL together from its parts.
fn url_of(scheme: &str, address: &str, port: &str, path: &str, query: &Option<String>) -> (url: String)
    ensures
        url@ == full_url(scheme@, address@, port@, path@, optional_text(*query)),
{
    let mut url = combine(scheme, "://");
    url.append(address);
    if port.unicode_len() != 0 {
        url.append(":");
        url.append(port);
    }
    url.append(path);
    match query {
        Some(query) => {
            url.append("?");
            url.append(query.as_str());
        },
        None => {},
    }
    proof {
        assert(url@ =~= full_url(scheme@, address@, port@, path@, optional_text(*query)));
    }
    url
}

/// The text of a header that may be missing, or the fallback for it.
fn or_fallback(value: Option<Option<String>>) -> (text: String)
    ensures
        text@ == sent_or_fallback(lookup_view(value)),
{
    match value {
        Some(Some(sent)) => sent,
        Some(None) => "UNKNOWN".to_owned(),
        None => "NOT_SENT".to_owned(),
    }
}

/// Builds the summary span of a request. Every lookup falls back to a fixed
/// text, so there is no request for which this fails.
pub fn make_request_span(head: &RequestHead, headers: &HeaderMap<HeaderValue>) -> (span: Span)
    ensures
        span@ == request_summary(head@, header_texts(*headers)),
{
    proof {
        reveal_strlit("host");
        reveal_strlit("user-agent");
        reveal_strlit("x-real-ip");
    }
    let scheme = match &head.scheme {
        Some(scheme) => scheme.clone(),
        None => "http".to_owned(),
    };
    let query = match &head.query {
        Some(query) => query.clone(),
        None => String::new(),
    };
    let host = header_value(headers, "host");
    let server = server_address(&host, scheme.as_str());
    let url = url_of(
        scheme.as_str(),
        server.0.as_str(),
        server.1.as_str(),
        head.path.as_str(),
        &head.query,
    );
    let agent = or_fallback(header_value(headers, "user-agent"));
    let client = or_fallback(header_value(headers, "x-real-ip"));
    let mut span = Span::new("RequestSummary");
    span.set_attribute("http.request.method".to_owned(), head.method.clone());
    span.set_attribute("server.address".to_owned(), server.0);
    span.set_attribute("server.port".to_owned(), server.1);
    span.set_attribute("url.scheme".to_owned(), scheme);
    span.set_attribute("url.full".to_owned(), url);
    span.set_attribute("user_agent.original".to_owned(), agent);
    span.set_attribute("url.query".to_owned(), query);
    span.set_attribute("client.address".to_owned(), client);
    span.set_attribute("http.request.path".to_owned(), head.path.clone());
    span
}

} // verus!
