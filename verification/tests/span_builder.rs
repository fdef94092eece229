use http::HeaderMap;
use http::HeaderValue;
use request_telemetry::request::make_request_span;
use request_telemetry::request::RequestHead;
use request_telemetry::span::SpanStatus;

fn head(scheme: Option<&str>, path: &str, query: Option<&str>) -> RequestHead {
    RequestHead {
        method: "GET".to_string(),
        scheme: scheme.map(|s| s.to_string()),
        path: path.to_string(),
        query: query.map(|q| q.to_string()),
    }
}

fn with_header(name: &'static str, value: &'static str) -> HeaderMap {
    let mut headers = HeaderMap::new();
    headers.insert(name, HeaderValue::from_static(value));
    headers
}

fn attribute(span: &request_telemetry::span::Span, key: &str) -> String {
    span.attributes.get(key).expect("attribute is set")
}

#[test]
fn host_with_port_gives_address_port_and_full_url() {
    let span = make_request_span(&head(Some("https"), "/a/b", None), &with_header("Host", "example.com:9090"));
    assert_eq!(attribute(&span, "server.address"), "example.com");
    assert_eq!(attribute(&span, "server.port"), "9090");
    assert!(attribute(&span, "url.full").starts_with("https://example.com:9090"));
    assert_eq!(attribute(&span, "url.full"), "https://example.com:9090/a/b");
}

#[test]
fn host_without_port_takes_the_default_of_https() {
    let span = make_request_span(&head(Some("https"), "/", None), &with_header("host", "example.com"));
    assert_eq!(attribute(&span, "server.address"), "example.com");
    assert_eq!(attribute(&span, "server.port"), "443");
    assert_eq!(attribute(&span, "url.full"), "https://example.com:443/");
}

#[test]
fn host_without_port_takes_the_default_of_http() {
    let span = make_request_span(&head(Some("http"), "/x", Some("a=1")), &with_header("host", "example.org"));
    assert_eq!(attribute(&span, "server.port"), "80");
    assert_eq!(attribute(&span, "url.full"), "http://example.org:80/x?a=1");
    assert_eq!(attribute(&span, "url.query"), "a=1");
}

#[test]
fn unknown_scheme_has_no_default_port() {
    let span = make_request_span(&head(Some("ws"), "/socket", None), &with_header("host", "example.org"));
    assert_eq!(attribute(&span, "server.address"), "example.org");
    assert_eq!(attribute(&span, "server.port"), "");
    assert_eq!(attribute(&span, "url.full"), "ws://example.org/socket");
}

#[test]
fn missing_host_leaves_address_and_port_empty() {
    let span = make_request_span(&head(Some("https"), "/p", Some("q=1")), &HeaderMap::new());
    assert_eq!(attribute(&span, "server.address"), "");
    assert_eq!(attribute(&span, "server.port"), "");
    assert_eq!(attribute(&span, "url.full"), "https:///p?q=1");
}

#[test]
fn host_that_is_not_text_leaves_address_and_port_empty() {
    let mut headers = HeaderMap::new();
    headers.insert("host", HeaderValue::from_bytes(&[0xff, 0xfe]).unwrap());
    let span = make_request_span(&head(None, "/", None), &headers);
    assert_eq!(attribute(&span, "server.address"), "");
    assert_eq!(attribute(&span, "server.port"), "");
    assert_eq!(attribute(&span, "url.full"), "http:///");
}

#[test]
fn host_splits_at_its_first_colon() {
    let span = make_request_span(&head(None, "/", None), &with_header("host", "a:b:c"));
    assert_eq!(attribute(&span, "server.address"), "a");
    assert_eq!(attribute(&span, "server.port"), "b:c");
    assert_eq!(attribute(&span, "url.full"), "http://a:b:c/");
}

#[test]
fn host_ending_in_a_colon_has_an_empty_port() {
    let span = make_request_span(&head(Some("https"), "/", None), &with_header("host", "example.com:"));
    assert_eq!(attribute(&span, "server.address"), "example.com");
    assert_eq!(attribute(&span, "server.port"), "");
    assert_eq!(attribute(&span, "url.full"), "https://example.com/");
}

#[test]
fn first_host_value_counts() {
    let mut headers = HeaderMap::new();
    headers.append("host", HeaderValue::from_static("first.example:1"));
    headers.append("host", HeaderValue::from_static("second.example:2"));
    let span = make_request_span(&head(None, "/", None), &headers);
    assert_eq!(attribute(&span, "server.address"), "first.example");
    assert_eq!(attribute(&span, "server.port"), "1");
}

#[test]
fn absent_scheme_is_http() {
    let span = make_request_span(&head(None, "/", None), &with_header("host", "h"));
    assert_eq!(attribute(&span, "url.scheme"), "http");
    assert_eq!(attribute(&span, "server.port"), "80");
}

#[test]
fn absent_query_is_empty_and_leaves_no_question_mark() {
    let span = make_request_span(&head(None, "/plain", None), &with_header("host", "h:1"));
    assert_eq!(attribute(&span, "url.query"), "");
    assert_eq!(attribute(&span, "url.full"), "http://h:1/plain");
}

#[test]
fn method_and_path_are_recorded() {
    let mut request = head(None, "/items/7", Some("x=y"));
    request.method = "DELETE".to_string();
    let span = make_request_span(&request, &HeaderMap::new());
    assert_eq!(attribute(&span, "http.request.method"), "DELETE");
    assert_eq!(attribute(&span, "http.request.path"), "/items/7");
    assert_eq!(attribute(&span, "url.query"), "x=y");
    assert_eq!(attribute(&span, "url.full"), "http:///items/7?x=y");
}

#[test]
fn client_address_and_user_agent_are_taken_from_their_headers() {
    let mut headers = HeaderMap::new();
    headers.insert("X-Real-Ip", HeaderValue::from_static("203.0.113.9"));
    headers.insert("User-Agent", HeaderValue::from_static("curl/8.0"));
    let span = make_request_span(&head(None, "/", None), &headers);
    assert_eq!(attribute(&span, "client.address"), "203.0.113.9");
    assert_eq!(attribute(&span, "user_agent.original"), "curl/8.0");
}

#[test]
fn absent_client_address_and_user_agent_are_not_sent() {
    let span = make_request_span(&head(None, "/", None), &HeaderMap::new());
    assert_eq!(attribute(&span, "client.address"), "NOT_SENT");
    assert_eq!(attribute(&span, "user_agent.original"), "NOT_SENT");
}

#[test]
fn client_address_and_user_agent_that_are_not_text_are_unknown() {
    let mut headers = HeaderMap::new();
    headers.insert("x-real-ip", HeaderValue::from_bytes(&[0x80]).unwrap());
    headers.insert("user-agent", HeaderValue::from_bytes(&[0xc3, 0xa9]).unwrap());
    let span = make_request_span(&head(None, "/", None), &headers);
    assert_eq!(attribute(&span, "client.address"), "UNKNOWN");
    assert_eq!(attribute(&span, "user_agent.original"), "UNKNOWN");
}

#[test]
fn summary_span_has_its_name_nine_attributes_and_no_status() {
    let span = make_request_span(&head(None, "/", None), &HeaderMap::new());
    assert_eq!(span.name, "RequestSummary");
    assert_eq!(span.status, SpanStatus::Unset);
    let mut keys: Vec<String> = span.attributes.entries().iter().map(|a| a.key.clone()).collect();
    keys.sort();
    assert_eq!(
        keys,
        vec![
            "client.address",
            "http.request.method",
            "http.request.path",
            "server.address",
            "server.port",
            "url.full",
            "url.query",
            "url.scheme",
            "user_agent.original",
        ]
    );
}
