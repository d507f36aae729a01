use iii_core::http_trace::{
    parse_i64, parse_ignore_url_patterns, request_body_size_attribute, request_header_attribute,
    request_failure_outcome, request_span, response_outcome, safe_request_headers, safe_response_headers,
    should_ignore_fetch_url, span_name, str_contains, upper_method,
};
use iii_core::otlp_json::{AttrValue, Attribute};

fn show(a: &Attribute) -> String {
    match &a.value {
        AttrValue::String(s) => format!("{}={}", a.key, s),
        AttrValue::I64(i) => format!("{}={}", a.key, i),
        other => format!("{}={:?}", a.key, other),
    }
}

#[test]
fn test_safe_request_headers_contains_content_type_and_accept() {
    assert!(safe_request_headers().contains(&"content-type"));
    assert!(safe_request_headers().contains(&"accept"));
}

#[test]
fn test_safe_response_headers_contains_content_type() {
    assert!(safe_response_headers().contains(&"content-type"));
}

#[test]
fn test_span_name_with_path() {
    assert_eq!(span_name("GET", Some("/api/items")), "GET /api/items");
    assert_eq!(span_name("POST", Some("/users")), "POST /users");
}

#[test]
fn test_span_name_without_path() {
    assert_eq!(span_name("GET", None), "GET");
    assert_eq!(span_name("DELETE", Some("")), "DELETE");
}

#[test]
fn ignore_patterns_are_trimmed_and_nonempty() {
    let p = parse_ignore_url_patterns(" /health , ,metrics,, ");
    assert_eq!(p, vec!["/health".to_string(), "metrics".to_string()]);
    assert!(parse_ignore_url_patterns("").is_empty());
    assert!(should_ignore_fetch_url("http://x/health?a=1", &p));
    assert!(should_ignore_fetch_url("http://x/metrics", &p));
    assert!(!should_ignore_fetch_url("http://x/api", &p));
    assert!(!should_ignore_fetch_url("http://x/health", &[]));
    assert!(str_contains("abc", ""));
    assert!(str_contains("abc", "bc"));
    assert!(!str_contains("ab", "abc"));
}

#[test]
fn request_span_attributes() {
    assert_eq!(upper_method("patch"), "PATCH");
    let span = request_span("get", "https://h:8443/p?q=1", Some("h"), "https", "/p", Some(8443), Some("q=1"));
    assert_eq!(span.name, "GET /p");
    assert_eq!(
        span.attributes.iter().map(show).collect::<Vec<_>>(),
        vec![
            "http.request.method=GET",
            "url.full=https://h:8443/p?q=1",
            "server.address=h",
            "url.scheme=https",
            "network.protocol.name=http",
            "url.path=/p",
            "server.port=8443",
            "url.query=q=1",
        ]
    );
    let bare = request_span("POST", "x:", None, "", "", None, None);
    assert_eq!(bare.name, "POST");
    assert_eq!(bare.attributes.iter().map(show).collect::<Vec<_>>(), vec!["http.request.method=POST", "url.full=x:"]);
    assert_eq!(show(&request_header_attribute("accept", "*/*")), "http.request.header.accept=*/*");
    assert_eq!(show(&request_body_size_attribute(12)), "http.request.body.size=12");
}

#[test]
fn response_outcomes() {
    let ok = response_outcome(200, Some("42"), &[("content-type".to_string(), "text/plain".to_string())]);
    assert_eq!(
        ok.attributes.iter().map(show).collect::<Vec<_>>(),
        vec!["http.response.status_code=200", "http.response.body.size=42", "http.response.header.content-type=text/plain"]
    );
    assert!(ok.error.is_none());
    let bad = response_outcome(503, Some("abc"), &[]);
    assert_eq!(bad.attributes.iter().map(show).collect::<Vec<_>>(), vec!["http.response.status_code=503", "error.type=503"]);
    assert_eq!(bad.error.as_deref(), Some("503"));
    assert_eq!(response_outcome(400, None, &[]).error.as_deref(), Some("400"));
    assert!(response_outcome(399, None, &[]).error.is_none());
}

#[test]
fn integer_parsing_matches_std() {
    for s in ["0", "-0", "+7", "42", "-42", "9223372036854775807", "-9223372036854775808", "9223372036854775808", "-9223372036854775809", "", "-", "+", "1a", " 1", "00012", "99999999999999999999999"] {
        assert_eq!(parse_i64(s), s.parse::<i64>().ok(), "{s:?}");
    }
}

#[test]
fn failed_request_records_error_and_exception() {
    let f = request_failure_outcome("error sending request", "trace-lines");
    assert_eq!(show(&f.attribute), "error.type=error sending request");
    assert_eq!(f.status_description, "error sending request");
    let shown: Vec<String> = f.exception_attributes.iter().map(show).collect();
    assert_eq!(
        shown,
        vec![
            "exception.type=reqwest::Error".to_string(),
            "exception.message=error sending request".to_string(),
            "exception.stacktrace=trace-lines".to_string(),
        ]
    );
}
