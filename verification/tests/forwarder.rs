use api_bridge::forward::{finish, prepare, ForwardError, OutboundRequest};
use api_bridge::headers::{bytes_are_text, filter_valid_headers, text_headers};
use api_bridge::method::{allows_body, method_from_upper, parse_method, Method};
use api_bridge::greet;

fn request(method: &str, body: Option<&str>) -> OutboundRequest {
    OutboundRequest {
        url: String::from("http://localhost:3000/api/x"),
        method: String::from(method),
        headers: None,
        body: body.map(String::from),
        timeout_ms: None,
    }
}

#[test]
fn greet_builds_the_greeting() {
    assert_eq!(greet("Ada"), "Hello, Ada! You've been greeted from Rust!");
}

#[test]
fn methods_parse_case_insensitively() {
    assert_eq!(parse_method("get"), Some(Method::Get));
    assert_eq!(parse_method("POST"), Some(Method::Post));
    assert_eq!(parse_method("PuT"), Some(Method::Put));
    assert_eq!(parse_method("delete"), Some(Method::Delete));
    assert_eq!(parse_method("pAtCh"), Some(Method::Patch));
    assert_eq!(parse_method("head"), Some(Method::Head));
}

#[test]
fn unsupported_methods_are_refused() {
    assert_eq!(parse_method("TRACE"), None);
    assert_eq!(parse_method("OPTIONS"), None);
    assert_eq!(parse_method(""), None);
    assert_eq!(method_from_upper("GETX"), None);
}

#[test]
fn only_get_and_head_refuse_a_body() {
    assert!(!allows_body(Method::Get));
    assert!(!allows_body(Method::Head));
    assert!(allows_body(Method::Post));
    assert!(allows_body(Method::Put));
    assert!(allows_body(Method::Delete));
    assert!(allows_body(Method::Patch));
}

#[test]
fn body_is_kept_for_post_and_dropped_for_get_and_head() {
    let p = prepare(request("POST", Some("payload"))).unwrap();
    assert_eq!(p.body.as_deref(), Some("payload"));

    let p = prepare(request("get", Some("payload"))).unwrap();
    assert_eq!(p.body, None);

    let p = prepare(request("HEAD", Some("payload"))).unwrap();
    assert_eq!(p.body, None);
}

#[test]
fn unsupported_method_fails_before_any_work() {
    let r = prepare(request("TRACE", Some("payload")));
    match r {
        Err(ForwardError::UnsupportedMethod(m)) => assert_eq!(m, "TRACE"),
        _ => panic!("expected the unsupported-method error"),
    }
}

#[test]
fn timeout_defaults_and_is_kept_when_given() {
    let p = prepare(request("GET", None)).unwrap();
    assert_eq!(p.timeout_ms, 30000);

    let mut req = request("GET", None);
    req.timeout_ms = Some(750);
    let p = prepare(req).unwrap();
    assert_eq!(p.timeout_ms, 750);
}

fn keeps_entry(name: &str, value: &str) -> bool {
    let given = vec![(String::from(name), String::from(value))];
    filter_valid_headers(&given).len() == 1
}

#[test]
fn header_names_are_validated_by_the_transport_rules() {
    assert!(keeps_entry("content-type", "x"));
    assert!(keeps_entry("X-Custom-Header", "x"));
    assert!(!keeps_entry("", "x"));
    assert!(!keeps_entry("bad name", "x"));
    assert!(!keeps_entry("bad\nname", "x"));
    assert!(!keeps_entry("bad:name", "x"));
}

#[test]
fn header_values_are_validated_by_the_transport_rules() {
    assert!(keeps_entry("x-ok", "ok"));
    assert!(keeps_entry("x-ok", ""));
    assert!(keeps_entry("x-ok", "spaces and\ttabs"));
    assert!(!keeps_entry("x-ok", "line\nbreak"));
    assert!(!keeps_entry("x-ok", "\r"));
}

#[test]
fn malformed_header_is_dropped_and_the_rest_survive() {
    let headers = vec![
        (String::from("accept"), String::from("text/plain")),
        (String::from("bad\u{1}name"), String::from("x")),
        (String::from("x-ok"), String::from("bad\nvalue")),
        (String::from("x-token"), String::from("abc")),
    ];
    let kept = filter_valid_headers(&headers);
    assert_eq!(
        kept,
        vec![
            (String::from("accept"), String::from("text/plain")),
            (String::from("x-token"), String::from("abc")),
        ]
    );

    let mut req = request("POST", Some("b"));
    req.headers = Some(headers);
    let p = prepare(req).unwrap();
    assert_eq!(p.headers.len(), 2);
    assert_eq!(p.headers[0].0, "accept");
    assert_eq!(p.headers[1].0, "x-token");
}

#[test]
fn response_values_that_are_not_text_are_dropped() {
    assert!(bytes_are_text(&b"ok".to_vec()));
    assert!(!bytes_are_text(&vec![0x80u8]));
    assert!(!bytes_are_text(&vec![0x00u8]));

    let raw = vec![
        (String::from("x-test"), b"ok".to_vec()),
        (String::from("x-bin"), vec![0xffu8, 0x00u8]),
        (String::from("x-more"), b"fine too".to_vec()),
    ];
    let kept = text_headers(raw);
    assert_eq!(
        kept,
        vec![
            (String::from("x-test"), String::from("ok")),
            (String::from("x-more"), String::from("fine too")),
        ]
    );
}

#[test]
fn round_trip_echoes_status_header_and_body() {
    let p = prepare(request("GET", None)).unwrap();
    assert_eq!(p.method, Method::Get);
    assert_eq!(p.url, "http://localhost:3000/api/x");

    let raw = vec![(String::from("x-test"), b"ok".to_vec())];
    let result = finish(200, raw, String::from("hello"));
    assert_eq!(result.status, 200);
    assert_eq!(result.headers, vec![(String::from("x-test"), String::from("ok"))]);
    assert_eq!(result.body, "hello");
    assert_eq!(result.error, None);
}
