use rusty_rivens::codec::{build_request, build_response};
use rusty_rivens::error::SendError;
use rusty_rivens::model::{Method, RequestBuilder};

#[test]
fn serializes_get_without_body() {
    let rq = RequestBuilder::new()
        .method(Method::GET)
        .uri("https://api.example.test/v1/items")
        .build();
    let (text, host) = build_request(&rq).unwrap();
    assert_eq!(host, "api.example.test");
    assert_eq!(
        text,
        "GET /v1/items HTTP/1.1\r\nHost: api.example.test\
         \r\nUser-Agent: Rusty Rivens v0.0.1\
         \r\nConnection: keep-alive\
         \r\nAccept: application/json\
         \r\nContent-Type: application/json\
         \r\nAccept-Language: en\r\n\r\n"
    );
}

#[test]
fn serializes_post_with_computed_content_length() {
    let body = "{\"a\":1}";
    let rq = RequestBuilder::new()
        .method(Method::POST)
        .uri("https://api.example.test/v1/items")
        .body(body.to_string())
        .build();
    let (text, _) = build_request(&rq).unwrap();
    assert!(text.ends_with("\r\nContent-Length: 7\r\n\r\n{\"a\":1}"));
}

#[test]
fn uri_without_path_gets_root_path() {
    let rq = RequestBuilder::new()
        .method(Method::GET)
        .uri("https://example.test")
        .build();
    let (text, host) = build_request(&rq).unwrap();
    assert_eq!(host, "example.test");
    assert!(text.starts_with("GET / HTTP/1.1\r\nHost: example.test\r\n"));
}

#[test]
fn missing_uri_is_a_construction_error() {
    let rq = RequestBuilder::new().method(Method::GET).build();
    assert!(matches!(build_request(&rq), Err(SendError::UriNone)));
}

#[test]
fn missing_method_is_a_construction_error() {
    let rq = RequestBuilder::new().uri("https://example.test/").build();
    assert!(matches!(build_request(&rq), Err(SendError::MethodNone)));
}

#[test]
fn plain_http_scheme_is_refused() {
    let rq = RequestBuilder::new()
        .method(Method::GET)
        .uri("http://example.test/")
        .build();
    match build_request(&rq) {
        Err(SendError::HttpNotSupported(u)) => assert_eq!(u, "http://example.test/"),
        other => panic!("expected HttpNotSupported, got {:?}", other),
    }
}

#[test]
fn reference_parser_recovers_the_request() {
    // the round trip, checked against an independent parser
    let body = "{\"email\":\"user@example.test\",\"password\":\"hunter\"}";
    let rq = RequestBuilder::new()
        .method(Method::POST)
        .uri("https://api.example.test/v1/auth/signin")
        .body(body.to_string())
        .build();
    let (text, _) = build_request(&rq).unwrap();
    let bytes = text.as_bytes();

    let mut header_buf = [httparse::EMPTY_HEADER; 16];
    let mut parsed = httparse::Request::new(&mut header_buf);
    let status = parsed.parse(bytes).unwrap();
    let head_len = match status {
        httparse::Status::Complete(n) => n,
        httparse::Status::Partial => panic!("parser found the request incomplete"),
    };
    assert_eq!(parsed.method, Some("POST"));
    assert_eq!(parsed.path, Some("/v1/auth/signin"));
    assert_eq!(parsed.version, Some(1));

    let find = |name: &str| -> Option<String> {
        parsed
            .headers
            .iter()
            .find(|h| h.name.eq_ignore_ascii_case(name))
            .map(|h| String::from_utf8(h.value.to_vec()).unwrap())
    };
    assert_eq!(find("Host"), Some("api.example.test".to_string()));
    assert_eq!(find("User-Agent"), Some("Rusty Rivens v0.0.1".to_string()));
    assert_eq!(find("Connection"), Some("keep-alive".to_string()));
    assert_eq!(find("Accept"), Some("application/json".to_string()));
    assert_eq!(find("Content-Type"), Some("application/json".to_string()));
    assert_eq!(find("Accept-Language"), Some("en".to_string()));
    assert_eq!(find("Content-Length"), Some(body.len().to_string()));

    assert_eq!(&bytes[head_len..], body.as_bytes());
}

#[test]
fn parses_response_with_headers_and_body() {
    let resp = build_response(
        "HTTP/1.1 200 OK\r\nContent-Type: application/json\r\nContent-Length: 11\r\n\r\n{\"ok\":true}",
    )
    .unwrap();
    let status = resp.status();
    assert_eq!(status.code, 200);
    assert_eq!(status.text, "OK");
    assert_eq!(
        resp.headers().get("content-type"),
        Some("application/json".to_string())
    );
    assert_eq!(resp.body(), Some("{\"ok\":true}".to_string()));
}

#[test]
fn reason_phrase_keeps_its_spaces() {
    let resp = build_response("HTTP/1.1 404 Not Found\r\nContent-Length: 0\r\n\r\n").unwrap();
    let status = resp.status();
    assert_eq!(status.code, 404);
    assert_eq!(status.text, "Not Found");
    assert_eq!(resp.body(), None);
}

#[test]
fn response_without_blank_line_is_malformed() {
    assert!(matches!(
        build_response("HTTP/1.1 200 OK\r\nContent-Length: 0"),
        Err(SendError::MalformedResponse(_, _))
    ));
}

#[test]
fn response_with_unparsable_code_is_malformed() {
    assert!(matches!(
        build_response("HTTP/1.1 abc OK\r\nA: b\r\n\r\nx"),
        Err(SendError::MalformedResponse(_, _))
    ));
}

#[test]
fn response_with_bad_header_line_is_malformed() {
    assert!(matches!(
        build_response("HTTP/1.1 200 OK\r\nno-separator-here\r\n\r\nx"),
        Err(SendError::MalformedResponse(_, _))
    ));
}

#[test]
fn response_with_bare_status_line_is_malformed() {
    assert!(matches!(
        build_response("HTTP/1.1\r\n\r\nx"),
        Err(SendError::MalformedResponse(_, _))
    ));
}

#[test]
fn status_code_too_large_is_malformed() {
    assert!(matches!(
        build_response("HTTP/1.1 99999 Huge\r\nA: b\r\n\r\nx"),
        Err(SendError::MalformedResponse(_, _))
    ));
}

#[test]
fn serialization_is_deterministic() {
    // the reconnect path resends the very same bytes
    let rq = RequestBuilder::new()
        .method(Method::POST)
        .uri("https://api.example.test/v1/items")
        .body("{\"a\":1}".to_string())
        .build();
    let first = build_request(&rq).unwrap();
    let second = build_request(&rq).unwrap();
    assert_eq!(first.0, second.0);
    assert_eq!(first.1, second.1);
}
