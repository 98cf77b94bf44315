use rusty_rivens::client::{
    backoff_delay, extract_cookie_token, finish_response, inject_auth, is_backpressure,
    is_success, login_outcome, LoginError,
};
use rusty_rivens::codec::build_response;
use rusty_rivens::model::{Header, RequestBuilder};
use rusty_rivens::rate_limiter::MICRO;

#[test]
fn json_body_is_parsed_into_a_value() {
    let resp = build_response(
        "HTTP/1.1 200 OK\r\nContent-Length: 24\r\n\r\n{\"payload\":{\"user\":\"u\"}}",
    )
    .unwrap();
    let api = finish_response(resp).unwrap();
    assert_eq!(api.status.code, 200);
    assert_eq!(api.res.1.get("Content-Length"), Some("24".to_string()));
    let value = api.res.0.expect("a JSON body must yield a value");
    let user = value.get("payload").and_then(|p| p.get("user")).unwrap();
    assert_eq!(user.as_str(), Some("u"));
}

#[test]
fn missing_body_yields_no_value() {
    let resp = build_response("HTTP/1.1 204 No Content\r\nContent-Length: 0\r\n\r\n").unwrap();
    let api = finish_response(resp).unwrap();
    assert!(api.res.0.is_none());
    assert_eq!(api.status.code, 204);
}

#[test]
fn unparsable_body_is_its_own_error() {
    let resp = build_response(
        "HTTP/1.1 200 OK\r\nContent-Length: 9\r\n\r\nnot JSON!",
    )
    .unwrap();
    let err = finish_response(resp).expect_err("a non-JSON body must be refused");
    assert_eq!(err.location, "send_request: Value::from_str");
    assert!(!err.err.is_empty());
}

#[test]
fn auth_header_is_injected_when_a_credential_is_present() {
    let rq = inject_auth(RequestBuilder::new(), Some("tok-123"))
        .unwrap()
        .build();
    assert_eq!(rq.headers().get("Authorization"), Some("JWT tok-123".to_string()));
}

#[test]
fn no_credential_leaves_the_request_alone() {
    let rq = inject_auth(RequestBuilder::new(), None).unwrap().build();
    assert_eq!(rq.headers().get("Authorization"), None);
    assert_eq!(rq.headers().len(), 5);
}

#[test]
fn existing_auth_header_is_never_overwritten() {
    let with_auth = RequestBuilder::new()
        .header(Header("Authorization".to_string(), "JWT first".to_string()))
        .unwrap();
    assert!(inject_auth(with_auth, Some("second")).is_err());
}

#[test]
fn only_2xx_codes_are_success() {
    assert!(!is_success(199));
    assert!(is_success(200));
    assert!(is_success(299));
    assert!(!is_success(300));
    assert!(!is_success(429));
}

#[test]
fn exactly_429_signals_backpressure() {
    assert!(is_backpressure(429));
    assert!(!is_backpressure(428));
    assert!(!is_backpressure(430));
    assert_eq!(backoff_delay(429), Some(MICRO));
    assert_eq!(backoff_delay(200), None);
    assert_eq!(backoff_delay(500), None);
}

#[test]
fn cookie_token_sits_between_prefix_and_semicolon() {
    assert_eq!(
        extract_cookie_token("JWT=abc.def.ghi; Path=/; HttpOnly"),
        "abc.def.ghi"
    );
    assert_eq!(extract_cookie_token("JWT=; Path=/"), "");
    // a short or unterminated cookie yields the empty token, never a panic
    assert_eq!(extract_cookie_token("JW"), "");
    assert_eq!(extract_cookie_token("JWT=abc.def.ghi"), "");
}

#[test]
fn login_needs_a_2xx_and_a_cookie_token() {
    assert_eq!(
        login_outcome(200, Some("JWT=abc.def; Path=/")),
        Ok("abc.def".to_string())
    );
    assert_eq!(
        login_outcome(401, Some("JWT=abc.def; Path=/")),
        Err(LoginError::NotSucceeded(401))
    );
    assert_eq!(login_outcome(300, None), Err(LoginError::NotSucceeded(300)));
    assert_eq!(login_outcome(200, None), Err(LoginError::MissingCredential));
    assert_eq!(
        login_outcome(200, Some("JWT=; Path=/")),
        Err(LoginError::MissingCredential)
    );
}
