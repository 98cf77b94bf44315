use rusty_rivens::auth_state::AuthState;
use rusty_rivens::error::{AppError, GenericError};
use rusty_rivens::model::{Header, Headers, Method, RequestBuilder};

#[test]
fn default_header_set_is_prepopulated() {
    let rq = RequestBuilder::new().build();
    let hs = rq.headers();
    assert_eq!(hs.len(), 5);
    assert_eq!(hs.get("User-Agent"), Some("Rusty Rivens v0.0.1".to_string()));
    assert_eq!(hs.get("Connection"), Some("keep-alive".to_string()));
    assert_eq!(hs.get("Accept"), Some("application/json".to_string()));
    assert_eq!(hs.get("Content-Type"), Some("application/json".to_string()));
    assert_eq!(hs.get("Accept-Language"), Some("en".to_string()));
    assert_eq!(rq.timeout_ms(), 5000);
}

#[test]
fn header_lookup_ignores_ascii_case() {
    let rq = RequestBuilder::new().build();
    let hs = rq.headers();
    assert_eq!(hs.get("user-agent"), Some("Rusty Rivens v0.0.1".to_string()));
    assert_eq!(hs.get("CONTENT-TYPE"), Some("application/json".to_string()));
    assert_eq!(hs.get("No-Such-Header"), None);
}

#[test]
fn duplicate_header_is_rejected_and_value_preserved() {
    // for every name of the default set, a second insertion fails and the
    // first writer's value stays
    let names = [
        "User-Agent",
        "Connection",
        "Accept",
        "Content-Type",
        "Accept-Language",
    ];
    for name in names {
        let builder = RequestBuilder::new();
        let before = builder.build();
        let original = before.headers().get(name).unwrap();
        let res = before
            .into_builder()
            .header(Header(name.to_string(), "overwrite-attempt".to_string()));
        match res {
            Ok(_) => panic!("duplicate insertion must be rejected"),
            Err(e) => {
                assert_eq!(e.0 .0, name.to_string());
            }
        }
        let again = RequestBuilder::new().build();
        assert_eq!(again.headers().get(name), Some(original));
    }
}

#[test]
fn duplicate_header_rejected_up_to_case() {
    let res = RequestBuilder::new().header(Header(
        "user-agent".to_string(),
        "sneaky".to_string(),
    ));
    assert!(res.is_err());
}

#[test]
fn fresh_header_is_inserted_at_the_end() {
    let rq = RequestBuilder::new()
        .header(Header("Device".to_string(), "thingamajig".to_string()))
        .unwrap()
        .build();
    assert_eq!(rq.headers().len(), 6);
    assert_eq!(rq.headers().get("Device"), Some("thingamajig".to_string()));
}

#[test]
fn headers_bulk_insert_skips_existing_names() {
    let rq = RequestBuilder::new()
        .headers(vec![
            Header("Accept".to_string(), "text/html".to_string()),
            Header("Device".to_string(), "thingamajig".to_string()),
        ])
        .build();
    assert_eq!(rq.headers().len(), 6);
    assert_eq!(rq.headers().get("Accept"), Some("application/json".to_string()));
    assert_eq!(rq.headers().get("Device"), Some("thingamajig".to_string()));
}

#[test]
fn direct_insert_reports_duplicate() {
    let mut hs = Headers::new();
    assert!(hs.insert(Header("A".to_string(), "1".to_string())).is_ok());
    assert!(hs.insert(Header("a".to_string(), "2".to_string())).is_err());
    assert_eq!(hs.get("A"), Some("1".to_string()));
    assert_eq!(hs.len(), 1);
}

#[test]
fn method_tokens() {
    assert_eq!(Method::OPTIONS.as_str(), "OPTIONS");
    assert_eq!(Method::GET.as_str(), "GET");
    assert_eq!(Method::POST.as_str(), "POST");
    assert_eq!(Method::PUT.as_str(), "PUT");
    assert_eq!(Method::DELETE.as_str(), "DELETE");
    assert_eq!(Method::HEAD.as_str(), "HEAD");
    assert_eq!(Method::TRACE.as_str(), "TRACE");
    assert_eq!(Method::CONNECT.as_str(), "CONNECT");
    assert_eq!(Method::PATCH.as_str(), "PATCH");
}

#[test]
fn builder_keeps_method() {
    let b = RequestBuilder::new().method(Method::POST);
    assert!(matches!(b.get_method(), Some(Method::POST)));
    assert!(RequestBuilder::new().get_method().is_none());
}

#[test]
fn auth_state_set_replaces_everything() {
    let mut auth = AuthState::default();
    assert!(auth.id.is_empty());
    let fresh = AuthState {
        id: "ident".to_string(),
        check_code: "code".to_string(),
        ingame_name: "Rusty Rivens".to_string(),
        wfm_access_token: "tok1".to_string(),
        qf_access_token: "tok2".to_string(),
    };
    auth.set(fresh.clone());
    assert_eq!(auth.id, "ident");
    assert_eq!(auth.check_code, "code");
    assert_eq!(auth.ingame_name, "Rusty Rivens");
    assert_eq!(auth.wfm_access_token, "tok1");
    assert_eq!(auth.qf_access_token, "tok2");
}

#[test]
fn error_location_chains() {
    let g = GenericError::new("boom".to_string(), "inner: ".to_string());
    let g2 = g.prop("outer: ".to_string());
    assert_eq!(g2.location, "outer: inner: ");
    assert_eq!(g2.err, "boom");

    let a = AppError::new("boom".to_string(), "inner".to_string());
    let a2 = a.prop("outer".to_string());
    assert_eq!(a2.location, "outer::inner");
    assert_eq!(a2.err, "boom");
}
