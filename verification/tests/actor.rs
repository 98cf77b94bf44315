use rusty_rivens::actor::{ActorAction, ActorEvent, ActorState, Endpoint};
use rusty_rivens::error::{ConnectionError, SendError};
use rusty_rivens::model::{Method, RequestBuilder, Request};

fn request(path: &str) -> Request {
    RequestBuilder::new()
        .method(Method::GET)
        .uri(&format!("https://api.example.test{}", path))
        .build()
}

fn ok_response() -> rusty_rivens::model::Response {
    rusty_rivens::codec::build_response("HTTP/1.1 200 OK\r\nContent-Length: 0\r\n\r\n").unwrap()
}

#[test]
fn endpoint_builder_extracts_the_host() {
    let e = Endpoint::new()
        .port(443)
        .addr("https://api.example.test/v1/")
        .unwrap()
        .timeout(5000);
    assert_eq!(e.host, Some("api.example.test".to_string()));
    assert_eq!(e.port, Some(443));
    assert_eq!(e.timeout_ms, Some(5000));
}

#[test]
fn endpoint_refuses_plain_http() {
    let r = Endpoint::new().addr("http://api.example.test/");
    assert!(matches!(r, Err(ConnectionError::HttpNotSupported(_))));
}

#[test]
fn five_requests_serve_in_order_one_at_a_time() {
    // five round trips, each written and fully answered before the next
    let mut a = ActorState::new();
    for i in 0..5 {
        let action = a.step(ActorEvent::RequestArrived(request(&format!("/{}", i))));
        if i == 0 {
            assert!(matches!(action, ActorAction::Connect));
            assert!(matches!(a.step(ActorEvent::ConnectOk), ActorAction::WriteRequest));
        } else {
            // the connection persists between requests
            assert!(matches!(action, ActorAction::WriteRequest));
        }
        assert_eq!(
            a.inflight.as_ref().and_then(|r| r.uri.clone()),
            Some(format!("https://api.example.test/{}", i))
        );
        assert!(matches!(a.step(ActorEvent::WriteOk), ActorAction::ReadResponse));
        let done = a.step(ActorEvent::ResponseReady(ok_response()));
        assert!(matches!(done, ActorAction::Respond(Ok(_))));
        assert!(a.inflight.is_none());
    }
}

#[test]
fn broken_pipe_reconnects_and_resends_exactly_once() {
    let mut a = ActorState::new();
    assert!(matches!(
        a.step(ActorEvent::RequestArrived(request("/r"))),
        ActorAction::Connect
    ));
    assert!(matches!(a.step(ActorEvent::ConnectOk), ActorAction::WriteRequest));

    // first broken-pipe write failure: reconnect, same request kept
    let act = a.step(ActorEvent::WriteFailed { broken_pipe: true, detail: "pipe".to_string() });
    assert!(matches!(act, ActorAction::Connect));
    assert!(a.inflight.is_some());
    assert!(a.resent);

    // the resend
    assert!(matches!(a.step(ActorEvent::ConnectOk), ActorAction::WriteRequest));

    // a second consecutive broken pipe is fatal for the call, no loop
    let act = a.step(ActorEvent::WriteFailed { broken_pipe: true, detail: "pipe".to_string() });
    match act {
        ActorAction::Respond(Err(ConnectionError::SendError(SendError::IoError(d)))) => {
            assert_eq!(d, "pipe");
        }
        other => panic!("expected a fatal error, got {:?}", other),
    }
    assert!(a.inflight.is_none());
    assert!(!a.closed);
}

#[test]
fn other_write_failures_are_fatal_without_retry() {
    let mut a = ActorState::new();
    a.step(ActorEvent::RequestArrived(request("/r")));
    a.step(ActorEvent::ConnectOk);
    let act = a.step(ActorEvent::WriteFailed { broken_pipe: false, detail: "reset".to_string() });
    assert!(matches!(
        act,
        ActorAction::Respond(Err(ConnectionError::SendError(SendError::IoError(_))))
    ));
    assert!(a.inflight.is_none());
}

#[test]
fn connect_failure_surfaces_and_actor_stays_usable() {
    let mut a = ActorState::new();
    a.step(ActorEvent::RequestArrived(request("/r")));
    let act = a.step(ActorEvent::ConnectFailed(ConnectionError::ConnectionTimeout(5000)));
    assert!(matches!(
        act,
        ActorAction::Respond(Err(ConnectionError::ConnectionTimeout(5000)))
    ));
    assert!(a.inflight.is_none());
    assert!(!a.closed);
    // the next request triggers a fresh connection attempt
    assert!(matches!(
        a.step(ActorEvent::RequestArrived(request("/s"))),
        ActorAction::Connect
    ));
}

#[test]
fn read_timeout_is_fatal_for_the_call_without_retry() {
    let mut a = ActorState::new();
    a.step(ActorEvent::RequestArrived(request("/r")));
    a.step(ActorEvent::ConnectOk);
    a.step(ActorEvent::WriteOk);
    let act = a.step(ActorEvent::ReadTimeout);
    assert!(matches!(
        act,
        ActorAction::Respond(Err(ConnectionError::SendError(SendError::RequestTimeout(5000))))
    ));
    assert!(a.inflight.is_none());
}

#[test]
fn shutdown_closes_and_queued_requests_get_the_closed_error() {
    let mut a = ActorState::new();
    a.step(ActorEvent::RequestArrived(request("/r")));
    a.step(ActorEvent::ConnectOk);

    // the signal fires mid-flight: the request is abandoned with the closed
    // error and the stream is never reopened
    let act = a.step(ActorEvent::Shutdown);
    assert!(matches!(
        act,
        ActorAction::Respond(Err(ConnectionError::SendError(SendError::Closed)))
    ));
    assert!(a.closed);
    assert!(!a.connected);

    // a request still queued when the signal fired
    let act = a.step(ActorEvent::RequestArrived(request("/late")));
    assert!(matches!(
        act,
        ActorAction::Respond(Err(ConnectionError::SendError(SendError::Closed)))
    ));
    // and nothing ever asks for a new connection again
    assert!(matches!(a.step(ActorEvent::ConnectOk), ActorAction::Idle));
    assert!(matches!(a.step(ActorEvent::Shutdown), ActorAction::Idle));
    assert!(a.closed);
}

#[test]
fn shutdown_when_idle_just_closes_the_stream() {
    let mut a = ActorState::new();
    let act = a.step(ActorEvent::Shutdown);
    assert!(matches!(act, ActorAction::CloseStream));
    assert!(a.closed);
}
