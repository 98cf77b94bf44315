//! The connection actor's decision logic. One actor owns one endpoint's
//! stream; its driver performs the connecting, writing and reading, and hands
//! every outcome back as an event. Each event is answered with the single
//! next action, so every recovery rule — reconnect once on a broken pipe,
//! surface anything else, serve one request at a time, stop on shutdown —
//! is decided and proved here.

use vstd::prelude::*;
use vstd::string::*;
use crate::codec::host_of;
use crate::error::{ConnectionError, SendError};
use crate::model::{Request, Response};
use crate::strutil::{find_sub_str, starts_with_str};

verus! {

/// The identity of one remote endpoint: host, port and connect timeout, each
/// set by its builder call.
#[derive(Debug, Clone)]
pub struct Endpoint {
    pub host: Option<String>,
    pub port: Option<u16>,
    pub timeout_ms: Option<u64>,
}

impl Endpoint {
    /// An endpoint with nothing set yet.
    pub fn new() -> (r: Endpoint)
        ensures
            r.host is None,
            r.port is None,
            r.timeout_ms is None,
    {
        Endpoint { host: None, port: None, timeout_ms: None }
    }

    /// Set the host from an `https` URI; any other scheme is refused.
    pub fn addr(self, uri: &str) -> (r: Result<Endpoint, ConnectionError>)
        ensures
            match r {
                Ok(e) => crate::codec::uri_is_https(uri@) && e.host is Some && e.host->0@
                    == host_of(uri@) && e.port == self.port && e.timeout_ms == self.timeout_ms,
                Err(err) => !crate::codec::uri_is_https(uri@) && (err matches
                    ConnectionError::HttpNotSupported(u) && u@ == uri@),
            },
    {
        let scheme = "https://";
        if !starts_with_str(uri, scheme) {
            return Err(ConnectionError::HttpNotSupported(String::from_str(uri)));
        }
        let rest = uri.substring_char(scheme.unicode_len(), uri.unicode_len());
        let host: &str = match find_sub_str(rest, "/") {
            Some(i) => {
                proof {
                    crate::strutil::lemma_find_sub(rest@, "/"@);
                }
                rest.substring_char(0, i)
            },
            None => rest,
        };
        Ok(Endpoint { host: Some(String::from_str(host)), port: self.port, timeout_ms: self.timeout_ms })
    }

    /// Set the port.
    pub fn port(self, port: u16) -> (r: Endpoint)
        ensures
            r.port == Some(port),
            r.host == self.host,
            r.timeout_ms == self.timeout_ms,
    {
        Endpoint { host: self.host, port: Some(port), timeout_ms: self.timeout_ms }
    }

    /// Set the connect timeout, in milliseconds.
    pub fn timeout(self, timeout_ms: u64) -> (r: Endpoint)
        ensures
            r.timeout_ms == Some(timeout_ms),
            r.host == self.host,
            r.port == self.port,
    {
        Endpoint { host: self.host, port: self.port, timeout_ms: Some(timeout_ms) }
    }
}

/// What the driver observed and hands to the actor.
#[derive(Debug)]
pub enum ActorEvent {
    /// A caller's request left the single-slot queue.
    RequestArrived(Request),
    /// The TCP connect and TLS handshake finished.
    ConnectOk,
    /// The connect or handshake failed.
    ConnectFailed(ConnectionError),
    /// The serialized request was written in full.
    WriteOk,
    /// The write failed; `broken_pipe` says the stream was found closed.
    WriteFailed { broken_pipe: bool, detail: String },
    /// A full response was read and parsed.
    ResponseReady(Response),
    /// The read failed.
    ReadFailed(String),
    /// The read did not finish within the request's timeout.
    ReadTimeout,
    /// The broadcast shutdown signal fired.
    Shutdown,
}

/// The single next thing the driver is to do.
#[derive(Debug)]
pub enum ActorAction {
    /// Open TCP and run the TLS handshake to the endpoint.
    Connect,
    /// Serialize and write the in-flight request.
    WriteRequest,
    /// Read and parse one full response, under the request's timeout.
    ReadResponse,
    /// Hand this outcome to the in-flight request's caller.
    Respond(Result<Response, ConnectionError>),
    /// Close the stream and exit the serve loop.
    CloseStream,
    /// Nothing to do; wait for the next event.
    Idle,
}

/// The actor's state between events.
#[derive(Debug)]
pub struct ActorState {
    /// A live stream is held.
    pub connected: bool,
    /// The shutdown signal was observed; no connection is ever opened again.
    pub closed: bool,
    /// The one request being served, if any.
    pub inflight: Option<Request>,
    /// The in-flight request was already resent once after a broken pipe.
    pub resent: bool,
}

impl ActorState {
    /// Between events: a closed actor holds nothing, and only an in-flight
    /// request can have been resent.
    pub open spec fn wf(&self) -> bool {
        (self.closed ==> self.inflight is None && !self.connected) && (self.resent
            ==> self.inflight is Some)
    }

    /// A fresh actor: not connected, not closed, serving nothing.
    pub fn new() -> (r: ActorState)
        ensures
            r.wf(),
            !r.connected,
            !r.closed,
            r.inflight is None,
            !r.resent,
    {
        ActorState { connected: false, closed: false, inflight: None, resent: false }
    }
}

/// An error ending one call: a send failure wrapped for the caller.
pub open spec fn call_error(e: SendError) -> Result<Response, ConnectionError> {
    Err(ConnectionError::SendError(e))
}

/// The transition relation of the actor: from a state and an event to the
/// next state and the one action the driver performs.
pub open spec fn spec_step(s: ActorState, e: ActorEvent) -> (ActorState, ActorAction) {
    if s.closed {
        match e {
            ActorEvent::RequestArrived(_) => (s, ActorAction::Respond(call_error(SendError::Closed))),
            _ => (s, ActorAction::Idle),
        }
    } else {
        match e {
            ActorEvent::Shutdown => (
                ActorState { connected: false, closed: true, inflight: None, resent: false },
                match s.inflight {
                    Some(_) => ActorAction::Respond(call_error(SendError::Closed)),
                    None => ActorAction::CloseStream,
                },
            ),
            ActorEvent::RequestArrived(r) => (
                ActorState { inflight: Some(r), resent: false, ..s },
                if s.connected {
                    ActorAction::WriteRequest
                } else {
                    ActorAction::Connect
                },
            ),
            ActorEvent::ConnectOk => (
                ActorState { connected: true, ..s },
                match s.inflight {
                    Some(_) => ActorAction::WriteRequest,
                    None => ActorAction::Idle,
                },
            ),
            ActorEvent::ConnectFailed(err) => (
                ActorState { connected: false, inflight: None, resent: false, ..s },
                match s.inflight {
                    Some(_) => ActorAction::Respond(Err(err)),
                    None => ActorAction::Idle,
                },
            ),
            ActorEvent::WriteOk => (
                s,
                match s.inflight {
                    Some(_) => ActorAction::ReadResponse,
                    None => ActorAction::Idle,
                },
            ),
            ActorEvent::WriteFailed { broken_pipe, detail } => match s.inflight {
                None => (s, ActorAction::Idle),
                Some(_) => if broken_pipe && !s.resent {
                    (ActorState { connected: false, resent: true, ..s }, ActorAction::Connect)
                } else {
                    (
                        ActorState { inflight: None, resent: false, ..s },
                        ActorAction::Respond(call_error(SendError::IoError(detail))),
                    )
                },
            },
            ActorEvent::ResponseReady(resp) => match s.inflight {
                None => (s, ActorAction::Idle),
                Some(_) => (
                    ActorState { inflight: None, resent: false, ..s },
                    ActorAction::Respond(Ok(resp)),
                ),
            },
            ActorEvent::ReadFailed(detail) => match s.inflight {
                None => (s, ActorAction::Idle),
                Some(_) => (
                    ActorState { inflight: None, resent: false, ..s },
                    ActorAction::Respond(call_error(SendError::IoError(detail))),
                ),
            },
            ActorEvent::ReadTimeout => match s.inflight {
                None => (s, ActorAction::Idle),
                Some(r) => (
                    ActorState { inflight: None, resent: false, ..s },
                    ActorAction::Respond(call_error(SendError::RequestTimeout(r.timeout_ms))),
                ),
            },
        }
    }
}

impl ActorState {
    /// Apply one event: the exec form of `spec_step`.
    pub fn step(&mut self, event: ActorEvent) -> (a: ActorAction)
        requires
            old(self).wf(),
        ensures
            final(self).wf(),
            (*final(self), a) == spec_step(*old(self), event),
    {
        let ghost ev = event;
        if self.closed {
            match event {
                ActorEvent::RequestArrived(_) => ActorAction::Respond(
                    Err(ConnectionError::SendError(SendError::Closed)),
                ),
                _ => ActorAction::Idle,
            }
        } else {
            match event {
                ActorEvent::Shutdown => {
                    let had_inflight = self.inflight.is_some();
                    self.connected = false;
                    self.closed = true;
                    self.inflight = None;
                    self.resent = false;
                    if had_inflight {
                        ActorAction::Respond(Err(ConnectionError::SendError(SendError::Closed)))
                    } else {
                        ActorAction::CloseStream
                    }
                },
                ActorEvent::RequestArrived(r) => {
                    self.inflight = Some(r);
                    self.resent = false;
                    if self.connected {
                        ActorAction::WriteRequest
                    } else {
                        ActorAction::Connect
                    }
                },
                ActorEvent::ConnectOk => {
                    self.connected = true;
                    if self.inflight.is_some() {
                        ActorAction::WriteRequest
                    } else {
                        ActorAction::Idle
                    }
                },
                ActorEvent::ConnectFailed(err) => {
                    let had_inflight = self.inflight.is_some();
                    self.connected = false;
                    self.inflight = None;
                    self.resent = false;
                    if had_inflight {
                        ActorAction::Respond(Err(err))
                    } else {
                        ActorAction::Idle
                    }
                },
                ActorEvent::WriteOk => {
                    if self.inflight.is_some() {
                        ActorAction::ReadResponse
                    } else {
                        ActorAction::Idle
                    }
                },
                ActorEvent::WriteFailed { broken_pipe, detail } => {
                    if self.inflight.is_none() {
                        ActorAction::Idle
                    } else if broken_pipe && !self.resent {
                        self.connected = false;
                        self.resent = true;
                        ActorAction::Connect
                    } else {
                        self.inflight = None;
                        self.resent = false;
                        ActorAction::Respond(
                            Err(ConnectionError::SendError(SendError::IoError(detail))),
                        )
                    }
                },
                ActorEvent::ResponseReady(resp) => {
                    if self.inflight.is_some() {
                        self.inflight = None;
                        self.resent = false;
                        ActorAction::Respond(Ok(resp))
                    } else {
                        ActorAction::Idle
                    }
                },
                ActorEvent::ReadFailed(detail) => {
                    if self.inflight.is_some() {
                        self.inflight = None;
                        self.resent = false;
                        ActorAction::Respond(
                            Err(ConnectionError::SendError(SendError::IoError(detail))),
                        )
                    } else {
                        ActorAction::Idle
                    }
                },
                ActorEvent::ReadTimeout => {
                    match &self.inflight {
                        Some(r) => {
                            let t = r.timeout_ms;
                            self.inflight = None;
                            self.resent = false;
                            ActorAction::Respond(
                                Err(ConnectionError::SendError(SendError::RequestTimeout(t))),
                            )
                        },
                        None => ActorAction::Idle,
                    }
                },
            }
        }
    }
}

/// Shutdown is final: the signal closes the actor, and a closed actor never
/// connects, never writes, and answers any queued request with the closed
/// error.
pub proof fn lemma_shutdown_is_final(s: ActorState, e: ActorEvent)
    requires
        s.wf(),
    ensures
        !s.closed ==> spec_step(s, ActorEvent::Shutdown).0.closed,
        s.closed ==> spec_step(s, e).0.closed,
        s.closed ==> !(spec_step(s, e).1 is Connect),
        s.closed ==> !(spec_step(s, e).1 is WriteRequest),
        s.closed ==> ((e matches ActorEvent::RequestArrived(_)) ==> spec_step(s, e).1
            == ActorAction::Respond(call_error(SendError::Closed))),
{
}

/// A broken-pipe write failure is retried exactly once: the first one
/// reconnects and resends the same request; a second one on the resent
/// request surfaces as a fatal error to the caller, with no further attempt.
pub proof fn lemma_reconnect_once(s: ActorState, r: Request, d1: String, d2: String)
    requires
        s.wf(),
        !s.closed,
        s.inflight == Some(r),
        !s.resent,
    ensures
        ({
            let (s1, a1) = spec_step(s, ActorEvent::WriteFailed { broken_pipe: true, detail: d1 });
            &&& a1 is Connect
            &&& s1.inflight == Some(r)
            &&& s1.resent
            &&& {
                let (s2, a2) = spec_step(s1, ActorEvent::ConnectOk);
                &&& a2 is WriteRequest
                &&& s2.inflight == Some(r)
                &&& {
                    let (s3, a3) = spec_step(
                        s2,
                        ActorEvent::WriteFailed { broken_pipe: true, detail: d2 },
                    );
                    &&& a3 == ActorAction::Respond(call_error(SendError::IoError(d2)))
                    &&& s3.inflight is None
                }
            }
        }),
{
}

/// A write failure other than a broken pipe is fatal for the call at once:
/// no reconnect, no resend.
pub proof fn lemma_other_write_failure_fatal(s: ActorState, r: Request, d: String)
    requires
        s.wf(),
        !s.closed,
        s.inflight == Some(r),
    ensures
        ({
            let (s1, a1) = spec_step(s, ActorEvent::WriteFailed { broken_pipe: false, detail: d });
            &&& a1 == ActorAction::Respond(call_error(SendError::IoError(d)))
            &&& s1.inflight is None
            &&& !(a1 is Connect)
        }),
{
}

/// A read that does not finish within the request's timeout is answered
/// with the timeout error carrying that timeout — never with a truncated
/// success — and is not retried.
pub proof fn lemma_timeout_is_not_truncation(s: ActorState, r: Request)
    requires
        s.wf(),
        !s.closed,
        s.inflight == Some(r),
    ensures
        ({
            let (s1, a) = spec_step(s, ActorEvent::ReadTimeout);
            &&& a == ActorAction::Respond(call_error(SendError::RequestTimeout(r.timeout_ms)))
            &&& s1.inflight is None
            &&& !(a is Connect)
            &&& !(a is WriteRequest)
        }),
{
}

/// Requests are strictly serialized: a write is issued only for the request
/// in flight, an in-flight request is never replaced — it is either kept or
/// answered — and whenever it is cleared, its caller is answered in that very
/// step.
pub proof fn lemma_strict_serialization(s: ActorState, e: ActorEvent)
    requires
        s.wf(),
        e is RequestArrived ==> s.inflight is None,
    ensures
        ({
            let (s1, a) = spec_step(s, e);
            &&& (a is WriteRequest ==> s1.inflight is Some)
            &&& (s.inflight is Some ==> (s1.inflight == s.inflight || s1.inflight is None))
            &&& ((s.inflight is Some && s1.inflight is None) ==> a is Respond)
        }),
{
}

} // verus!
