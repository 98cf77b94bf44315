//! Error values of the client core. Every failure is a plain value carrying
//! the failing kind and, where useful, the offending fragment; call sites
//! accumulate a chain of location labels through `prop`.

use vstd::prelude::*;
use vstd::string::*;

verus! {

/// Failure of one send: construction, transport, framing or timeout.
#[derive(Debug, Clone, PartialEq, Eq)]
pub enum SendError {
    /// The request channel to the actor was never installed.
    SenderNone,
    /// The request channel to the actor closed early.
    SenderClosed,
    /// The request named no target URI.
    UriNone,
    /// The request named no method.
    MethodNone,
    /// The read of a response did not finish within this many milliseconds.
    RequestTimeout(u64),
    /// An I/O failure during write or read, described by the driver.
    IoError(String),
    /// The response could not be framed or parsed: context, then raw fragment.
    MalformedResponse(String, String),
    /// The target URI does not use the `https` scheme.
    HttpNotSupported(String),
    /// The response channel yielded nothing.
    Recv,
    /// The actor observed the shutdown signal; no further requests are served.
    Closed,
}

/// Failure to establish or keep a connection.
#[derive(Debug, Clone, PartialEq, Eq)]
pub enum ConnectionError {
    /// The TCP connect did not finish within this many milliseconds.
    ConnectionTimeout(u64),
    /// An I/O failure while connecting, described by the driver.
    IoError(String),
    /// A TLS handshake failure, described by the driver.
    TlsError(String),
    /// The endpoint URI does not use the `https` scheme.
    HttpNotSupported(String),
    /// The endpoint was built without a host.
    HostNone,
    /// The endpoint was built without a port.
    PortNone,
    /// The endpoint was built without a timeout.
    TimeoutNone,
    /// A send failed after the connection was up.
    SendError(SendError),
}

/// Top-level error of the facade: a message and a chain of call-site labels.
#[derive(Debug, Clone, PartialEq, Eq)]
pub struct AppError {
    pub location: String,
    pub err: String,
}

impl AppError {
    pub fn new(err: String, loc: String) -> (r: AppError)
        ensures
            r.err@ == err@,
            r.location@ == loc@,
    {
        AppError { location: loc, err }
    }

    /// Prefix one more call-site label onto the location chain.
    pub fn prop(&self, new_loc: String) -> (r: AppError)
        ensures
            r.err@ == self.err@,
            r.location@ == new_loc@ + "::"@ + self.location@,
    {
        let mut loc = new_loc;
        loc.append("::");
        loc.append(self.location.as_str());
        AppError { location: loc, err: self.err.clone() }
    }
}

/// Error of the domain clients: a message and a chain of call-site labels.
#[derive(Debug, Clone, PartialEq, Eq)]
pub struct GenericError {
    pub location: String,
    pub err: String,
}

impl GenericError {
    pub fn new(err: String, loc: String) -> (r: GenericError)
        ensures
            r.err@ == err@,
            r.location@ == loc@,
    {
        GenericError { location: loc, err }
    }

    /// Prefix one more call-site label onto the location chain.
    pub fn prop(&self, new_loc: String) -> (r: GenericError)
        ensures
            r.err@ == self.err@,
            r.location@ == new_loc@ + self.location@,
    {
        let mut loc = new_loc;
        loc.append(self.location.as_str());
        GenericError { location: loc, err: self.err.clone() }
    }
}

} // verus!
