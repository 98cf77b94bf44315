//! Verified core of an HTTP/1.1 client for a trading-marketplace assistant:
//! the wire message model, the protocol codec (request serialization and
//! response parsing with chunked or length-delimited bodies), a token-bucket
//! rate limiter, the per-endpoint connection actor's decision logic, and the
//! client facade's request/response handling.

pub mod actor;
pub mod auth_state;
pub mod client;
pub mod codec;
pub mod error;
pub mod laws;
pub mod model;
pub mod parser;
pub mod rate_limiter;
pub mod strutil;
