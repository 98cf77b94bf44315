//! The client facade's verified pieces: injecting the auth header, turning a
//! raw response into a structured JSON result, classifying status codes, and
//! reading the access token out of a login cookie. The facade's waiting and
//! dispatching is a driver around these.

use vstd::prelude::*;
use vstd::string::*;
use crate::error::AppError;
use crate::model::{
    contains_name, Header, HeaderInsertError, Headers, RequestBuilder, Response, StatusCode,
};
use crate::rate_limiter::MICRO;
use crate::strutil::find_sub;

verus! {

#[verifier::external_type_specification]
#[verifier::external_body]
pub struct ExValue(serde_json::Value);

/// Whether serde_json accepts this text as JSON; a function of the text
/// alone.
pub uninterp spec fn json_parse_ok(s: Seq<char>) -> bool;

/// Relies on serde_json::from_str::<Value>: it parses a text into a JSON
/// value exactly when the text is well-formed JSON, depending on the text
/// alone; the error is carried as its message.
#[verifier::external_body]
fn parse_json(s: &str) -> (r: Result<serde_json::Value, String>)
    ensures
        r is Ok <==> json_parse_ok(s@),
{
    match serde_json::from_str::<serde_json::Value>(s) {
        Ok(v) => Ok(v),
        Err(e) => Err(e.to_string()),
    }
}

/// What a call returns: the parsed JSON body (if there was a body), the
/// response headers, and the status.
#[derive(Debug)]
pub struct ApiResult {
    pub res: (Option<serde_json::Value>, Headers),
    pub status: StatusCode,
}

/// Add the `Authorization: JWT <token>` header when a credential is present.
/// An `Authorization` header already present is an error, never overwritten.
pub fn inject_auth(rq: RequestBuilder, token: Option<&str>) -> (r: Result<
    RequestBuilder,
    HeaderInsertError,
>)
    ensures
        match token {
            None => r is Ok && r->Ok_0.inner@ == rq.inner@,
            Some(t) => match r {
                Ok(b) => !contains_name(rq.inner@.headers, "Authorization"@)
                    && b.inner@.headers == rq.inner@.headers.push(
                    ("Authorization"@, "JWT "@ + t@),
                ) && b.inner@.method == rq.inner@.method && b.inner@.uri == rq.inner@.uri
                    && b.inner@.body == rq.inner@.body && b.inner@.timeout_ms
                    == rq.inner@.timeout_ms,
                Err(_) => contains_name(rq.inner@.headers, "Authorization"@),
            },
        },
{
    match token {
        None => Ok(rq),
        Some(t) => {
            let mut value = String::from_str("JWT ");
            value.append(t);
            rq.header(Header(String::from_str("Authorization"), value))
        },
    }
}

/// Only a 2xx status is success.
pub open spec fn spec_is_success(code: u16) -> bool {
    200 <= code < 300
}

/// Exec counterpart of `spec_is_success`.
pub fn is_success(code: u16) -> (r: bool)
    ensures
        r == spec_is_success(code),
{
    200 <= code && code < 300
}

/// Exactly a 429 status signals backpressure.
pub fn is_backpressure(code: u16) -> (r: bool)
    ensures
        r == (code == 429),
{
    code == 429
}

/// The delay to feed back into the limiter after a response: one second's
/// worth for a 429, nothing otherwise. The caller's next request is then
/// throttled; the response itself is returned normally.
pub fn backoff_delay(code: u16) -> (r: Option<u64>)
    ensures
        r == (if code == 429 {
            Some(MICRO)
        } else {
            None::<u64>
        }),
{
    if code == 429 {
        Some(MICRO)
    } else {
        None
    }
}

/// Turn a raw response into the structured result: a missing or empty body
/// stays `None`, a nonempty body must parse as JSON, and a body that does not
/// parse is an error distinct from any transport failure.
pub fn finish_response(resp: Response) -> (r: Result<ApiResult, AppError>)
    ensures
        match r {
            Ok(a) => a.status.code == resp@.code && a.status.text@ == resp@.text && a.res.1@
                == resp@.headers && (match resp@.body {
                Some(b) => if b.len() == 0 {
                    a.res.0 is None
                } else {
                    json_parse_ok(b) && a.res.0 is Some
                },
                None => a.res.0 is None,
            }),
            Err(_) => resp@.body is Some && resp@.body->Some_0.len() != 0 && !json_parse_ok(
                resp@.body->Some_0,
            ),
        },
{
    let status = resp.status();
    let headers = resp.headers();
    let body = resp.body();
    match body {
        None => Ok(ApiResult { res: (None, headers), status }),
        Some(content) => {
            if content.as_str().unicode_len() == 0 {
                return Ok(ApiResult { res: (None, headers), status });
            }
            match parse_json(content.as_str()) {
                Ok(v) => Ok(ApiResult { res: (Some(v), headers), status }),
                Err(msg) => Err(
                    AppError::new(msg, String::from_str("send_request: Value::from_str")),
                ),
            }
        },
    }
}

/// Why a login exchange yielded no credential.
#[derive(Debug, Clone, PartialEq, Eq)]
pub enum LoginError {
    /// The service answered with a status outside the 2xx range.
    NotSucceeded(u16),
    /// The response carried no usable `Set-Cookie` token.
    MissingCredential,
}

/// Decide a login exchange: only a 2xx status with a nonempty token in the
/// `Set-Cookie` header signs the account in; anything else is a value, never
/// a panic.
pub fn login_outcome(code: u16, set_cookie: Option<&str>) -> (r: Result<String, LoginError>)
    ensures
        match r {
            Ok(t) => spec_is_success(code) && set_cookie is Some && t@ == token_of_cookie(
                set_cookie->Some_0@,
            ) && t@.len() > 0,
            Err(e) => match e {
                LoginError::NotSucceeded(c) => c == code && !spec_is_success(code),
                LoginError::MissingCredential => spec_is_success(code) && (set_cookie is None
                    || token_of_cookie(set_cookie->Some_0@).len() == 0),
            },
        },
{
    if !is_success(code) {
        return Err(LoginError::NotSucceeded(code));
    }
    match set_cookie {
        None => Err(LoginError::MissingCredential),
        Some(cookie) => {
            let token = extract_cookie_token(cookie);
            if token.as_str().unicode_len() == 0 {
                Err(LoginError::MissingCredential)
            } else {
                Ok(token)
            }
        },
    }
}

/// The access token inside a `Set-Cookie` value: the text after the cookie
/// name's four-character prefix, up to the first `;`; anything shorter, or
/// without a `;`, yields the empty token.
pub open spec fn token_of_cookie(c: Seq<char>) -> Seq<char> {
    if c.len() < 4 {
        Seq::empty()
    } else {
        let rest = c.subrange(4, c.len() as int);
        match find_sub(rest, ";"@) {
            Some(i) => rest.subrange(0, i),
            None => Seq::empty(),
        }
    }
}

/// Exec counterpart of `token_of_cookie`. A missing credential is the empty
/// string, for the caller to reject; nothing here panics.
pub fn extract_cookie_token(cookie: &str) -> (r: String)
    ensures
        r@ == token_of_cookie(cookie@),
{
    let n = cookie.unicode_len();
    if n < 4 {
        return String::new();
    }
    let rest = cookie.substring_char(4, n);
    match crate::strutil::find_sub_str(rest, ";") {
        Some(i) => {
            proof {
                crate::strutil::lemma_find_sub(rest@, ";"@);
            }
            String::from_str(rest.substring_char(0, i))
        },
        None => String::new(),
    }
}

} // verus!
