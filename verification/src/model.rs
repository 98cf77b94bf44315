//! The wire message model: headers with first-writer-wins insertion, the nine
//! request methods, requests with their builder, and responses.

use vstd::prelude::*;
use vstd::string::*;
use crate::strutil::eq_ci;

verus! {

/// One header: a (name, value) pair.
#[derive(Debug)]
pub struct Header(pub String, pub String);

impl Clone for Header {
    fn clone(&self) -> (r: Self)
        ensures
            r@ == self@,
    {
        Header(self.0.clone(), self.1.clone())
    }
}

impl View for Header {
    type V = (Seq<char>, Seq<char>);

    open spec fn view(&self) -> (Seq<char>, Seq<char>) {
        (self.0@, self.1@)
    }
}

/// Attempted to insert a header whose name is already present.
#[derive(Debug, Clone)]
pub struct HeaderInsertError(pub Header);

/// Index of the first header in `hs` whose name equals `name` up to ASCII
/// case.
pub open spec fn find_name(hs: Seq<(Seq<char>, Seq<char>)>, name: Seq<char>) -> Option<int>
    decreases hs.len(),
{
    if hs.len() == 0 {
        None
    } else if eq_ci(hs[0].0, name) {
        Some(0)
    } else {
        match find_name(hs.drop_first(), name) {
            Some(i) => Some(i + 1),
            None => None,
        }
    }
}

pub open spec fn contains_name(hs: Seq<(Seq<char>, Seq<char>)>, name: Seq<char>) -> bool {
    find_name(hs, name) is Some
}

/// `find_name` returns the least index whose name matches.
pub proof fn lemma_find_name(hs: Seq<(Seq<char>, Seq<char>)>, name: Seq<char>)
    ensures
        match find_name(hs, name) {
            Some(i) => 0 <= i < hs.len() && eq_ci(hs[i].0, name) && (forall|j: int|
                0 <= j < i ==> !eq_ci(hs[j].0, name)),
            None => forall|j: int| 0 <= j < hs.len() ==> !eq_ci(hs[j].0, name),
        },
    decreases hs.len(),
{
    if hs.len() == 0 {
    } else if eq_ci(hs[0].0, name) {
    } else {
        lemma_find_name(hs.drop_first(), name);
        assert(forall|j: int| 0 < j < hs.len() ==> hs.drop_first()[j - 1] == hs[j]);
    }
}

/// If index `i` matches and no earlier one does, the lookup finds `i`.
pub proof fn lemma_find_name_at(hs: Seq<(Seq<char>, Seq<char>)>, name: Seq<char>, i: int)
    requires
        0 <= i < hs.len(),
        eq_ci(hs[i].0, name),
        forall|j: int| 0 <= j < i ==> !eq_ci(hs[j].0, name),
    ensures
        find_name(hs, name) == Some(i),
{
    lemma_find_name(hs, name);
    match find_name(hs, name) {
        Some(k) => {
            if k < i {
                assert(!eq_ci(hs[k].0, name));
            } else if i < k {
                assert(!eq_ci(hs[i].0, name));
            }
        },
        None => {
            assert(!eq_ci(hs[i].0, name));
        },
    }
}

/// An ordered header set; insertion order is preserved, lookup is
/// case-insensitive on names, and a name is inserted at most once.
#[derive(Debug)]
pub struct Headers(pub Vec<Header>);

impl Clone for Headers {
    fn clone(&self) -> (r: Self)
        ensures
            r@ == self@,
    {
        let n = self.0.len();
        let mut v: Vec<Header> = Vec::new();
        let mut i: usize = 0;
        while i < n
            invariant
                n == self.0.len(),
                i <= n,
                v@.len() == i,
                forall|j: int| 0 <= j < i ==> v@[j]@ == self@[j],
            decreases n - i,
        {
            v.push(self.0[i].clone());
            i = i + 1;
        }
        let r = Headers(v);
        proof {
            assert(r@ =~= self@);
        }
        r
    }
}

impl View for Headers {
    type V = Seq<(Seq<char>, Seq<char>)>;

    open spec fn view(&self) -> Seq<(Seq<char>, Seq<char>)> {
        self.0@.map_values(|h: Header| h@)
    }
}

impl Headers {
    pub fn new() -> (r: Headers)
        ensures
            r@ =~= Seq::<(Seq<char>, Seq<char>)>::empty(),
    {
        Headers(Vec::new())
    }

    /// Value of the first header named `key`, comparing names without regard
    /// to ASCII case.
    pub fn get(&self, key: &str) -> (r: Option<String>)
        ensures
            match find_name(self@, key@) {
                Some(i) => r is Some && r->Some_0@ == self@[i].1,
                None => r is None,
            },
    {
        let n = self.0.len();
        let mut i: usize = 0;
        while i < n
            invariant
                n == self.0.len(),
                i <= n,
                self@.len() == n,
                forall|j: int| 0 <= j < i ==> !eq_ci(self@[j].0, key@),
            decreases n - i,
        {
            let h = &self.0[i];
            if crate::strutil::str_eq_ci(h.0.as_str(), key) {
                proof {
                    lemma_find_name_at(self@, key@, i as int);
                }
                return Some(h.1.clone());
            }
            i = i + 1;
        }
        proof {
            lemma_find_name(self@, key@);
        }
        None
    }

    /// Whether some header is named `key`, up to ASCII case.
    pub fn contains_key(&self, key: &str) -> (r: bool)
        ensures
            r == contains_name(self@, key@),
    {
        let v = self.get(key);
        proof {
            lemma_find_name(self@, key@);
        }
        v.is_some()
    }

    /// Insert a header. A name already present is rejected and the set is
    /// left unchanged: the first writer wins.
    pub fn insert(&mut self, h: Header) -> (r: Result<(), HeaderInsertError>)
        ensures
            match r {
                Ok(()) => !contains_name(old(self)@, h@.0) && final(self)@ == old(self)@.push(h@),
                Err(e) => contains_name(old(self)@, h@.0) && final(self)@ == old(self)@ && e.0@
                    == h@,
            },
    {
        if self.contains_key(h.0.as_str()) {
            Err(HeaderInsertError(h))
        } else {
            self.0.push(h);
            proof {
                assert(final(self)@ =~= old(self)@.push(h@));
            }
            Ok(())
        }
    }

    /// Number of headers in the set.
    pub fn len(&self) -> (r: usize)
        ensures
            r == self@.len(),
    {
        self.0.len()
    }
}

/// The nine request methods of the protocol.
#[derive(Debug, Clone, Copy, PartialEq, Eq, Structural)]
pub enum Method {
    OPTIONS,
    GET,
    POST,
    PUT,
    DELETE,
    HEAD,
    TRACE,
    CONNECT,
    PATCH,
}

/// The token each method puts on the request line.
pub open spec fn method_text(m: Method) -> Seq<char> {
    match m {
        Method::OPTIONS => "OPTIONS"@,
        Method::GET => "GET"@,
        Method::POST => "POST"@,
        Method::PUT => "PUT"@,
        Method::DELETE => "DELETE"@,
        Method::HEAD => "HEAD"@,
        Method::TRACE => "TRACE"@,
        Method::CONNECT => "CONNECT"@,
        Method::PATCH => "PATCH"@,
    }
}

impl Method {
    pub fn as_str(&self) -> (r: &'static str)
        ensures
            r@ == method_text(*self),
    {
        match self {
            Method::OPTIONS => "OPTIONS",
            Method::GET => "GET",
            Method::POST => "POST",
            Method::PUT => "PUT",
            Method::DELETE => "DELETE",
            Method::HEAD => "HEAD",
            Method::TRACE => "TRACE",
            Method::CONNECT => "CONNECT",
            Method::PATCH => "PATCH",
        }
    }
}

/// A response status: numeric code and reason phrase.
#[derive(Debug)]
pub struct StatusCode {
    pub code: u16,
    pub text: String,
}

impl Clone for StatusCode {
    fn clone(&self) -> (r: Self)
        ensures
            r.code == self.code,
            r.text@ == self.text@,
    {
        StatusCode { code: self.code, text: self.text.clone() }
    }
}

/// A response whose status code signals failure, kept for the caller.
#[derive(Debug, Clone)]
pub struct StatusError {
    pub status: StatusCode,
}

/// An outbound request. The body, when present, is the serialized JSON text;
/// serialization computes `Content-Length` from it, so callers never set that
/// header themselves.
#[derive(Debug)]
pub struct Request {
    pub method: Option<Method>,
    pub uri: Option<String>,
    pub headers: Headers,
    pub body: Option<String>,
    pub timeout_ms: u64,
}

/// Ghost image of a request.
pub struct RequestGhost {
    pub method: Option<Method>,
    pub uri: Option<Seq<char>>,
    pub headers: Seq<(Seq<char>, Seq<char>)>,
    pub body: Option<Seq<char>>,
    pub timeout_ms: u64,
}

impl View for Request {
    type V = RequestGhost;

    open spec fn view(&self) -> RequestGhost {
        RequestGhost {
            method: self.method,
            uri: match self.uri {
                Some(ref u) => Some(u@),
                None => None,
            },
            headers: self.headers@,
            body: match self.body {
                Some(ref b) => Some(b@),
                None => None,
            },
            timeout_ms: self.timeout_ms,
        }
    }
}

/// The default header set every request starts from.
pub open spec fn default_header_seq() -> Seq<(Seq<char>, Seq<char>)> {
    seq![
        ("User-Agent"@, "Rusty Rivens v0.0.1"@),
        ("Connection"@, "keep-alive"@),
        ("Accept"@, "application/json"@),
        ("Content-Type"@, "application/json"@),
        ("Accept-Language"@, "en"@),
    ]
}

/// The default timeout on a request, in milliseconds.
pub open spec fn default_timeout_ms() -> u64 {
    5000
}

fn make_header(name: &str, value: &str) -> (r: Header)
    ensures
        r@ == (name@, value@),
{
    Header(String::from_str(name), String::from_str(value))
}

impl Default for Request {
    /// A request with no method, no URI, no body, the default header set and
    /// the default timeout.
    fn default() -> (r: Request)
        ensures
            r@.method is None,
            r@.uri is None,
            r@.body is None,
            r@.headers == default_header_seq(),
            r@.timeout_ms == default_timeout_ms(),
    {
        let mut hs: Vec<Header> = Vec::new();
        hs.push(make_header("User-Agent", "Rusty Rivens v0.0.1"));
        hs.push(make_header("Connection", "keep-alive"));
        hs.push(make_header("Accept", "application/json"));
        hs.push(make_header("Content-Type", "application/json"));
        hs.push(make_header("Accept-Language", "en"));
        let r = Request {
            method: None,
            uri: None,
            headers: Headers(hs),
            body: None,
            timeout_ms: 5000,
        };
        proof {
            assert(r@.headers =~= default_header_seq());
        }
        r
    }
}

impl Clone for Request {
    fn clone(&self) -> (r: Self)
        ensures
            r@ == self@,
    {
        let uri = match &self.uri {
            Some(u) => Some(u.clone()),
            None => None,
        };
        let body = match &self.body {
            Some(b) => Some(b.clone()),
            None => None,
        };
        Request {
            method: self.method,
            uri,
            headers: self.headers.clone(),
            body,
            timeout_ms: self.timeout_ms,
        }
    }
}

impl Request {
    /// The header set of the request.
    pub fn headers(&self) -> (r: &Headers)
        ensures
            r@ == self@.headers,
    {
        &self.headers
    }

    /// The timeout of the request, in milliseconds.
    pub fn timeout_ms(&self) -> (r: u64)
        ensures
            r == self@.timeout_ms,
    {
        self.timeout_ms
    }
}

/// An inbound response.
#[derive(Debug)]
pub struct Response {
    pub status: StatusCode,
    pub headers: Headers,
    pub body: Option<String>,
}

/// Ghost image of a response.
pub struct ResponseGhost {
    pub code: u16,
    pub text: Seq<char>,
    pub headers: Seq<(Seq<char>, Seq<char>)>,
    pub body: Option<Seq<char>>,
}

impl View for Response {
    type V = ResponseGhost;

    open spec fn view(&self) -> ResponseGhost {
        ResponseGhost {
            code: self.status.code,
            text: self.status.text@,
            headers: self.headers@,
            body: match self.body {
                Some(ref b) => Some(b@),
                None => None,
            },
        }
    }
}

impl Clone for Response {
    fn clone(&self) -> (r: Self)
        ensures
            r@ == self@,
    {
        let body = match &self.body {
            Some(b) => Some(b.clone()),
            None => None,
        };
        Response { status: self.status.clone(), headers: self.headers.clone(), body }
    }
}

impl Response {
    pub fn status(&self) -> (r: StatusCode)
        ensures
            r.code == self@.code,
            r.text@ == self@.text,
    {
        self.status.clone()
    }

    pub fn body(&self) -> (r: Option<String>)
        ensures
            match r {
                Some(b) => self@.body == Some(b@),
                None => self@.body is None,
            },
    {
        match &self.body {
            Some(b) => Some(b.clone()),
            None => None,
        }
    }

    pub fn headers(&self) -> (r: Headers)
        ensures
            r@ == self@.headers,
    {
        self.headers.clone()
    }
}

/// Accumulates the parts of a request; `build` checks nothing and building is
/// pure, while serialization reports what is missing.
#[derive(Debug)]
pub struct RequestBuilder {
    pub inner: Request,
}

impl RequestBuilder {
    /// A builder holding the default request.
    pub fn new() -> (r: RequestBuilder)
        ensures
            r.inner@.method is None,
            r.inner@.uri is None,
            r.inner@.body is None,
            r.inner@.headers == default_header_seq(),
            r.inner@.timeout_ms == default_timeout_ms(),
    {
        RequestBuilder { inner: Request::default() }
    }

    pub fn method(self, method: Method) -> (r: RequestBuilder)
        ensures
            r.inner@.method == Some(method),
            r.inner@.uri == self.inner@.uri,
            r.inner@.headers == self.inner@.headers,
            r.inner@.body == self.inner@.body,
            r.inner@.timeout_ms == self.inner@.timeout_ms,
    {
        let mut inner = self.inner;
        inner.method = Some(method);
        RequestBuilder { inner }
    }

    pub fn get_method(&self) -> (r: Option<Method>)
        ensures
            r == self.inner@.method,
    {
        self.inner.method
    }

    pub fn uri(self, uri: &str) -> (r: RequestBuilder)
        ensures
            r.inner@.uri == Some(uri@),
            r.inner@.method == self.inner@.method,
            r.inner@.headers == self.inner@.headers,
            r.inner@.body == self.inner@.body,
            r.inner@.timeout_ms == self.inner@.timeout_ms,
    {
        let mut inner = self.inner;
        inner.uri = Some(String::from_str(uri));
        RequestBuilder { inner }
    }

    /// Insert one header; a name already present is rejected and the builder
    /// is returned unchanged inside the error.
    pub fn header(self, header: Header) -> (r: Result<RequestBuilder, HeaderInsertError>)
        ensures
            match r {
                Ok(b) => !contains_name(self.inner@.headers, header@.0) && b.inner@.headers
                    == self.inner@.headers.push(header@) && b.inner@.method == self.inner@.method
                    && b.inner@.uri == self.inner@.uri && b.inner@.body == self.inner@.body
                    && b.inner@.timeout_ms == self.inner@.timeout_ms,
                Err(e) => contains_name(self.inner@.headers, header@.0) && e.0@ == header@,
            },
    {
        let mut inner = self.inner;
        match inner.headers.insert(header) {
            Ok(()) => Ok(RequestBuilder { inner }),
            Err(e) => Err(e),
        }
    }

    /// Insert many headers; each one whose name is already present is
    /// skipped, so the first writer always wins.
    pub fn headers(self, headers: Vec<Header>) -> (r: RequestBuilder)
        ensures
            r.inner@.headers == insert_all(self.inner@.headers, headers@.map_values(
                |h: Header| h@,
            )),
            r.inner@.method == self.inner@.method,
            r.inner@.uri == self.inner@.uri,
            r.inner@.body == self.inner@.body,
            r.inner@.timeout_ms == self.inner@.timeout_ms,
    {
        let mut inner = self.inner;
        let ghost all = headers@.map_values(|h: Header| h@);
        let mut hs = headers;
        let n = hs.len();
        let mut i: usize = 0;
        while i < n
            invariant
                n == hs.len(),
                i <= n,
                all == hs@.map_values(|h: Header| h@),
                inner.headers@ == insert_all(self.inner@.headers, all.take(i as int)),
                inner.method == self.inner.method,
                inner.uri == self.inner.uri,
                inner.body == self.inner.body,
                inner.timeout_ms == self.inner.timeout_ms,
            decreases n - i,
        {
            let h = hs[i].clone();
            proof {
                assert(h@ == all[i as int]);
                lemma_insert_all_step(self.inner@.headers, all, i as int);
            }
            let _ = inner.headers.insert(h);
            i = i + 1;
        }
        proof {
            assert(all.take(n as int) =~= all);
        }
        RequestBuilder { inner }
    }

    /// Set the body: the serialized JSON text the request is to carry.
    pub fn body(self, body: String) -> (r: RequestBuilder)
        ensures
            r.inner@.body == Some(body@),
            r.inner@.method == self.inner@.method,
            r.inner@.uri == self.inner@.uri,
            r.inner@.headers == self.inner@.headers,
            r.inner@.timeout_ms == self.inner@.timeout_ms,
    {
        let mut inner = self.inner;
        inner.body = Some(body);
        RequestBuilder { inner }
    }

    /// Set the per-request timeout, in milliseconds.
    pub fn timeout(self, timeout_ms: u64) -> (r: RequestBuilder)
        ensures
            r.inner@.timeout_ms == timeout_ms,
            r.inner@.method == self.inner@.method,
            r.inner@.uri == self.inner@.uri,
            r.inner@.headers == self.inner@.headers,
            r.inner@.body == self.inner@.body,
    {
        let mut inner = self.inner;
        inner.timeout_ms = timeout_ms;
        RequestBuilder { inner }
    }

    pub fn build(self) -> (r: Request)
        ensures
            r == self.inner,
    {
        self.inner
    }
}

impl Request {
    /// Reopen a finished request as a builder.
    pub fn into_builder(self) -> (r: RequestBuilder)
        ensures
            r.inner == self,
    {
        RequestBuilder { inner: self }
    }
}

/// The header set after inserting each of `new` in order, skipping names
/// already present.
pub open spec fn insert_all(
    hs: Seq<(Seq<char>, Seq<char>)>,
    new: Seq<(Seq<char>, Seq<char>)>,
) -> Seq<(Seq<char>, Seq<char>)>
    decreases new.len(),
{
    if new.len() == 0 {
        hs
    } else {
        let first = new[0];
        let hs1 = if contains_name(hs, first.0) {
            hs
        } else {
            hs.push(first)
        };
        insert_all(hs1, new.drop_first())
    }
}

proof fn lemma_insert_all_step(
    hs: Seq<(Seq<char>, Seq<char>)>,
    new: Seq<(Seq<char>, Seq<char>)>,
    i: int,
)
    requires
        0 <= i < new.len(),
    ensures
        insert_all(hs, new.take(i + 1)) == ({
            let cur = insert_all(hs, new.take(i));
            if contains_name(cur, new[i].0) {
                cur
            } else {
                cur.push(new[i])
            }
        }),
    decreases i,
{
    lemma_insert_all_snoc(hs, new.take(i + 1));
    assert(new.take(i + 1).drop_last() =~= new.take(i));
    assert(new.take(i + 1).last() == new[i]);
}

/// Inserting a batch that ends in `x` is inserting the front batch, then `x`.
proof fn lemma_insert_all_snoc(hs: Seq<(Seq<char>, Seq<char>)>, new: Seq<(Seq<char>, Seq<char>)>)
    requires
        new.len() > 0,
    ensures
        insert_all(hs, new) == ({
            let cur = insert_all(hs, new.drop_last());
            if contains_name(cur, new.last().0) {
                cur
            } else {
                cur.push(new.last())
            }
        }),
    decreases new.len(),
{
    if new.len() == 1 {
        let first = new[0];
        let hs1 = if contains_name(hs, first.0) {
            hs
        } else {
            hs.push(first)
        };
        assert(new.drop_first() =~= Seq::<(Seq<char>, Seq<char>)>::empty());
        assert(new.drop_last() =~= Seq::<(Seq<char>, Seq<char>)>::empty());
        assert(insert_all(hs1, new.drop_first()) == hs1);
        assert(insert_all(hs, new) == hs1);
        assert(insert_all(hs, new.drop_last()) == hs);
        assert(new.last() == new[0]);
    } else {
        let first = new[0];
        let hs1 = if contains_name(hs, first.0) {
            hs
        } else {
            hs.push(first)
        };
        assert(insert_all(hs, new) == insert_all(hs1, new.drop_first()));
        lemma_insert_all_snoc(hs1, new.drop_first());
        assert(new.drop_last().len() > 0);
        assert(new.drop_last()[0] == first);
        assert(insert_all(hs, new.drop_last()) == insert_all(hs1, new.drop_last().drop_first()));
        assert(new.drop_first().drop_last() =~= new.drop_last().drop_first());
        assert(new.drop_first().drop_last() == new.drop_last().drop_first());
        assert(new.drop_first().last() == new.last());
        assert(insert_all(hs1, new.drop_first()) == ({
            let cur = insert_all(hs, new.drop_last());
            if contains_name(cur, new.last().0) {
                cur
            } else {
                cur.push(new.last())
            }
        }));
    }
}

} // verus!
