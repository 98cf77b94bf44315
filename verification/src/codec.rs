//! The protocol codec: serializing a request onto the wire and parsing a
//! response head. Both directions are pure functions with exact contracts.

use vstd::prelude::*;
use vstd::string::*;
use vstd::utf8::encode_utf8;
use crate::error::SendError;
use crate::model::{
    method_text, Header, Headers, Request, RequestGhost, Response, ResponseGhost, StatusCode,
};
use crate::strutil::{
    all_digits, append_dec, dec_repr, dec_val, find_sub, find_sub_str, has_prefix, parse_u16_dec,
    split_first, split_once_str, starts_with_str,
};

verus! {

/// The URI names the `https` scheme.
pub open spec fn uri_is_https(uri: Seq<char>) -> bool {
    has_prefix(uri, "https://"@)
}

/// The host part of an `https` URI: the text after the scheme, up to the
/// first slash.
pub open spec fn host_of(uri: Seq<char>) -> Seq<char> {
    let rest = uri.subrange("https://"@.len() as int, uri.len() as int);
    match find_sub(rest, "/"@) {
        Some(i) => rest.subrange(0, i),
        None => rest,
    }
}

/// The path part of an `https` URI: from the first slash after the scheme to
/// the end; a URI without one gets the root path.
pub open spec fn path_of(uri: Seq<char>) -> Seq<char> {
    let rest = uri.subrange("https://"@.len() as int, uri.len() as int);
    match find_sub(rest, "/"@) {
        Some(i) => rest.subrange(i, rest.len() as int),
        None => "/"@,
    }
}

/// The characters a body contributes to the wire text.
pub open spec fn body_chars(b: Option<Seq<char>>) -> Seq<char> {
    match b {
        Some(s) => s,
        None => Seq::empty(),
    }
}

/// The byte length of the body, as `Content-Length` counts it.
pub open spec fn body_len_bytes(b: Option<Seq<char>>) -> int {
    encode_utf8(body_chars(b)).len() as int
}

/// The line one header contributes to the wire text.
pub open spec fn header_line(h: (Seq<char>, Seq<char>)) -> Seq<char> {
    "\r\n"@ + h.0 + ": "@ + h.1
}

/// The text a header set contributes to the wire, in order.
pub open spec fn headers_text(hs: Seq<(Seq<char>, Seq<char>)>) -> Seq<char>
    decreases hs.len(),
{
    if hs.len() == 0 {
        Seq::empty()
    } else {
        header_line(hs[0]) + headers_text(hs.drop_first())
    }
}

/// The headers actually emitted: the request's own set, with a computed
/// `Content-Length` appended whenever the body is nonempty.
pub open spec fn effective_headers(req: RequestGhost) -> Seq<(Seq<char>, Seq<char>)> {
    if body_len_bytes(req.body) != 0 {
        req.headers.push(("Content-Length"@, dec_repr(body_len_bytes(req.body) as nat)))
    } else {
        req.headers
    }
}

/// The full wire text of a request.
pub open spec fn serialized_request(req: RequestGhost) -> Seq<char> {
    let uri = req.uri->Some_0;
    method_text(req.method->Some_0) + " "@ + path_of(uri) + " HTTP/1.1\r\nHost: "@ + host_of(uri)
        + headers_text(effective_headers(req)) + "\r\n\r\n"@ + body_chars(req.body)
}

/// Emitting a header set is emitting all but the last header, then the last.
proof fn lemma_headers_text_snoc(hs: Seq<(Seq<char>, Seq<char>)>)
    requires
        hs.len() > 0,
    ensures
        headers_text(hs) == headers_text(hs.drop_last()) + header_line(hs.last()),
    decreases hs.len(),
{
    if hs.len() == 1 {
        assert(hs.drop_first() =~= Seq::<(Seq<char>, Seq<char>)>::empty());
        assert(hs.drop_last() =~= Seq::<(Seq<char>, Seq<char>)>::empty());
        assert(headers_text(hs) =~= headers_text(hs.drop_last()) + header_line(hs.last()));
    } else {
        lemma_headers_text_snoc(hs.drop_first());
        assert(hs.drop_first().drop_last() =~= hs.drop_last().drop_first());
        assert(hs.drop_first().last() == hs.last());
        assert(hs.drop_last()[0] == hs[0]);
        assert(hs.drop_last().len() > 0);
        assert(headers_text(hs.drop_last()) == header_line(hs[0]) + headers_text(
            hs.drop_last().drop_first(),
        ));
        assert(headers_text(hs) =~= headers_text(hs.drop_last()) + header_line(hs.last()));
    }
}

/// Serialize a request: validate the scheme, extract host and path, compute
/// `Content-Length`, and emit the request line, headers, blank line and body.
/// Returns the wire text and the host.
pub fn build_request(req: &Request) -> (r: Result<(String, String), SendError>)
    requires
        body_len_bytes(req@.body) <= usize::MAX,
    ensures
        match r {
            Ok(p) => req@.uri is Some && req@.method is Some && uri_is_https(req@.uri->Some_0)
                && p.0@ == serialized_request(req@) && p.1@ == host_of(req@.uri->Some_0),
            Err(e) => match e {
                SendError::UriNone => req@.uri is None,
                SendError::MethodNone => req@.uri is Some && req@.method is None,
                SendError::HttpNotSupported(u) => req@.uri is Some && req@.method is Some
                    && !uri_is_https(req@.uri->Some_0) && u@ == req@.uri->Some_0,
                _ => false,
            },
        },
{
    let uri: &String = match &req.uri {
        Some(u) => u,
        None => {
            return Err(SendError::UriNone);
        },
    };
    let method = match req.method {
        Some(m) => m,
        None => {
            return Err(SendError::MethodNone);
        },
    };
    let scheme = "https://";
    if !starts_with_str(uri.as_str(), scheme) {
        return Err(SendError::HttpNotSupported(uri.clone()));
    }
    let rest = uri.as_str().substring_char(scheme.unicode_len(), uri.as_str().unicode_len());
    let ghost rest_v = rest@;
    let host: &str;
    let path: &str;
    match find_sub_str(rest, "/") {
        Some(i) => {
            proof {
                crate::strutil::lemma_find_sub(rest_v, "/"@);
            }
            host = rest.substring_char(0, i);
            path = rest.substring_char(i, rest.unicode_len());
        },
        None => {
            host = rest;
            path = "/";
        },
    }
    let body: &str = match &req.body {
        Some(b) => b.as_str(),
        None => "",
    };
    let content_length = body.len();
    proof {
        assert(body@ == body_chars(req@.body)) by {
            if req@.body is None {
                reveal_strlit("");
                assert(body@ =~= body_chars(req@.body));
            }
        }
        assert(content_length == body_len_bytes(req@.body));
    }

    let mut out = String::new();
    out.append(method.as_str());
    out.append(" ");
    out.append(path);
    out.append(" HTTP/1.1\r\nHost: ");
    out.append(host);
    let ghost prefix = out@;

    let n = req.headers.0.len();
    let mut i: usize = 0;
    while i < n
        invariant
            n == req.headers.0.len(),
            i <= n,
            out@ == prefix + headers_text(req@.headers.take(i as int)),
        decreases n - i,
    {
        let h = &req.headers.0[i];
        out.append("\r\n");
        out.append(h.0.as_str());
        out.append(": ");
        out.append(h.1.as_str());
        proof {
            let hs = req@.headers;
            lemma_headers_text_snoc(hs.take(i + 1));
            assert(hs.take(i + 1).drop_last() =~= hs.take(i as int));
            assert(hs.take(i + 1).last() == hs[i as int]);
            assert(out@ =~= prefix + headers_text(hs.take(i + 1)));
        }
        i = i + 1;
    }
    proof {
        assert(req@.headers.take(n as int) =~= req@.headers);
    }

    if content_length != 0 {
        out.append("\r\nContent-Length: ");
        append_dec(&mut out, content_length);
        proof {
            reveal_strlit("\r\nContent-Length: ");
            reveal_strlit("\r\n");
            reveal_strlit("Content-Length");
            reveal_strlit(": ");
            assert("\r\nContent-Length: "@ =~= "\r\n"@ + "Content-Length"@ + ": "@);
            let eff = effective_headers(req@);
            lemma_headers_text_snoc(eff);
            assert(eff.drop_last() =~= req@.headers);
            assert(out@ =~= prefix + headers_text(eff));
        }
    }
    proof {
        assert(out@ == prefix + headers_text(effective_headers(req@)));
    }

    out.append("\r\n\r\n");
    out.append(body);
    proof {
        assert(out@ =~= serialized_request(req@));
    }
    let host_string = String::from_str(host);
    Ok((out, host_string))
}

/// No carriage return or line feed anywhere in the text.
pub open spec fn crlf_free(s: Seq<char>) -> bool {
    forall|i: int| 0 <= i < s.len() ==> s[i] != '\r' && s[i] != '\n'
}

/// A header fit for the wire: a nonempty name free of line breaks and of the
/// `": "` separator, and a value free of line breaks.
pub open spec fn header_wf(h: (Seq<char>, Seq<char>)) -> bool {
    h.0.len() > 0 && crlf_free(h.0) && crlf_free(h.1) && !crate::strutil::contains_sub(
        h.0,
        ": "@,
    )
}

/// Parse a request line `<method> <target> HTTP/1.1` into method token and
/// target.
pub open spec fn parse_request_line(l: Seq<char>) -> Option<(Seq<char>, Seq<char>)> {
    match split_first(l, " "@) {
        None => None,
        Some(p1) => match split_first(p1.1, " "@) {
            None => None,
            Some(p2) => if p2.1 == "HTTP/1.1"@ {
                Some((p1.0, p2.0))
            } else {
                None
            },
        },
    }
}

/// Parse a whole request text, as a receiving peer would: the request line,
/// then the header lines up to the blank line, then the body.
pub open spec fn parse_request_text(s: Seq<char>) -> Option<
    (Seq<char>, Seq<char>, Seq<(Seq<char>, Seq<char>)>, Seq<char>),
> {
    match split_first(s, "\r\n\r\n"@) {
        None => None,
        Some(hb) => {
            let head = hb.0;
            let body = hb.1;
            match find_sub(head, "\r\n"@) {
                None => None,
                Some(i) => if 0 <= i && i + 2 <= head.len() {
                    match parse_request_line(head.subrange(0, i)) {
                        None => None,
                        Some(ml) => match parse_headers_text(
                            head.subrange(i + 2, head.len() as int),
                        ) {
                            None => None,
                            Some(hs) => Some((ml.0, ml.1, hs, body)),
                        },
                    }
                } else {
                    None
                },
            }
        },
    }
}

// --- response head parsing ---

/// Parse a status line `<version> <code> <reason>`: drop the version, read
/// the code as a decimal number, keep the rest as the reason phrase.
pub open spec fn parse_status_line(l: Seq<char>) -> Option<(u16, Seq<char>)> {
    match split_first(l, " "@) {
        None => None,
        Some(p1) => match split_first(p1.1, " "@) {
            None => None,
            Some(p2) => if p2.0.len() > 0 && all_digits(p2.0) && dec_val(p2.0) <= u16::MAX as int {
                Some((dec_val(p2.0) as u16, p2.1))
            } else {
                None
            },
        },
    }
}

/// Parse CRLF-separated `name: value` lines, splitting each on its first
/// `": "`. Any line without one refuses the whole head.
pub open spec fn parse_headers_text(s: Seq<char>) -> Option<Seq<(Seq<char>, Seq<char>)>>
    decreases s.len(),
{
    match find_sub(s, "\r\n"@) {
        None => match split_first(s, ": "@) {
            None => None,
            Some(p) => Some(seq![p]),
        },
        Some(i) => if 0 <= i && i + 2 <= s.len() {
            let line = s.subrange(0, i);
            let rest = s.subrange(i + 2, s.len() as int);
            match split_first(line, ": "@) {
                None => None,
                Some(p) => match parse_headers_text(rest) {
                    None => None,
                    Some(hs) => Some(seq![p] + hs),
                },
            }
        } else {
            None
        },
    }
}

/// Parse a whole head: the status line, then the header lines.
pub open spec fn parse_head(head: Seq<char>) -> Option<(u16, Seq<char>, Seq<(Seq<char>, Seq<char>)>)> {
    match find_sub(head, "\r\n"@) {
        None => match parse_status_line(head) {
            None => None,
            Some(st) => Some((st.0, st.1, Seq::empty())),
        },
        Some(i) => if 0 <= i && i + 2 <= head.len() {
            match parse_status_line(head.subrange(0, i)) {
                None => None,
                Some(st) => match parse_headers_text(head.subrange(i + 2, head.len() as int)) {
                    None => None,
                    Some(hs) => Some((st.0, st.1, hs)),
                },
            }
        } else {
            None
        },
    }
}

/// An empty collected body stands for no body at all.
pub open spec fn body_of_text(b: Seq<char>) -> Option<Seq<char>> {
    if b.len() == 0 {
        None
    } else {
        Some(b)
    }
}

/// Parse a whole response text: head up to the first blank line, then the
/// collected body.
pub open spec fn parse_response_text(s: Seq<char>) -> Option<ResponseGhost> {
    match split_first(s, "\r\n\r\n"@) {
        None => None,
        Some(hb) => match parse_head(hb.0) {
            None => None,
            Some(st) => Some(
                ResponseGhost { code: st.0, text: st.1, headers: st.2, body: body_of_text(hb.1) },
            ),
        },
    }
}

pub(crate) fn parse_status_line_exec(l: &str) -> (r: Option<(u16, String)>)
    ensures
        match r {
            Some(p) => parse_status_line(l@) == Some((p.0, p.1@)),
            None => parse_status_line(l@) is None,
        },
{
    match split_once_str(l, " ") {
        None => None,
        Some((_ver, rest)) => match split_once_str(rest.as_str(), " ") {
            None => None,
            Some((code_s, text)) => match parse_u16_dec(code_s.as_str()) {
                Some(c) => Some((c, text)),
                None => None,
            },
        },
    }
}

fn malformed(context: &str, raw: &str) -> (r: SendError)
    ensures
        r is MalformedResponse,
{
    SendError::MalformedResponse(String::from_str(context), String::from_str(raw))
}

/// Parse a collected response text into a `Response`: split head from body at
/// the first blank line, read the status line, read each header line, and
/// keep a nonempty body as raw text.
pub fn build_response(out: &str) -> (r: Result<Response, SendError>)
    ensures
        match r {
            Ok(resp) => parse_response_text(out@) == Some(resp@),
            Err(e) => parse_response_text(out@) is None && e is MalformedResponse,
        },
{
    let (head, body) = match split_once_str(out, "\r\n\r\n") {
        Some(p) => p,
        None => {
            return Err(malformed("from splitting head and body", out));
        },
    };
    let code: u16;
    let text: String;
    let ghost mut text_v: Seq<char>;
    let mut headers = Headers(Vec::new());
    match split_once_str(head.as_str(), "\r\n") {
        None => {
            match parse_status_line_exec(head.as_str()) {
                Some(p) => {
                    code = p.0;
                    text = p.1;
                    proof {
                        text_v = text@;
                    }
                },
                None => {
                    return Err(malformed("from splitting status line", out));
                },
            }
            proof {
                assert(headers@ =~= Seq::<(Seq<char>, Seq<char>)>::empty());
                assert(parse_head(head@) == Some((code, text_v, headers@)));
            }
        },
        Some((l0, rest0)) => {
            proof {
                reveal_strlit("\r\n");
                crate::strutil::lemma_find_sub(head@, "\r\n"@);
            }
            let ghost i0 = find_sub(head@, "\r\n"@)->Some_0;
            proof {
                assert(0 <= i0 && i0 + 2 <= head@.len());
                assert(l0@ == head@.subrange(0, i0));
                assert(rest0@ == head@.subrange(i0 + 2, head@.len() as int));
            }
            match parse_status_line_exec(l0.as_str()) {
                Some(p) => {
                    code = p.0;
                    text = p.1;
                    proof {
                        text_v = text@;
                    }
                },
                None => {
                    proof {
                        assert(parse_head(head@) is None);
                    }
                    return Err(malformed("from splitting status line", out));
                },
            }
            let ghost rest_start = rest0@;
            let mut cur = rest0;
            let mut more = true;
            proof {
                if parse_headers_text(rest_start) is Some {
                    let hs0 = parse_headers_text(rest_start)->Some_0;
                    assert(headers@ + hs0 =~= hs0);
                }
            }
            while more
                invariant
                    split_first(out@, "\r\n\r\n"@) == Some((head@, body@)),
                    parse_head(head@) == (match parse_headers_text(rest_start) {
                        None => None::<(u16, Seq<char>, Seq<(Seq<char>, Seq<char>)>)>,
                        Some(hs) => Some((code, text_v, hs)),
                    }),
                    more ==> (match parse_headers_text(cur@) {
                        Some(hs) => parse_headers_text(rest_start) == Some(headers@ + hs),
                        None => parse_headers_text(rest_start) is None,
                    }),
                    !more ==> parse_headers_text(rest_start) == Some(headers@),
                decreases cur@.len() + (if more {
                    1int
                } else {
                    0int
                }),
            {
                match split_once_str(cur.as_str(), "\r\n") {
                    Some((line, rest)) => {
                        proof {
                            reveal_strlit("\r\n");
                            crate::strutil::lemma_find_sub(cur@, "\r\n"@);
                        }
                        let ghost ic = find_sub(cur@, "\r\n"@)->Some_0;
                        proof {
                            assert(0 <= ic && ic + 2 <= cur@.len());
                            assert(line@ == cur@.subrange(0, ic));
                            assert(rest@ == cur@.subrange(ic + 2, cur@.len() as int));
                        }
                        match split_once_str(line.as_str(), ": ") {
                            Some((name, value)) => {
                                let ghost before = headers@;
                                let ghost pair = (name@, value@);
                                headers.0.push(Header(name, value));
                                proof {
                                    assert(headers@ =~= before.push(pair));
                                    if parse_headers_text(rest@) is Some {
                                        let hs = parse_headers_text(rest@)->Some_0;
                                        assert(parse_headers_text(cur@) == Some(
                                            seq![pair] + hs,
                                        ));
                                        assert(before + (seq![pair] + hs) =~= before.push(pair)
                                            + hs);
                                    } else {
                                        assert(parse_headers_text(cur@) is None);
                                    }
                                }
                                cur = rest;
                            },
                            None => {
                                proof {
                                    assert(parse_headers_text(cur@) is None);
                                    assert(parse_head(head@) is None);
                                }
                                return Err(malformed("from splitting header", out));
                            },
                        }
                    },
                    None => {
                        match split_once_str(cur.as_str(), ": ") {
                            Some((name, value)) => {
                                let ghost before = headers@;
                                let ghost pair = (name@, value@);
                                headers.0.push(Header(name, value));
                                proof {
                                    assert(headers@ =~= before.push(pair));
                                    assert(parse_headers_text(cur@) == Some(seq![pair]));
                                    assert(before + seq![pair] =~= before.push(pair));
                                }
                            },
                            None => {
                                proof {
                                    assert(parse_headers_text(cur@) is None);
                                    assert(parse_head(head@) is None);
                                }
                                return Err(malformed("from splitting header", out));
                            },
                        }
                        more = false;
                    },
                }
            }
            proof {
                assert(parse_head(head@) == Some((code, text_v, headers@)));
            }
        },
    }
    let body_opt: Option<String> = if body.as_str().unicode_len() == 0 {
        None
    } else {
        Some(body)
    };
    let resp = Response { status: StatusCode { code, text }, headers, body: body_opt };
    proof {
        assert(parse_response_text(out@) == Some(resp@));
    }
    Ok(resp)
}

} // verus!
