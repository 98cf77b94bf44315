//! The serialization round trip: a receiving peer that parses what
//! `serialized_request` emits recovers the request's method, path, headers —
//! including the computed `Content-Length` — and body, verbatim.

use vstd::prelude::*;
use crate::codec::{
    body_len_bytes, crlf_free, effective_headers, header_line, header_wf, headers_text, host_of,
    parse_headers_text, parse_request_line, parse_request_text, path_of, serialized_request,
    uri_is_https,
};
use crate::model::{method_text, Method, RequestGhost};
use crate::strutil::{
    all_digits, contains_sub, dec_repr, find_sub, is_digit, lemma_dec_repr_digits, lemma_find_sub,
    lemma_find_sub_at, lemma_find_sub_skip_prefix, matches_at,
    split_first,
};

verus! {

/// A method token is nonempty and free of spaces and line breaks.
proof fn lemma_method_text_clean(m: Method)
    ensures
        method_text(m).len() > 0,
        forall|i: int|
            0 <= i < method_text(m).len() ==> method_text(m)[i] != ' ' && method_text(m)[i] != '\r'
                && method_text(m)[i] != '\n',
{
    reveal_strlit("OPTIONS");
    reveal_strlit("GET");
    reveal_strlit("POST");
    reveal_strlit("PUT");
    reveal_strlit("DELETE");
    reveal_strlit("HEAD");
    reveal_strlit("TRACE");
    reveal_strlit("CONNECT");
    reveal_strlit("PATCH");
}

/// A text with no colon contains no `": "`.
proof fn lemma_no_colon_no_sep(name: Seq<char>)
    requires
        forall|i: int| 0 <= i < name.len() ==> name[i] != ':',
    ensures
        !contains_sub(name, ": "@),
{
    reveal_strlit(": ");
    lemma_find_sub(name, ": "@);
    if find_sub(name, ": "@) is Some {
        let j = find_sub(name, ": "@)->Some_0;
        assert(name.subrange(j, j + 2)[0] == ": "@[0]);
    }
}

/// Decimal digits contain no line breaks.
proof fn lemma_digits_clean(s: Seq<char>)
    requires
        all_digits(s),
    ensures
        crlf_free(s),
{
    assert forall|i: int| 0 <= i < s.len() implies s[i] != '\r' && s[i] != '\n' by {
        assert(is_digit(s[i]));
    }
}

/// Splitting `name: value` on the first `": "` recovers name and value.
proof fn lemma_split_header_line(name: Seq<char>, value: Seq<char>)
    requires
        name.len() > 0,
        !contains_sub(name, ": "@),
    ensures
        split_first(name + ": "@ + value, ": "@) == Some((name, value)),
{
    reveal_strlit(": ");
    let s = name + ": "@ + value;
    let pat = ": "@;
    assert(s.subrange(name.len() as int, name.len() as int + 2) =~= pat);
    assert(matches_at(s, pat, name.len() as int));
    lemma_find_sub(name, pat);
    assert forall|j: int| 0 <= j < name.len() implies !matches_at(s, pat, j) by {
        if j + 2 <= name.len() {
            if matches_at(s, pat, j) {
                assert(s.subrange(j, j + 2) =~= name.subrange(j, j + 2));
                assert(matches_at(name, pat, j));
            }
        } else {
            // j is the last index of the name; the next character is the
            // separator's colon, not its space
            if matches_at(s, pat, j) {
                assert(s.subrange(j, j + 2)[1] == pat[1]);
                assert(s[j + 1] == ':');
            }
        }
    }
    lemma_find_sub_at(s, pat, name.len() as int);
    assert(s.subrange(0, name.len() as int) =~= name);
    assert(s.subrange(name.len() as int + 2, s.len() as int) =~= value);
}

/// Parsing `first.0: first.1` followed by a rendered header set recovers the
/// first pair and then the set, in order.
proof fn lemma_parse_headers_round_trip(
    first: (Seq<char>, Seq<char>),
    hs: Seq<(Seq<char>, Seq<char>)>,
)
    requires
        header_wf(first),
        forall|k: int| 0 <= k < hs.len() ==> header_wf(#[trigger] hs[k]),
    ensures
        parse_headers_text(first.0 + ": "@ + first.1 + headers_text(hs)) == Some(
            seq![first] + hs,
        ),
    decreases hs.len(),
{
    reveal_strlit(": ");
    reveal_strlit("\r\n");
    let x = first.0 + ": "@ + first.1;
    let region = x + headers_text(hs);
    let crlf = "\r\n"@;
    if hs.len() == 0 {
        assert(headers_text(hs) =~= Seq::<char>::empty());
        assert(region =~= x);
        lemma_find_sub(x, crlf);
        if find_sub(x, crlf) is Some {
            let j = find_sub(x, crlf)->Some_0;
            assert(x.subrange(j, j + 2)[0] == crlf[0]);
            assert(x[j] == '\r');
            assert(false) by {
                if j < first.0.len() {
                    assert(x[j] == first.0[j]);
                } else if j < first.0.len() + 2 {
                } else {
                    assert(x[j] == first.1[j - first.0.len() - 2]);
                }
            }
        }
        lemma_split_header_line(first.0, first.1);
        assert(parse_headers_text(region) == Some(seq![(first.0, first.1)]));
        assert((first.0, first.1) == first);
        assert(seq![first] + hs =~= seq![first]);
    } else {
        let h0 = hs[0];
        let rest = hs.drop_first();
        assert(headers_text(hs) == header_line(h0) + headers_text(rest));
        // the first line break in the region sits right after `x`
        assert(region.subrange(x.len() as int, x.len() as int + 2) =~= crlf) by {
            assert(header_line(h0) == crlf + h0.0 + ": "@ + h0.1);
            assert(region[x.len() as int] == header_line(h0)[0]);
            assert(region[x.len() as int + 1] == header_line(h0)[1]);
        }
        assert(matches_at(region, crlf, x.len() as int));
        assert forall|j: int| 0 <= j < x.len() implies !matches_at(region, crlf, j) by {
            if matches_at(region, crlf, j) {
                assert(region.subrange(j, j + 2)[0] == crlf[0]);
                assert(region[j] == '\r');
                if j < first.0.len() {
                    assert(region[j] == first.0[j]);
                } else if j < first.0.len() + 2 {
                } else {
                    assert(region[j] == first.1[j - first.0.len() - 2]);
                }
            }
        }
        lemma_find_sub_at(region, crlf, x.len() as int);
        let line = region.subrange(0, x.len() as int);
        let tail = region.subrange(x.len() as int + 2, region.len() as int);
        assert(line =~= x);
        assert(tail =~= h0.0 + ": "@ + h0.1 + headers_text(rest)) by {
            assert(header_line(h0) == crlf + h0.0 + ": "@ + h0.1);
        }
        lemma_split_header_line(first.0, first.1);
        assert(forall|k: int| 0 <= k < rest.len() ==> header_wf(#[trigger] rest[k]));
        lemma_parse_headers_round_trip(h0, rest);
        assert(parse_headers_text(tail) == Some(seq![h0] + rest));
        assert((first.0, first.1) == first);
        assert(parse_headers_text(region) == Some(seq![first] + (seq![h0] + rest)));
        assert(seq![first] + (seq![h0] + rest) =~= seq![first] + hs);
    }
}

/// In a rendered header set followed by the blank line and a body, the first
/// `"\r\n\r\n"` is exactly the blank line.
proof fn lemma_first_blank(hs: Seq<(Seq<char>, Seq<char>)>, b: Seq<char>)
    requires
        forall|k: int| 0 <= k < hs.len() ==> header_wf(#[trigger] hs[k]),
    ensures
        find_sub(headers_text(hs) + "\r\n\r\n"@ + b, "\r\n\r\n"@) == Some(
            headers_text(hs).len() as int,
        ),
    decreases hs.len(),
{
    reveal_strlit("\r\n\r\n");
    reveal_strlit("\r\n");
    reveal_strlit(": ");
    let pat = "\r\n\r\n"@;
    let s = headers_text(hs) + pat + b;
    if hs.len() == 0 {
        assert(headers_text(hs) =~= Seq::<char>::empty());
        assert(s.subrange(0, 4) =~= pat);
        assert(matches_at(s, pat, 0));
        lemma_find_sub_at(s, pat, 0);
    } else {
        let h0 = hs[0];
        let rest = hs.drop_first();
        let x = header_line(h0);
        let t = headers_text(rest) + pat + b;
        assert(headers_text(hs) == x + headers_text(rest));
        assert(s =~= x + t);
        assert(x == "\r\n"@ + h0.0 + ": "@ + h0.1);
        assert(x.len() >= 5);
        assert forall|j: int| 0 <= j < x.len() implies !matches_at(x + t, pat, j) by {
            let full = x + t;
            if matches_at(full, pat, j) {
                assert(full.subrange(j, j + 4)[0] == pat[0]);
                assert(full[j] == '\r');
                if j == 0 {
                    assert(full.subrange(j, j + 4)[2] == pat[2]);
                    assert(full[2] == '\r');
                    assert(full[2] == x[2]);
                    assert(x[2] == h0.0[0]);
                } else if j == 1 {
                    assert(full[1] == x[1]);
                } else {
                    assert(full[j] == x[j]);
                    if j - 2 < h0.0.len() {
                        assert(x[j] == h0.0[j - 2]);
                    } else if j - 2 < h0.0.len() + 2 {
                    } else {
                        assert(x[j] == h0.1[j - 2 - h0.0.len() - 2]);
                    }
                }
            }
        }
        assert(forall|k: int| 0 <= k < rest.len() ==> header_wf(#[trigger] rest[k]));
        lemma_first_blank(rest, b);
        lemma_find_sub_skip_prefix(x, t, pat);
        assert(s == x + t);
        assert(find_sub(s, pat) == Some(x.len() + headers_text(rest).len() as int));
        assert(headers_text(hs).len() == x.len() + headers_text(rest).len());
    }
}

/// Serialization round trip: a request with an `https` URI free of spaces
/// and line breaks and wire-fit headers, once serialized, is recovered
/// verbatim by a receiving parser — its method token, its path, its headers
/// (the serializer's own `Host` first, then the request's set with the
/// computed `Content-Length`), and its body.
#[verifier::rlimit(60)]
pub proof fn lemma_serialize_round_trip(req: RequestGhost)
    requires
        req.method is Some,
        req.uri is Some,
        uri_is_https(req.uri->Some_0),
        crlf_free(req.uri->Some_0),
        forall|i: int| 0 <= i < req.uri->Some_0.len() ==> req.uri->Some_0[i] != ' ',
        req.body is Some,
        req.body->Some_0.len() > 0,
        forall|k: int| 0 <= k < req.headers.len() ==> header_wf(#[trigger] req.headers[k]),
    ensures
        parse_request_text(serialized_request(req)) == Some(
            (
                method_text(req.method->Some_0),
                path_of(req.uri->Some_0),
                seq![("Host"@, host_of(req.uri->Some_0))] + effective_headers(req),
                req.body->Some_0,
            ),
        ),
{
    reveal_strlit(" ");
    reveal_strlit("/");
    reveal_strlit("https://");
    reveal_strlit(" HTTP/1.1\r\nHost: ");
    reveal_strlit("HTTP/1.1");
    reveal_strlit("\r\n");
    reveal_strlit("\r\n\r\n");
    reveal_strlit("Host");
    reveal_strlit(": ");
    reveal_strlit("Content-Length");
    let mth = req.method->Some_0;
    let m = method_text(mth);
    let uri = req.uri->Some_0;
    let p = path_of(uri);
    let h = host_of(uri);
    let eff = effective_headers(req);
    let body = req.body->Some_0;
    let full = serialized_request(req);
    let pat4 = "\r\n\r\n"@;
    let crlf = "\r\n"@;
    lemma_method_text_clean(mth);

    // the path and the host carry only characters of the URI, or are "/"
    let rest = uri.subrange("https://"@.len() as int, uri.len() as int);
    lemma_find_sub(rest, "/"@);
    assert(forall|i: int| 0 <= i < rest.len() ==> rest[i] == uri[i + 8]);
    assert forall|i: int| 0 <= i < p.len() implies p[i] != ' ' && p[i] != '\r' && p[i]
        != '\n' by {
        match find_sub(rest, "/"@) {
            Some(k) => {
                assert(p == rest.subrange(k, rest.len() as int));
                assert(p[i] == rest[k + i]);
            },
            None => {
                assert(p == "/"@);
            },
        }
    }
    assert forall|i: int| 0 <= i < h.len() implies h[i] != '\r' && h[i] != '\n' by {
        match find_sub(rest, "/"@) {
            Some(k) => {
                assert(h == rest.subrange(0, k));
                assert(h[i] == rest[i]);
            },
            None => {
                assert(h == rest);
            },
        }
    }

    // every emitted header is wire-fit, the computed Content-Length included
    assert forall|k: int| 0 <= k < eff.len() implies header_wf(#[trigger] eff[k]) by {
        if k < req.headers.len() {
            assert(eff[k] == req.headers[k]);
        } else {
            let cl = ("Content-Length"@, dec_repr(body_len_bytes(req.body) as nat));
            assert(eff[k] == cl);
            lemma_dec_repr_digits(body_len_bytes(req.body) as nat);
            lemma_digits_clean(cl.1);
            assert(forall|i: int| 0 <= i < cl.0.len() ==> cl.0[i] != ':');
            lemma_no_colon_no_sep(cl.0);
            assert(header_wf(cl));
        }
    }

    // decompose the serialized text around its two separators
    let x0 = m + " "@ + p + " "@ + "HTTP/1.1"@;
    let xh = "Host"@ + ": "@ + h;
    let hreg = "Host"@ + ": "@ + h + headers_text(eff);
    let pre = x0 + crlf;
    let t2 = headers_text(eff) + pat4 + body;
    let t1 = xh + t2;
    assert(" HTTP/1.1\r\nHost: "@ =~= " "@ + "HTTP/1.1"@ + crlf + "Host"@ + ": "@);
    assert(full =~= pre + t1);

    // the characters of the request line never open a blank line
    assert forall|j: int| 0 <= j < pre.len() implies !matches_at(pre + t1, pat4, j) by {
        let s = pre + t1;
        if matches_at(s, pat4, j) {
            assert(s.subrange(j, j + 4)[0] == pat4[0]);
            assert(s[j] == '\r');
            if j < x0.len() {
                assert(s[j] == x0[j]);
                if j < m.len() {
                    assert(x0[j] == m[j]);
                } else if j == m.len() {
                    assert(x0[j] == ' ');
                } else if j < m.len() + 1 + p.len() {
                    assert(x0[j] == p[j - m.len() - 1]);
                } else if j == m.len() + 1 + p.len() {
                    assert(x0[j] == ' ');
                } else {
                    assert(x0[j] == "HTTP/1.1"@[j - m.len() - 1 - p.len() - 1]);
                }
            } else if j == x0.len() {
                assert(s.subrange(j, j + 4)[2] == pat4[2]);
                assert(s[j + 2] == '\r');
                assert(s[j + 2] == t1[0]);
                assert(t1[0] == 'H');
            } else {
                assert(s[j] == pre[j]);
                assert(pre[j] == '\n');
            }
        }
    }
    lemma_find_sub_skip_prefix(pre, t1, pat4);

    // nor do the Host header's characters
    assert forall|j: int| 0 <= j < xh.len() implies !matches_at(xh + t2, pat4, j) by {
        let s = xh + t2;
        if matches_at(s, pat4, j) {
            assert(s.subrange(j, j + 4)[0] == pat4[0]);
            assert(s[j] == '\r');
            assert(s[j] == xh[j]);
            if j < 4 {
                assert(xh[j] == "Host"@[j]);
            } else if j < 6 {
                assert(xh[j] == ": "@[j - 4]);
            } else {
                assert(xh[j] == h[j - 6]);
            }
        }
    }
    lemma_first_blank(eff, body);
    lemma_find_sub_skip_prefix(xh, t2, pat4);
    assert(find_sub(t1, pat4) == Some(xh.len() + headers_text(eff).len() as int));
    assert(find_sub(full, pat4) == Some(
        pre.len() + xh.len() + headers_text(eff).len() as int,
    ));

    // so the head is everything up to the blank line, and the body follows
    let headlen = pre.len() + xh.len() + headers_text(eff).len() as int - 2;
    let head = x0 + crlf + hreg;
    assert(head.len() == headlen + 2 - 2 + 2) by {
        assert(hreg.len() == xh.len() + headers_text(eff).len());
    }
    assert(full.subrange(0, headlen + 2) =~= head);
    assert(full.subrange(headlen + 2 + 4, full.len() as int) =~= body);
    assert(split_first(full, pat4) == Some((head, body)));

    // the first line break in the head ends the request line
    assert(head.subrange(x0.len() as int, x0.len() as int + 2) =~= crlf);
    assert(matches_at(head, crlf, x0.len() as int));
    assert forall|j: int| 0 <= j < x0.len() implies !matches_at(head, crlf, j) by {
        if matches_at(head, crlf, j) {
            assert(head.subrange(j, j + 2)[0] == crlf[0]);
            assert(head[j] == '\r');
            assert(head[j] == x0[j]);
            if j < m.len() {
                assert(x0[j] == m[j]);
            } else if j == m.len() {
                assert(x0[j] == ' ');
            } else if j < m.len() + 1 + p.len() {
                assert(x0[j] == p[j - m.len() - 1]);
            } else if j == m.len() + 1 + p.len() {
                assert(x0[j] == ' ');
            } else {
                assert(x0[j] == "HTTP/1.1"@[j - m.len() - 1 - p.len() - 1]);
            }
        }
    }
    lemma_find_sub_at(head, crlf, x0.len() as int);
    assert(head.subrange(0, x0.len() as int) =~= x0);
    assert(head.subrange(x0.len() as int + 2, head.len() as int) =~= hreg);

    // the request line splits at its two spaces
    let r1 = p + " "@ + "HTTP/1.1"@;
    assert(x0.subrange(m.len() as int, m.len() as int + 1) =~= " "@);
    assert(matches_at(x0, " "@, m.len() as int));
    assert forall|j: int| 0 <= j < m.len() implies !matches_at(x0, " "@, j) by {
        if matches_at(x0, " "@, j) {
            assert(x0.subrange(j, j + 1)[0] == " "@[0]);
            assert(x0[j] == ' ');
            assert(x0[j] == m[j]);
        }
    }
    lemma_find_sub_at(x0, " "@, m.len() as int);
    assert(x0.subrange(0, m.len() as int) =~= m);
    assert(x0.subrange(m.len() as int + 1, x0.len() as int) =~= r1);
    assert(r1.subrange(p.len() as int, p.len() as int + 1) =~= " "@);
    assert(matches_at(r1, " "@, p.len() as int));
    assert forall|j: int| 0 <= j < p.len() implies !matches_at(r1, " "@, j) by {
        if matches_at(r1, " "@, j) {
            assert(r1.subrange(j, j + 1)[0] == " "@[0]);
            assert(r1[j] == ' ');
            assert(r1[j] == p[j]);
        }
    }
    lemma_find_sub_at(r1, " "@, p.len() as int);
    assert(r1.subrange(0, p.len() as int) =~= p);
    assert(r1.subrange(p.len() as int + 1, r1.len() as int) =~= "HTTP/1.1"@);
    assert(parse_request_line(x0) == Some((m, p)));

    // the header region parses back to Host followed by the emitted set
    assert(forall|i: int| 0 <= i < "Host"@.len() ==> "Host"@[i] != ':');
    lemma_no_colon_no_sep("Host"@);
    assert(header_wf(("Host"@, h)));
    lemma_parse_headers_round_trip(("Host"@, h), eff);
    assert(hreg == ("Host"@, h).0 + ": "@ + ("Host"@, h).1 + headers_text(eff));
    assert(parse_headers_text(hreg) == Some(seq![("Host"@, h)] + eff));

    assert(parse_request_text(full) == Some((m, p, seq![("Host"@, h)] + eff, body)));
}

} // verus!
