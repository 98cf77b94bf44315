//! Incremental response parsing: a state machine fed one line or one block
//! of body data at a time. The driver reads from the stream exactly what the
//! machine asks for next, so framing decisions all live here and are exact.

use vstd::prelude::*;
use vstd::string::*;
use crate::codec::{body_of_text, parse_status_line};
use crate::error::SendError;
use crate::model::{find_name, Header, Headers, Response, StatusCode};
use crate::strutil::{all_digits, all_hex_digits, dec_val, eq_ci, hex_val, split_first};

verus! {

/// Where the parse stands: what kind of input it expects next.
#[derive(Debug, Clone, Copy, PartialEq, Eq, Structural)]
pub enum ParsePhase {
    /// Expecting the status line.
    StatusLine,
    /// Expecting a header line, or the blank line ending the head.
    HeaderLine,
    /// Expecting a hexadecimal chunk-size line.
    ChunkSize,
    /// Expecting exactly `size` bytes of chunk data.
    ChunkData { size: usize },
    /// Expecting exactly `size` bytes of length-delimited body.
    BodyData { size: usize },
    /// The response is complete.
    Done,
    /// A line could not be parsed; the response is lost.
    Failed,
}

/// What the driver should do next.
#[derive(Debug, Clone, Copy, PartialEq, Eq, Structural)]
pub enum ParserInstr {
    /// Read one CRLF-terminated line and feed it, without its CRLF.
    NeedLine,
    /// Read exactly this many bytes and feed them.
    NeedData(usize),
    /// Take the finished response.
    Finished,
    /// Stop: the response was malformed.
    Errored,
}

/// Some header says `Transfer-Encoding: chunked`.
pub open spec fn is_chunked(hs: Seq<(Seq<char>, Seq<char>)>) -> bool {
    exists|i: int|
        0 <= i < hs.len() && eq_ci(#[trigger] hs[i].0, "Transfer-Encoding"@) && eq_ci(
            hs[i].1,
            "chunked"@,
        )
}

/// Exec scan for a `Transfer-Encoding: chunked` header, ignoring ASCII case.
fn headers_chunked(hs: &Headers) -> (r: bool)
    ensures
        r == is_chunked(hs@),
{
    let n = hs.0.len();
    let mut i: usize = 0;
    while i < n
        invariant
            n == hs.0.len(),
            i <= n,
            hs@.len() == n,
            forall|j: int|
                0 <= j < i ==> !(eq_ci(#[trigger] hs@[j].0, "Transfer-Encoding"@) && eq_ci(
                    hs@[j].1,
                    "chunked"@,
                )),
        decreases n - i,
    {
        let h = &hs.0[i];
        if crate::strutil::str_eq_ci(h.0.as_str(), "Transfer-Encoding") && crate::strutil::str_eq_ci(
            h.1.as_str(),
            "chunked",
        ) {
            proof {
                assert(eq_ci(hs@[i as int].0, "Transfer-Encoding"@));
                assert(eq_ci(hs@[i as int].1, "chunked"@));
            }
            return true;
        }
        i = i + 1;
    }
    false
}

/// The value of the first `Content-Length` header, if any.
pub open spec fn content_length_header(hs: Seq<(Seq<char>, Seq<char>)>) -> Option<Seq<char>> {
    match find_name(hs, "Content-Length"@) {
        Some(i) => Some(hs[i].1),
        None => None,
    }
}

/// The machine: status and headers collected so far, and the body assembled
/// from chunks or from the declared byte count.
#[derive(Debug)]
pub struct ResponseParser {
    pub phase: ParsePhase,
    pub code: u16,
    pub text: String,
    pub headers: Headers,
    pub body: String,
}

impl ResponseParser {
    /// A fresh parse, expecting the status line.
    pub fn new() -> (r: ResponseParser)
        ensures
            r.phase == ParsePhase::StatusLine,
            r.headers@ =~= Seq::<(Seq<char>, Seq<char>)>::empty(),
            r.body@ =~= Seq::<char>::empty(),
    {
        ResponseParser {
            phase: ParsePhase::StatusLine,
            code: 0,
            text: String::new(),
            headers: Headers(Vec::new()),
            body: String::new(),
        }
    }

    /// What the driver should do next.
    pub fn instr(&self) -> (r: ParserInstr)
        ensures
            r == (match self.phase {
                ParsePhase::StatusLine => ParserInstr::NeedLine,
                ParsePhase::HeaderLine => ParserInstr::NeedLine,
                ParsePhase::ChunkSize => ParserInstr::NeedLine,
                ParsePhase::ChunkData { size } => ParserInstr::NeedData(size),
                ParsePhase::BodyData { size } => ParserInstr::NeedData(size),
                ParsePhase::Done => ParserInstr::Finished,
                ParsePhase::Failed => ParserInstr::Errored,
            }),
    {
        match self.phase {
            ParsePhase::StatusLine => ParserInstr::NeedLine,
            ParsePhase::HeaderLine => ParserInstr::NeedLine,
            ParsePhase::ChunkSize => ParserInstr::NeedLine,
            ParsePhase::ChunkData { size } => ParserInstr::NeedData(size),
            ParsePhase::BodyData { size } => ParserInstr::NeedData(size),
            ParsePhase::Done => ParserInstr::Finished,
            ParsePhase::Failed => ParserInstr::Errored,
        }
    }

    /// Feed one line, stripped of its CRLF. Returns the error when the line
    /// refuses to parse, in which case the machine is failed for good.
    pub fn feed_line(&mut self, line: &str) -> (r: Option<SendError>)
        requires
            old(self).phase == ParsePhase::StatusLine || old(self).phase == ParsePhase::HeaderLine
                || old(self).phase == ParsePhase::ChunkSize,
        ensures
            final(self).code == (if old(self).phase == ParsePhase::StatusLine && parse_status_line(
                line@,
            ) is Some {
                parse_status_line(line@)->Some_0.0
            } else {
                old(self).code
            }),
            final(self).text@ == (if old(self).phase == ParsePhase::StatusLine
                && parse_status_line(line@) is Some {
                parse_status_line(line@)->Some_0.1
            } else {
                old(self).text@
            }),
            final(self).headers@ == (if old(self).phase == ParsePhase::HeaderLine && line@.len()
                != 0 && split_first(line@, ": "@) is Some {
                old(self).headers@.push(split_first(line@, ": "@)->Some_0)
            } else {
                old(self).headers@
            }),
            final(self).body@ == old(self).body@,
            final(self).phase == (match old(self).phase {
                ParsePhase::StatusLine => if parse_status_line(line@) is Some {
                    ParsePhase::HeaderLine
                } else {
                    ParsePhase::Failed
                },
                ParsePhase::HeaderLine => if line@.len() != 0 {
                    if split_first(line@, ": "@) is Some {
                        ParsePhase::HeaderLine
                    } else {
                        ParsePhase::Failed
                    }
                } else {  // blank line: decide the body framing
                    if is_chunked(old(self).headers@) {
                        ParsePhase::ChunkSize
                    } else {
                        match content_length_header(old(self).headers@) {
                            Some(v) => if v.len() > 0 && all_digits(v) && dec_val(v)
                                <= usize::MAX as int {
                                if dec_val(v) == 0 {
                                    ParsePhase::Done
                                } else {
                                    ParsePhase::BodyData { size: dec_val(v) as usize }
                                }
                            } else {
                                ParsePhase::Failed
                            },
                            None => ParsePhase::Failed,
                        }
                    }
                },
                ParsePhase::ChunkSize => if line@.len() == 0 {
                    ParsePhase::ChunkSize
                } else if line@.len() > 0 && all_hex_digits(line@) && hex_val(line@)
                    <= usize::MAX as int {
                    if hex_val(line@) == 0 {
                        ParsePhase::Done
                    } else {
                        ParsePhase::ChunkData { size: hex_val(line@) as usize }
                    }
                } else {
                    ParsePhase::Failed
                },
                _ => old(self).phase,
            }),
            r is Some <==> final(self).phase == ParsePhase::Failed,
            r is Some ==> r->Some_0 is MalformedResponse,
    {
        match self.phase {
            ParsePhase::StatusLine => {
                match crate::codec::parse_status_line_exec(line) {
                    Some(p) => {
                        self.code = p.0;
                        self.text = p.1;
                        self.phase = ParsePhase::HeaderLine;
                        None
                    },
                    None => {
                        self.phase = ParsePhase::Failed;
                        Some(
                            SendError::MalformedResponse(
                                String::from_str("from splitting status line"),
                                String::from_str(line),
                            ),
                        )
                    },
                }
            },
            ParsePhase::HeaderLine => {
                if line.unicode_len() != 0 {
                    match crate::strutil::split_once_str(line, ": ") {
                        Some((name, value)) => {
                            let ghost before = self.headers@;
                            self.headers.0.push(Header(name, value));
                            proof {
                                assert(self.headers@ =~= before.push(
                                    split_first(line@, ": "@)->Some_0,
                                ));
                            }
                            None
                        },
                        None => {
                            self.phase = ParsePhase::Failed;
                            Some(
                                SendError::MalformedResponse(
                                    String::from_str("from splitting header"),
                                    String::from_str(line),
                                ),
                            )
                        },
                    }
                } else {
                    if headers_chunked(&self.headers) {
                        self.phase = ParsePhase::ChunkSize;
                        None
                    } else {
                        match self.headers.get("Content-Length") {
                            Some(v) => {
                                match crate::strutil::parse_usize_dec(v.as_str()) {
                                    Some(n) => {
                                        if n == 0 {
                                            self.phase = ParsePhase::Done;
                                        } else {
                                            self.phase = ParsePhase::BodyData { size: n };
                                        }
                                        None
                                    },
                                    None => {
                                        self.phase = ParsePhase::Failed;
                                        Some(
                                            SendError::MalformedResponse(
                                                String::from_str("from parsing Content-Length"),
                                                v,
                                            ),
                                        )
                                    },
                                }
                            },
                            None => {
                                self.phase = ParsePhase::Failed;
                                Some(
                                    SendError::MalformedResponse(
                                        String::from_str(
                                            "No/Malformed Content-Length/Transfer-Encoding Header",
                                        ),
                                        String::from_str(line),
                                    ),
                                )
                            },
                        }
                    }
                }
            },
            ParsePhase::ChunkSize => {
                if line.unicode_len() == 0 {
                    None
                } else {
                    match crate::strutil::parse_usize_hex(line) {
                        Some(n) => {
                            if n == 0 {
                                self.phase = ParsePhase::Done;
                            } else {
                                self.phase = ParsePhase::ChunkData { size: n };
                            }
                            None
                        },
                        None => {
                            self.phase = ParsePhase::Failed;
                            Some(
                                SendError::MalformedResponse(
                                    String::from_str("from parsing chunk size"),
                                    String::from_str(line),
                                ),
                            )
                        },
                    }
                }
            },
            _ => {
                None
            },
        }
    }

    /// Feed the block of body data the machine asked for, already decoded.
    /// A chunk returns the machine to reading chunk sizes; a length-delimited
    /// body completes the response.
    pub fn feed_data(&mut self, data: &str)
        requires
            old(self).phase is ChunkData || old(self).phase is BodyData,
        ensures
            final(self).body@ == old(self).body@ + data@,
            final(self).code == old(self).code,
            final(self).text@ == old(self).text@,
            final(self).headers@ == old(self).headers@,
            final(self).phase == (if old(self).phase is ChunkData {
                ParsePhase::ChunkSize
            } else {
                ParsePhase::Done
            }),
    {
        self.body.append(data);
        match self.phase {
            ParsePhase::ChunkData { size: _ } => {
                self.phase = ParsePhase::ChunkSize;
            },
            _ => {
                self.phase = ParsePhase::Done;
            },
        }
    }

    /// Take the finished response: the collected status, headers, and body,
    /// with an empty body standing for no body.
    pub fn take_response(self) -> (r: Response)
        requires
            self.phase == ParsePhase::Done,
        ensures
            r@.code == self.code,
            r@.text == self.text@,
            r@.headers == self.headers@,
            r@.body == body_of_text(self.body@),
    {
        let body_opt: Option<String> = if self.body.as_str().unicode_len() == 0 {
            None
        } else {
            Some(self.body)
        };
        Response {
            status: StatusCode { code: self.code, text: self.text },
            headers: self.headers,
            body: body_opt,
        }
    }
}

} // verus!
