use rusty_rivens::error::SendError;
use rusty_rivens::parser::{ParserInstr, ResponseParser};

#[test]
fn chunked_body_is_reassembled_in_order() {
    // the chunk sequence 4/Wiki, 5/pedia, E/" in\r\n\r\nchunks." ends in the
    // zero chunk and reassembles to one body
    let mut p = ResponseParser::new();
    assert!(matches!(p.instr(), ParserInstr::NeedLine));
    assert!(p.feed_line("HTTP/1.1 200 OK").is_none());
    assert!(p.feed_line("Transfer-Encoding: chunked").is_none());
    assert!(p.feed_line("").is_none());

    assert!(matches!(p.instr(), ParserInstr::NeedLine));
    assert!(p.feed_line("4").is_none());
    assert!(matches!(p.instr(), ParserInstr::NeedData(4)));
    p.feed_data("Wiki");

    assert!(p.feed_line("").is_none()); // the CRLF after a chunk reads as a blank line
    assert!(p.feed_line("5").is_none());
    assert!(matches!(p.instr(), ParserInstr::NeedData(5)));
    p.feed_data("pedia");

    assert!(p.feed_line("").is_none());
    assert!(p.feed_line("E").is_none());
    assert!(matches!(p.instr(), ParserInstr::NeedData(14)));
    p.feed_data(" in\r\n\r\nchunks.");

    assert!(p.feed_line("").is_none());
    assert!(p.feed_line("0").is_none());
    assert!(matches!(p.instr(), ParserInstr::Finished));

    let resp = p.take_response();
    assert_eq!(resp.body(), Some("Wikipedia in\r\n\r\nchunks.".to_string()));
    assert_eq!(resp.status().code, 200);
}

#[test]
fn content_length_body_is_read_exactly() {
    let mut p = ResponseParser::new();
    assert!(p.feed_line("HTTP/1.1 200 OK").is_none());
    assert!(p.feed_line("Content-Length: 5").is_none());
    assert!(p.feed_line("").is_none());
    assert!(matches!(p.instr(), ParserInstr::NeedData(5)));
    p.feed_data("hello");
    assert!(matches!(p.instr(), ParserInstr::Finished));
    let resp = p.take_response();
    assert_eq!(resp.body(), Some("hello".to_string()));
    assert_eq!(resp.body().unwrap().len(), 5);
}

#[test]
fn short_body_keeps_the_parser_waiting() {
    // fewer bytes than declared never complete the parse: the machine still
    // asks for data, so a driver whose read timed out reports a timeout, not
    // a truncated success
    let mut p = ResponseParser::new();
    assert!(p.feed_line("HTTP/1.1 200 OK").is_none());
    assert!(p.feed_line("Content-Length: 5").is_none());
    assert!(p.feed_line("").is_none());
    assert!(matches!(p.instr(), ParserInstr::NeedData(5)));
    // the driver found only three bytes before its deadline; nothing was fed
    assert!(matches!(p.instr(), ParserInstr::NeedData(5)));
}

#[test]
fn zero_content_length_means_no_body() {
    let mut p = ResponseParser::new();
    assert!(p.feed_line("HTTP/1.1 204 No Content").is_none());
    assert!(p.feed_line("Content-Length: 0").is_none());
    assert!(p.feed_line("").is_none());
    assert!(matches!(p.instr(), ParserInstr::Finished));
    let resp = p.take_response();
    assert_eq!(resp.body(), None);
    assert_eq!(resp.status().code, 204);
    assert_eq!(resp.status().text, "No Content");
}

#[test]
fn missing_framing_header_is_malformed() {
    let mut p = ResponseParser::new();
    assert!(p.feed_line("HTTP/1.1 200 OK").is_none());
    assert!(p.feed_line("Content-Type: application/json").is_none());
    let err = p.feed_line("").unwrap();
    assert!(matches!(err, SendError::MalformedResponse(_, _)));
    assert!(matches!(p.instr(), ParserInstr::Errored));
}

#[test]
fn unparsable_content_length_is_malformed() {
    let mut p = ResponseParser::new();
    assert!(p.feed_line("HTTP/1.1 200 OK").is_none());
    assert!(p.feed_line("Content-Length: five").is_none());
    let err = p.feed_line("").unwrap();
    assert!(matches!(err, SendError::MalformedResponse(_, _)));
}

#[test]
fn unparsable_chunk_size_is_malformed() {
    let mut p = ResponseParser::new();
    assert!(p.feed_line("HTTP/1.1 200 OK").is_none());
    assert!(p.feed_line("Transfer-Encoding: chunked").is_none());
    assert!(p.feed_line("").is_none());
    let err = p.feed_line("zz!").unwrap();
    assert!(matches!(err, SendError::MalformedResponse(_, _)));
}

#[test]
fn bad_status_line_is_malformed() {
    let mut p = ResponseParser::new();
    let err = p.feed_line("HTTP/1.1").unwrap();
    assert!(matches!(err, SendError::MalformedResponse(_, _)));
    assert!(matches!(p.instr(), ParserInstr::Errored));
}

#[test]
fn headers_are_collected_in_order() {
    let mut p = ResponseParser::new();
    assert!(p.feed_line("HTTP/1.1 200 OK").is_none());
    assert!(p.feed_line("Server: tester").is_none());
    assert!(p.feed_line("Content-Length: 2").is_none());
    assert!(p.feed_line("").is_none());
    p.feed_data("[]");
    let resp = p.take_response();
    assert_eq!(resp.headers().get("server"), Some("tester".to_string()));
    assert_eq!(resp.headers().get("Content-Length"), Some("2".to_string()));
    assert_eq!(resp.body(), Some("[]".to_string()));
}

#[test]
fn chunked_header_is_found_anywhere_and_any_case() {
    let mut p = ResponseParser::new();
    assert!(p.feed_line("HTTP/1.1 200 OK").is_none());
    assert!(p.feed_line("Server: tester").is_none());
    assert!(p.feed_line("transfer-encoding: CHUNKED").is_none());
    assert!(p.feed_line("").is_none());
    assert!(p.feed_line("2").is_none());
    assert!(matches!(p.instr(), ParserInstr::NeedData(2)));
    p.feed_data("ok");
    assert!(p.feed_line("").is_none());
    assert!(p.feed_line("0").is_none());
    assert_eq!(p.take_response().body(), Some("ok".to_string()));
}
