use lsp_msg::framing::{ends_header_block, outgoing_frame, parse_usize_bytes, read_msg_text, write_msg_text, FrameError};

#[test]
fn reads_ping_request_frame() {
    let body = "{\"jsonrpc\":\"2.0\",\"id\":1,\"method\":\"ping\",\"params\":{}}";
    let input = format!("Content-Length: 52\r\n\r\n{}", body);
    let frame = read_msg_text(input.as_bytes()).unwrap().unwrap();
    assert_eq!(frame.text, body);
    assert_eq!(frame.consumed, input.len());
    let v: serde_json::Value = serde_json::from_str(&frame.text).unwrap();
    assert_eq!(v.get("id").and_then(|x| x.as_i64()), Some(1));
    assert_eq!(v.get("method").and_then(|x| x.as_str()), Some("ping"));
}

#[test]
fn writes_pong_response_frame() {
    let body = "{\"jsonrpc\":\"2.0\",\"id\":1,\"result\":\"pong\"}";
    let out = write_msg_text(body);
    let expected = format!("Content-Length: 40\r\n\r\n{}", body);
    assert_eq!(out, expected.as_bytes().to_vec());
}

#[test]
fn write_counts_bytes_not_chars() {
    let out = write_msg_text("é");
    assert_eq!(out, b"Content-Length: 2\r\n\r\n\xc3\xa9".to_vec());
    let empty = write_msg_text("");
    assert_eq!(empty, b"Content-Length: 0\r\n\r\n".to_vec());
}

#[test]
fn missing_content_length_is_an_error() {
    let r = read_msg_text(b"Content-Type: text\r\n\r\n{}");
    assert!(matches!(r, Err(FrameError::MissingContentLength)));
}

#[test]
fn header_without_crlf_is_an_error() {
    let r = read_msg_text(b"Content-Length: 2\n\r\n{}");
    assert!(matches!(r, Err(FrameError::MalformedHeader)));
    let r = read_msg_text(b"Content-Length: 2");
    assert!(matches!(r, Err(FrameError::MalformedHeader)));
}

#[test]
fn header_without_separator_is_an_error() {
    let r = read_msg_text(b"Content-Length 2\r\n\r\n{}");
    assert!(matches!(r, Err(FrameError::MalformedHeader)));
}

#[test]
fn bad_content_length_is_an_error() {
    let r = read_msg_text(b"Content-Length: two\r\n\r\n{}");
    assert!(matches!(r, Err(FrameError::BadContentLength)));
    let r = read_msg_text(b"Content-Length: 99999999999999999999999\r\n\r\n{}");
    assert!(matches!(r, Err(FrameError::BadContentLength)));
}

#[test]
fn empty_input_is_clean_end_of_stream() {
    assert!(matches!(read_msg_text(b""), Ok(None)));
}

#[test]
fn short_payload_is_an_error() {
    let r = read_msg_text(b"Content-Length: 10\r\n\r\n{}");
    assert!(matches!(r, Err(FrameError::UnexpectedEof)));
}

#[test]
fn invalid_utf8_payload_is_an_error() {
    let r = read_msg_text(b"Content-Length: 2\r\n\r\n\xff\xfe");
    assert!(matches!(r, Err(FrameError::InvalidUtf8)));
}

#[test]
fn reader_stops_at_declared_length() {
    let r = read_msg_text(b"Content-Length: 2\r\n\r\n{}Content-Length: 5\r\n").unwrap().unwrap();
    assert_eq!(r.text, "{}");
    assert_eq!(r.consumed, 23);
}

#[test]
fn header_names_ignore_case_and_unknown_headers_are_skipped() {
    let input = b"content-type: application/json\r\nCONTENT-LENGTH: 3\r\n\r\nabcdef";
    let r = read_msg_text(input).unwrap().unwrap();
    assert_eq!(r.text, "abc");
    assert_eq!(r.consumed, input.len() - 3);
}

#[test]
fn written_frame_reads_back() {
    let text = "{\"jsonrpc\":\"2.0\",\"method\":\"exit\"}";
    let mut bytes = write_msg_text(text);
    let len = bytes.len();
    bytes.extend_from_slice(b"trailing");
    let r = read_msg_text(&bytes).unwrap().unwrap();
    assert_eq!(r.text, text);
    assert_eq!(r.consumed, len);
}

#[test]
fn parses_content_length_values() {
    assert_eq!(parse_usize_bytes(b"52"), Some(52));
    assert_eq!(parse_usize_bytes(b"+7"), Some(7));
    assert_eq!(parse_usize_bytes(b"+"), None);
    assert_eq!(parse_usize_bytes(b""), None);
    assert_eq!(parse_usize_bytes(b"-1"), None);
    assert_eq!(parse_usize_bytes(b"1 "), None);
}

#[test]
fn transcoder_failure_falls_back_to_json() {
    let out = outgoing_frame(Err("no".to_string()), "{}".to_string());
    assert_eq!(out, b"Content-Length: 2\r\n\r\n{}".to_vec());
    let out = outgoing_frame(Ok("xyz".to_string()), "{}".to_string());
    assert_eq!(out, b"Content-Length: 3\r\n\r\nxyz".to_vec());
}

#[test]
fn header_block_stop_rule() {
    assert!(ends_header_block(b"\r\n"));
    assert!(ends_header_block(b"Content-Length: 3\n"));
    assert!(ends_header_block(b"Content-Len"));
    assert!(!ends_header_block(b"Content-Length: 3\r\n"));
}
