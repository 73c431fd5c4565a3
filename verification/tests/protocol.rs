//! The wire layers: framing, header reading, JSON parsing and writing.

use ls_core::frame::{frame_message, HeaderFeed, HeaderReader};
use ls_core::json::{write_json, Json};
use ls_core::json_parse::parse_json;

fn framed(body: &str) -> String {
    format!("Content-Length: {}\r\n\r\n{}", body.len(), body)
}

#[test]
fn frame_ascii_body() {
    let body = "{\"id\":1}";
    assert_eq!(frame_message(body), framed(body));
}

#[test]
fn frame_counts_bytes_not_characters() {
    // a two-byte and a three-byte character: 1 + 2 + 3 = 6 bytes, 3 chars
    let body = "a\u{00e9}\u{20ac}";
    assert_eq!(body.chars().count(), 3);
    assert_eq!(body.len(), 6);
    let framed_text = frame_message(body);
    assert!(framed_text.starts_with("Content-Length: 6\r\n\r\n"));
    assert_eq!(framed_text, framed(body));
}

#[test]
fn header_reader_takes_content_length() {
    let mut r = HeaderReader::new();
    assert!(matches!(r.feed_line("Content-Length: 42\r\n"), HeaderFeed::More));
    assert!(matches!(r.feed_line("\r\n"), HeaderFeed::End));
    assert_eq!(r.finish(), Some(42));
}

#[test]
fn header_reader_ignores_other_headers() {
    let mut r = HeaderReader::new();
    assert!(matches!(r.feed_line("Content-Type: application/json\r\n"), HeaderFeed::More));
    assert!(matches!(r.feed_line("Content-Length: 7\r\n"), HeaderFeed::More));
    assert!(matches!(r.feed_line("\r\n"), HeaderFeed::End));
    assert_eq!(r.finish(), Some(7));
}

#[test]
fn header_reader_missing_content_length() {
    let mut r = HeaderReader::new();
    assert!(matches!(r.feed_line("Content-Type: application/json\r\n"), HeaderFeed::More));
    assert!(matches!(r.feed_line("\r\n"), HeaderFeed::End));
    assert_eq!(r.finish(), None);
}

#[test]
fn header_reader_rejects_line_without_colon() {
    let mut r = HeaderReader::new();
    assert!(matches!(r.feed_line("no colon here\r\n"), HeaderFeed::Bad));
}

#[test]
fn header_reader_rejects_bad_length() {
    let mut r = HeaderReader::new();
    assert!(matches!(r.feed_line("Content-Length: seven\r\n"), HeaderFeed::Bad));
}

#[test]
fn parse_rejects_garbage() {
    assert!(parse_json("not json").is_none());
    assert!(parse_json("{\"a\":}").is_none());
    assert!(parse_json("[1,]").is_none());
    assert!(parse_json("01").is_none());
    assert!(parse_json("{\"a\":1} trailing").is_none());
}

#[test]
fn parse_accepts_document() {
    let j = parse_json(" {\"a\": [1, true, null, \"x\"], \"b\": {\"c\": -2.5e3}} ").unwrap();
    // writing it back gives the canonical, whitespace-free form
    assert_eq!(
        write_json(&j),
        "{\"a\":[1,true,null,\"x\"],\"b\":{\"c\":-2.5e3}}"
    );
}

#[test]
fn parse_decodes_escapes() {
    let j = parse_json("\"a\\u0041\\n\\\\ \\u00e9 \\ud83d\\ude00\"").unwrap();
    match j {
        Json::Str(s) => assert_eq!(s, "aA\n\\ \u{00e9} \u{1f600}"),
        _ => panic!("not a string"),
    }
}

#[test]
fn parse_rejects_lone_surrogate() {
    assert!(parse_json("\"\\ud83d\"").is_none());
}

#[test]
fn write_escapes_controls_and_quotes() {
    let j = Json::Str(String::from("a\"b\\c\n"));
    assert_eq!(write_json(&j), "\"a\\\"b\\\\c\\u000a\"");
}

#[test]
fn text_round_trip_for_written_document() {
    let j = Json::Obj(vec![
        ("id".to_string(), Json::Num("1".to_string())),
        ("method".to_string(), Json::Str("shutdown".to_string())),
        ("jsonrpc".to_string(), Json::Str("2.0".to_string())),
    ]);
    let text = write_json(&j);
    assert_eq!(text, "{\"id\":1,\"method\":\"shutdown\",\"jsonrpc\":\"2.0\"}");
    let back = parse_json(&text).unwrap();
    assert_eq!(write_json(&back), text);
}

#[test]
fn header_value_whitespace_is_trimmed() {
    let mut r = HeaderReader::new();
    assert!(matches!(r.feed_line("Content-Length:   19  \r\n"), HeaderFeed::More));
    assert!(matches!(r.feed_line("\r\n"), HeaderFeed::End));
    assert_eq!(r.finish(), Some(19));
}
