//! Writing a message and reading it back across the document layer.

use ls_core::json_parse::parse_json;
use ls_core::json::write_json;
use ls_core::rpc::{decode_in, encode_in, InBody, InMessage, RequestId};

#[test]
fn shutdown_request_round_trips() {
    let m = InMessage::Request { id: RequestId::Int(5), body: InBody::Shutdown };
    let text = write_json(&encode_in(&m));
    assert_eq!(text, "{\"id\":5,\"method\":\"shutdown\",\"jsonrpc\":\"2.0\"}");
    let back = decode_in(&parse_json(&text).unwrap()).unwrap();
    match back {
        InMessage::Request { id: RequestId::Int(5), body: InBody::Shutdown } => {},
        _ => panic!("round trip changed the message"),
    }
}

#[test]
fn definition_request_round_trips() {
    let m = InMessage::Request {
        id: RequestId::Text("k".to_string()),
        body: InBody::Definition {
            line: 2,
            character: 7,
            uri: "file:///a/b-c.html".to_string(),
        },
    };
    let text = write_json(&encode_in(&m));
    assert_eq!(
        text,
        "{\"id\":\"k\",\"method\":\"textDocument/definition\",\"params\":{\"position\":{\"character\":7,\"line\":2},\"textDocument\":{\"uri\":\"file:///a/b-c.html\"}},\"jsonrpc\":\"2.0\"}"
    );
    let back = decode_in(&parse_json(&text).unwrap()).unwrap();
    match back {
        InMessage::Request { id: RequestId::Text(k), body: InBody::Definition { line, character, uri } } => {
            assert_eq!(k, "k");
            assert_eq!(line, 2);
            assert_eq!(character, 7);
            assert_eq!(uri, "file:///a/b-c.html");
        },
        _ => panic!("round trip changed the message"),
    }
}

#[test]
fn exit_notification_round_trips() {
    let text = write_json(&encode_in(&InMessage::Exit));
    assert_eq!(text, "{\"method\":\"exit\",\"jsonrpc\":\"2.0\"}");
    let back = decode_in(&parse_json(&text).unwrap()).unwrap();
    assert!(matches!(back, InMessage::Exit));
}

#[test]
fn initialized_notification_round_trips() {
    let text = write_json(&encode_in(&InMessage::Initialized));
    assert_eq!(text, "{\"method\":\"initialized\",\"params\":{},\"jsonrpc\":\"2.0\"}");
    let back = decode_in(&parse_json(&text).unwrap()).unwrap();
    assert!(matches!(back, InMessage::Initialized));
}

#[test]
fn negative_integer_id_round_trips() {
    let m = InMessage::Request { id: RequestId::Int(-3), body: InBody::Shutdown };
    let text = write_json(&encode_in(&m));
    assert_eq!(text, "{\"id\":-3,\"method\":\"shutdown\",\"jsonrpc\":\"2.0\"}");
    let back = decode_in(&parse_json(&text).unwrap()).unwrap();
    match back {
        InMessage::Request { id: RequestId::Int(n), body: InBody::Shutdown } => {
            assert_eq!(n, -3);
        },
        _ => panic!("round trip changed the message"),
    }
}
