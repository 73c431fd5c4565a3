//! The dispatcher and the definition resolver, end to end.

use ls_core::out::LSError;
use ls_core::rpc::RequestId;
use ls_core::server::{LServer, ServerAction};

fn framed(body: &str) -> String {
    format!("Content-Length: {}\r\n\r\n{}", body.len(), body)
}

fn reply_of(action: ServerAction) -> String {
    match action {
        ServerAction::Reply(t) => t,
        _ => panic!("expected a reply"),
    }
}

#[test]
fn initialize_offers_definitions_and_fixed_identity() {
    let mut s = LServer::new();
    let action = s.on_body(
        "{\"id\":1,\"method\":\"initialize\",\"params\":{\"capabilities\":{\"workspace\":{}}},\"jsonrpc\":\"2.0\"}",
    );
    let expected = "{\"id\":1,\"result\":{\"capabilities\":{\"definitionProvider\":true},\"serverInfo\":{\"name\":\"myls\",\"version\":\"0.0.1\"}},\"jsonrpc\":\"2.0\"}";
    assert_eq!(reply_of(action), framed(expected));
}

#[test]
fn initialize_result_ignores_client_capabilities() {
    let mut s = LServer::new();
    let a = reply_of(s.on_body(
        "{\"id\":1,\"method\":\"initialize\",\"params\":{\"capabilities\":{\"workspace\":{}}},\"jsonrpc\":\"2.0\"}",
    ));
    let b = reply_of(s.on_body(
        "{\"id\":1,\"method\":\"initialize\",\"params\":{\"capabilities\":{\"workspace\":{\"x\":3},\"textDocument\":{\"definition\":{\"linkSupport\":true}}}},\"jsonrpc\":\"2.0\"}",
    ));
    assert_eq!(a, b);
}

#[test]
fn shutdown_returns_null_result() {
    let mut s = LServer::new();
    let action = s.on_body("{\"id\":4,\"method\":\"shutdown\",\"jsonrpc\":\"2.0\"}");
    assert_eq!(
        reply_of(action),
        framed("{\"id\":4,\"result\":null,\"jsonrpc\":\"2.0\"}")
    );
}

#[test]
fn unknown_method_gets_method_not_found() {
    let mut s = LServer::new();
    let action = s.on_body(
        "{\"id\":2,\"method\":\"foo/bar\",\"params\":{},\"jsonrpc\":\"2.0\"}",
    );
    let reply = reply_of(action);
    let expected = "{\"id\":2,\"error\":{\"code\":-32601,\"message\":\"Method not found: 'foo/bar'\"},\"jsonrpc\":\"2.0\"}";
    assert_eq!(reply, framed(expected));
    assert!(reply.contains("foo/bar"));
    assert!(reply.contains("-32601"));
}

#[test]
fn string_id_is_echoed() {
    let mut s = LServer::new();
    let action = s.on_body("{\"id\":\"a7\",\"method\":\"shutdown\",\"jsonrpc\":\"2.0\"}");
    assert_eq!(
        reply_of(action),
        framed("{\"id\":\"a7\",\"result\":null,\"jsonrpc\":\"2.0\"}")
    );
}

#[test]
fn initialize_with_malformed_params_is_unknown_method() {
    // params without the required capabilities member fall back to an
    // unknown request, answered with a method-not-found error
    let mut s = LServer::new();
    let action = s.on_body(
        "{\"id\":9,\"method\":\"initialize\",\"params\":{},\"jsonrpc\":\"2.0\"}",
    );
    let expected = "{\"id\":9,\"error\":{\"code\":-32601,\"message\":\"Method not found: 'initialize'\"},\"jsonrpc\":\"2.0\"}";
    assert_eq!(reply_of(action), framed(expected));
}

#[test]
fn exit_ends_the_session_without_shutdown() {
    let mut s = LServer::new();
    let action = s.on_body("{\"method\":\"exit\",\"jsonrpc\":\"2.0\"}");
    assert!(matches!(action, ServerAction::Exit));
}

#[test]
fn initialized_notification_is_quiet() {
    let mut s = LServer::new();
    let action = s.on_body("{\"method\":\"initialized\",\"params\":{},\"jsonrpc\":\"2.0\"}");
    assert!(matches!(action, ServerAction::Quiet));
}

#[test]
fn ten_consecutive_failures_exit_without_replies() {
    let mut s = LServer::new();
    for _ in 0..9 {
        assert!(matches!(s.on_body("not json at all"), ServerAction::Quiet));
    }
    assert!(matches!(s.on_body("not json at all"), ServerAction::Exit));
}

#[test]
fn a_good_message_resets_the_failure_count() {
    let mut s = LServer::new();
    for _ in 0..9 {
        assert!(matches!(s.on_body("broken"), ServerAction::Quiet));
    }
    assert!(matches!(
        s.on_body("{\"method\":\"initialized\",\"params\":{},\"jsonrpc\":\"2.0\"}"),
        ServerAction::Quiet
    ));
    for _ in 0..9 {
        assert!(matches!(s.on_body("broken"), ServerAction::Quiet));
    }
    assert!(matches!(s.on_body("broken"), ServerAction::Exit));
}

#[test]
fn response_shaped_input_is_a_decode_failure() {
    let mut s = LServer::new();
    assert!(matches!(
        s.on_body("{\"id\":1,\"result\":null,\"jsonrpc\":\"2.0\"}"),
        ServerAction::Quiet
    ));
}

#[test]
fn derived_candidates_in_order() {
    let s = LServer::new();
    assert_eq!(
        s.get_controller_possible_uris("/a/b/x-y.html"),
        vec![
            "/a/b/XYController.ts".to_string(),
            "/a/b/XYDirective.ts".to_string(),
            "/a/b/XY.ts".to_string(),
        ]
    );
}

#[test]
fn candidates_need_the_markup_suffix_and_a_directory() {
    let s = LServer::new();
    assert_eq!(s.get_controller_possible_uris("/a/b/x-y.txt"), Vec::<String>::new());
    assert_eq!(s.get_controller_possible_uris("x.html"), Vec::<String>::new());
}

#[test]
fn candidates_of_longer_stems() {
    let s = LServer::new();
    assert_eq!(
        s.get_controller_possible_uris("file:///srv/app/main-page-view.html"),
        vec![
            "file:///srv/app/MainPageViewController.ts".to_string(),
            "file:///srv/app/MainPageViewDirective.ts".to_string(),
            "file:///srv/app/MainPageView.ts".to_string(),
        ]
    );
}

#[test]
fn definition_request_yields_a_file_task() {
    let mut s = LServer::new();
    let action = s.on_body(
        "{\"id\":3,\"method\":\"textDocument/definition\",\"params\":{\"position\":{\"line\":0,\"character\":10},\"textDocument\":{\"uri\":\"file:///a/x.html\"}},\"jsonrpc\":\"2.0\"}",
    );
    match action {
        ServerAction::Definition(task) => {
            assert_eq!(task.line, 0);
            assert_eq!(task.character, 10);
            assert_eq!(task.uri, "file:///a/x.html");
            assert_eq!(task.html_path, "/a/x.html");
            assert_eq!(
                task.candidates,
                vec![
                    "file:///a/XController.ts".to_string(),
                    "file:///a/XDirective.ts".to_string(),
                    "file:///a/X.ts".to_string(),
                ]
            );
        },
        _ => panic!("expected a definition task"),
    }
}

#[test]
fn definition_with_foreign_scheme_is_invalid_request() {
    let mut s = LServer::new();
    let action = s.on_body(
        "{\"id\":3,\"method\":\"textDocument/definition\",\"params\":{\"position\":{\"line\":0,\"character\":0},\"textDocument\":{\"uri\":\"http://h/x.html\"}},\"jsonrpc\":\"2.0\"}",
    );
    let expected = "{\"id\":3,\"error\":{\"code\":-32600,\"message\":\"Invalid request: unsupported URI scheme: http://h/x.html\"},\"jsonrpc\":\"2.0\"}";
    assert_eq!(reply_of(action), framed(expected));
}

#[test]
fn definition_without_markup_suffix_is_null() {
    let mut s = LServer::new();
    let action = s.on_body(
        "{\"id\":3,\"method\":\"textDocument/definition\",\"params\":{\"position\":{\"line\":0,\"character\":0},\"textDocument\":{\"uri\":\"file:///a/x.txt\"}},\"jsonrpc\":\"2.0\"}",
    );
    assert_eq!(
        reply_of(action),
        framed("{\"id\":3,\"result\":null,\"jsonrpc\":\"2.0\"}")
    );
}

#[test]
fn resolves_vm_property_to_companion_field() {
    let s = LServer::new();
    let html = "<div>{{vm.save()}}</div>";
    let ts = "class XController {\n    save = 1;\n}";
    let reply = s.finish_definition(
        RequestId::Int(7),
        0,
        10,
        Ok(html.to_string()),
        Some(("file:///a/XController.ts".to_string(), ts.to_string())),
    );
    let expected = "{\"id\":7,\"result\":{\"uri\":\"file:///a/XController.ts\",\"range\":{\"start\":{\"character\":4,\"line\":1},\"end\":{\"character\":8,\"line\":1}}},\"jsonrpc\":\"2.0\"}";
    assert_eq!(reply, framed(expected));
}

#[test]
fn no_readable_companion_is_null_not_error() {
    let s = LServer::new();
    let reply = s.finish_definition(
        RequestId::Int(7),
        0,
        10,
        Ok("<div>{{vm.save()}}</div>".to_string()),
        None,
    );
    assert_eq!(reply, framed("{\"id\":7,\"result\":null,\"jsonrpc\":\"2.0\"}"));
}

#[test]
fn cursor_outside_an_expression_is_null() {
    let s = LServer::new();
    let html = "<div>plain text</div>";
    let ts = "class XController {\n    save = 1;\n}";
    let reply = s.finish_definition(
        RequestId::Int(8),
        0,
        7,
        Ok(html.to_string()),
        Some(("file:///a/XController.ts".to_string(), ts.to_string())),
    );
    assert_eq!(reply, framed("{\"id\":8,\"result\":null,\"jsonrpc\":\"2.0\"}"));
}

#[test]
fn companion_without_fields_is_null() {
    let s = LServer::new();
    let html = "<div>{{vm.save()}}</div>";
    let ts = "function save() {}\n";
    let reply = s.finish_definition(
        RequestId::Int(9),
        0,
        10,
        Ok(html.to_string()),
        Some(("file:///a/XController.ts".to_string(), ts.to_string())),
    );
    assert_eq!(reply, framed("{\"id\":9,\"result\":null,\"jsonrpc\":\"2.0\"}"));
}

#[test]
fn unreadable_markup_is_invalid_request() {
    let s = LServer::new();
    let reply = s.finish_definition(
        RequestId::Int(5),
        0,
        0,
        Err("No such file or directory (os error 2)".to_string()),
        None,
    );
    let expected = "{\"id\":5,\"error\":{\"code\":-32600,\"message\":\"Invalid request: Couldn't read HTML: No such file or directory (os error 2)\"},\"jsonrpc\":\"2.0\"}";
    assert_eq!(reply, framed(expected));
}

#[test]
fn oversized_numeric_id_is_a_decode_failure() {
    let mut s = LServer::new();
    assert!(matches!(
        s.on_body("{\"id\":99999999999,\"method\":\"shutdown\",\"jsonrpc\":\"2.0\"}"),
        ServerAction::Quiet
    ));
}

#[test]
fn fractional_position_falls_back_to_unknown_method() {
    let mut s = LServer::new();
    let action = s.on_body(
        "{\"id\":6,\"method\":\"textDocument/definition\",\"params\":{\"position\":{\"line\":1.5,\"character\":0},\"textDocument\":{\"uri\":\"file:///a/x.html\"}},\"jsonrpc\":\"2.0\"}",
    );
    let expected = "{\"id\":6,\"error\":{\"code\":-32601,\"message\":\"Method not found: 'textDocument/definition'\"},\"jsonrpc\":\"2.0\"}";
    assert_eq!(reply_of(action), framed(expected));
}

#[test]
fn missing_jsonrpc_member_is_a_decode_failure() {
    let mut s = LServer::new();
    assert!(matches!(
        s.on_body("{\"id\":1,\"method\":\"shutdown\"}"),
        ServerAction::Quiet
    ));
}

#[test]
fn error_code_table_and_messages() {
    let internal = LSError::InternalError { message: "q".to_string() };
    let invalid = LSError::InvalidRequest { message: "r".to_string() };
    let unknown = LSError::MethodNotFound("m".to_string());
    let decode = LSError::ParseError("d".to_string());
    assert_eq!(internal.code(), -32603);
    assert_eq!(invalid.code(), -32600);
    assert_eq!(unknown.code(), -32601);
    assert_eq!(decode.code(), -32700);
    assert_eq!(internal.message(), "Internal error: q");
    assert_eq!(invalid.message(), "Invalid request: r");
    assert_eq!(unknown.message(), "Method not found: 'm'");
    assert_eq!(decode.message(), "Parsing error: 'd'");
}
