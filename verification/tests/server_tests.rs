use toy_lsp::dispatch::handle_message;
use toy_lsp::dispatch::handle_notification;
use toy_lsp::dispatch::handle_request;
use toy_lsp::dispatch::LogLevel;
use toy_lsp::hover::HoverParams;
use toy_lsp::hover::Position;
use toy_lsp::hover::TextDocumentIdentifier;
use toy_lsp::json::Json;
use toy_lsp::protocol::classify;
use toy_lsp::protocol::ErrorCode;
use toy_lsp::protocol::Incoming;
use toy_lsp::state::State;

fn frame(body: &str) -> Vec<u8> {
    format!("Content-Length: {}\r\n\r\n{}", body.len(), body).into_bytes()
}

fn has_warning(logs: &[toy_lsp::dispatch::LogEntry]) -> bool {
    logs.iter().any(|e| matches!(e.level, LogLevel::Warn))
}

#[test]
fn initialize_yields_capabilities_and_server_info() {
    let mut state = State::new();
    let request = frame(
        "{\"jsonrpc\":\"2.0\",\"id\":1,\"method\":\"initialize\",\"params\":{\"clientInfo\":{\"name\":\"x\"}}}",
    );
    let outcome = handle_message(&mut state, &request);
    let expected = frame(
        "{\"jsonrpc\":\"2.0\",\"id\":1,\"result\":{\"capabilities\":{\"textDocumentSync\":1,\"hoverProvider\":true},\"serverInfo\":{\"name\":\"toy-lsp\",\"version\":\"0.1.0\"}},\"error\":null}",
    );
    assert_eq!(outcome.response, Some(expected));
}

#[test]
fn did_open_then_hover_reports_uri_and_length() {
    let mut state = State::new();
    let open = frame(
        "{\"jsonrpc\":\"2.0\",\"method\":\"textDocument/didOpen\",\"params\":{\"textDocument\":{\"uri\":\"file:///a.txt\",\"languageId\":\"text\",\"version\":1,\"text\":\"hello\"}}}",
    );
    let outcome = handle_message(&mut state, &open);
    assert!(outcome.response.is_none());
    let hover = frame(
        "{\"jsonrpc\":\"2.0\",\"id\":2,\"method\":\"textDocument/hover\",\"params\":{\"textDocument\":{\"uri\":\"file:///a.txt\"},\"position\":{\"line\":0,\"character\":0}}}",
    );
    let outcome = handle_message(&mut state, &hover);
    let expected = frame(
        "{\"jsonrpc\":\"2.0\",\"id\":2,\"result\":{\"contents\":\"uri: file:///a.txt, length: 5\"},\"error\":null}",
    );
    assert_eq!(outcome.response, Some(expected));
    assert!(!has_warning(&outcome.logs));
}

#[test]
fn hover_unknown_uri_is_empty_and_warned_not_an_error() {
    let mut state = State::new();
    let hover = frame(
        "{\"jsonrpc\":\"2.0\",\"id\":7,\"method\":\"textDocument/hover\",\"params\":{\"textDocument\":{\"uri\":\"file:///nope\"},\"position\":{\"line\":0,\"character\":0}}}",
    );
    let outcome = handle_message(&mut state, &hover);
    // an empty-content result, never an error response
    let expected = frame("{\"jsonrpc\":\"2.0\",\"id\":7,\"result\":{\"contents\":\"\"},\"error\":null}");
    assert_eq!(outcome.response, Some(expected));
    assert!(has_warning(&outcome.logs));
}

#[test]
fn did_change_last_write_wins() {
    let mut state = State::new();
    let open = frame(
        "{\"jsonrpc\":\"2.0\",\"method\":\"textDocument/didOpen\",\"params\":{\"textDocument\":{\"uri\":\"file:///a.txt\",\"languageId\":\"text\",\"version\":1,\"text\":\"first\"}}}",
    );
    handle_message(&mut state, &open);
    let change = frame(
        "{\"jsonrpc\":\"2.0\",\"method\":\"textDocument/didChange\",\"params\":{\"textDocument\":{\"uri\":\"file:///a.txt\",\"version\":2},\"contentChanges\":[{\"text\":\"second one\"},{\"text\":\"third\"}]}}",
    );
    let outcome = handle_message(&mut state, &change);
    assert!(outcome.response.is_none());
    // only the last event's text survives
    let doc = state.get_document(&"file:///a.txt".to_string()).unwrap();
    assert_eq!(doc.as_str(), "third");
}

#[test]
fn store_insert_and_overwrite() {
    let mut state = State::new();
    assert!(state.get_document(&"u".to_string()).is_none());
    state.open_document("u".to_string(), "one".to_string());
    assert_eq!(state.get_document(&"u".to_string()).unwrap().as_str(), "one");
    state.update_document("u".to_string(), "two".to_string());
    assert_eq!(state.get_document(&"u".to_string()).unwrap().as_str(), "two");
    state.open_document("v".to_string(), "other".to_string());
    assert_eq!(state.get_document(&"u".to_string()).unwrap().as_str(), "two");
    assert_eq!(state.get_document(&"v".to_string()).unwrap().as_str(), "other");
}

#[test]
fn hover_reads_without_mutating() {
    let mut state = State::new();
    state.open_document("file:///a.txt".to_string(), "hello".to_string());
    let params = HoverParams {
        text_document: TextDocumentIdentifier { uri: "file:///a.txt".to_string() },
        position: Position { line: 3, character: 9 },
    };
    let response = state.hover(params);
    let json = response.to_json();
    match json {
        Json::Obj(members) => {
            assert_eq!(members.len(), 1);
            assert_eq!(members[0].key, "contents");
            assert_eq!(members[0].val, Json::Str("uri: file:///a.txt, length: 5".to_string()));
        }
        other => panic!("expected an object, got {:?}", other),
    }
}

#[test]
fn unrecognized_request_gets_no_response_and_a_warning() {
    let mut state = State::new();
    let request = frame("{\"jsonrpc\":\"2.0\",\"id\":3,\"method\":\"shutdown\",\"params\":null}");
    let outcome = handle_message(&mut state, &request);
    assert!(outcome.response.is_none());
    assert!(has_warning(&outcome.logs));
}

#[test]
fn bad_params_drop_the_message_with_a_warning() {
    let mut state = State::new();
    // hover params without a position do not decode
    let request = frame(
        "{\"jsonrpc\":\"2.0\",\"id\":4,\"method\":\"textDocument/hover\",\"params\":{\"textDocument\":{\"uri\":\"file:///a.txt\"}}}",
    );
    let outcome = handle_message(&mut state, &request);
    assert!(outcome.response.is_none());
    assert!(has_warning(&outcome.logs));
}

#[test]
fn initialized_notification_is_acknowledged_silently() {
    let mut state = State::new();
    let note = frame("{\"jsonrpc\":\"2.0\",\"method\":\"initialized\",\"params\":{}}");
    let outcome = handle_message(&mut state, &note);
    assert!(outcome.response.is_none());
    assert!(!has_warning(&outcome.logs));
}

#[test]
fn malformed_frame_is_dropped_with_a_warning() {
    let mut state = State::new();
    let outcome = handle_message(&mut state, b"Length: 5\r\n\r\nhello");
    assert!(outcome.response.is_none());
    assert!(has_warning(&outcome.logs));
}

#[test]
fn classification_by_id_presence() {
    let with_id = frame("{\"jsonrpc\":\"2.0\",\"id\":9,\"method\":\"m\",\"params\":null}");
    let decoded = toy_lsp::codec::decode_message(&with_id).unwrap();
    match classify(&decoded).unwrap() {
        Incoming::Request(q) => {
            assert_eq!(q.id, 9);
            assert_eq!(q.method, "m");
        }
        _ => panic!("a message with an id is a request"),
    }
    let without_id = frame("{\"jsonrpc\":\"2.0\",\"method\":\"m\",\"params\":null}");
    let decoded = toy_lsp::codec::decode_message(&without_id).unwrap();
    match classify(&decoded).unwrap() {
        Incoming::Notification(n) => assert_eq!(n.method, "m"),
        _ => panic!("a message without an id is a notification"),
    }
}

#[test]
fn envelope_requires_version_method_and_params() {
    let no_params = frame("{\"jsonrpc\":\"2.0\",\"method\":\"m\"}");
    let decoded = toy_lsp::codec::decode_message(&no_params).unwrap();
    assert!(classify(&decoded).is_err());
    let no_method = frame("{\"jsonrpc\":\"2.0\",\"params\":null}");
    let decoded = toy_lsp::codec::decode_message(&no_method).unwrap();
    assert!(classify(&decoded).is_err());
}

#[test]
fn handlers_called_directly() {
    let mut state = State::new();
    let note = frame(
        "{\"jsonrpc\":\"2.0\",\"method\":\"textDocument/didOpen\",\"params\":{\"textDocument\":{\"uri\":\"u\",\"languageId\":\"t\",\"version\":1,\"text\":\"abc\"}}}",
    );
    let decoded = toy_lsp::codec::decode_message(&note).unwrap();
    match classify(&decoded).unwrap() {
        Incoming::Notification(n) => {
            handle_notification(n, &mut state);
        }
        _ => panic!("expected a notification"),
    }
    assert_eq!(state.get_document(&"u".to_string()).unwrap().as_str(), "abc");
    let req = frame(
        "{\"jsonrpc\":\"2.0\",\"id\":1,\"method\":\"initialize\",\"params\":{\"clientInfo\":{\"name\":\"x\",\"version\":\"1\"}}}",
    );
    let decoded = toy_lsp::codec::decode_message(&req).unwrap();
    match classify(&decoded).unwrap() {
        Incoming::Request(q) => {
            let outcome = handle_request(q, &mut state);
            assert!(outcome.response.is_some());
        }
        _ => panic!("expected a request"),
    }
}

#[test]
fn error_code_value() {
    assert_eq!(ErrorCode::ParseError.code(), -32700);
}

#[test]
fn decode_error_messages_name_the_offender() {
    let err = toy_lsp::codec::decode_message(b"Length: 5\r\n\r\nhello").unwrap_err();
    let text = err.message();
    assert!(text.contains("Length: 5"));
    let err = toy_lsp::codec::decode_message(b"Content-Length: 10\r\n\r\nabc").unwrap_err();
    assert_eq!(
        err.message(),
        "declared Content-Length is 10 but only 3 bytes of body data were provided"
    );
}
