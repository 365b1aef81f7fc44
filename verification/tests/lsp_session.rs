use coder::json::JsonValue;
use coder::lsp::LspClientMsg;
use coder::lsp_session::{frame_header, header_line, HeaderLine, LspEvent, LspSession, PendingKind};

fn s(x: &str) -> JsonValue {
    JsonValue::Str(x.to_string())
}
fn n(x: i128) -> JsonValue {
    JsonValue::Number(Some(x))
}
fn obj(fields: Vec<(&str, JsonValue)>) -> JsonValue {
    JsonValue::Object(fields.into_iter().map(|(k, v)| (k.to_string(), v)).collect())
}
fn method_of(v: &JsonValue) -> Option<String> {
    v.get_str("method").map(|m| m.to_string())
}

#[test]
fn session_starts_with_initialize() {
    let (sess, init) = LspSession::start("/w", 42);
    assert_eq!(sess.next_id, 2);
    assert_eq!(sess.pending, vec![(1, PendingKind::Initialize)]);
    assert!(!sess.initialized);
    assert_eq!(method_of(&init).as_deref(), Some("initialize"));
    assert_eq!(init.get("id").and_then(|v| v.as_i64()), Some(1));
    let params = init.get("params").unwrap();
    assert_eq!(params.get_str("rootUri"), Some("file:///w"));
    assert_eq!(params.get_u64("processId"), Some(42));
}

#[test]
fn intents_wait_for_initialize_then_flush_in_order() {
    let (mut sess, _) = LspSession::start("/w", 1);
    let open = LspClientMsg::DidOpen {
        uri: "file:///w/a.rs".to_string(),
        language_id: "rust".to_string(),
        version: 1,
        text: "fn main() {}".to_string(),
    };
    assert!(sess.on_intent(open).is_none());
    let complete = LspClientMsg::Completion { uri: "file:///w/a.rs".to_string(), line: 0, character: 3, token: (0, 1) };
    assert!(sess.on_intent(complete).is_none());
    assert_eq!(sess.queue.len(), 2);
    // An unknown response id is dropped.
    let stray = sess.on_frame(&obj(vec![("id", n(9)), ("result", JsonValue::Null)]));
    assert!(stray.writes.is_empty() && stray.event.is_none());
    // The answer to initialize.
    let out = sess.on_frame(&obj(vec![("jsonrpc", s("2.0")), ("id", n(1)), ("result", obj(vec![]))]));
    assert!(matches!(out.event, Some(LspEvent::Initialized)));
    assert!(sess.initialized);
    assert!(sess.queue.is_empty());
    let methods: Vec<Option<String>> = out.writes.iter().map(method_of).collect();
    assert_eq!(
        methods,
        vec![
            Some("initialized".to_string()),
            Some("textDocument/didOpen".to_string()),
            Some("textDocument/completion".to_string())
        ]
    );
    assert_eq!(out.writes[2].get("id").and_then(|v| v.as_i64()), Some(2));
    assert_eq!(sess.pending, vec![(2, PendingKind::Completion((0, 1)))]);
    assert_eq!(sess.next_id, 3);
    // Once initialized, an intent is written at once.
    let fmt = sess.on_intent(LspClientMsg::Formatting { uri: "file:///w/a.rs".to_string(), token: (0, 2) }).unwrap();
    assert_eq!(method_of(&fmt).as_deref(), Some("textDocument/formatting"));
    let options = fmt.get("params").unwrap().get("options").unwrap();
    assert_eq!(options.get_u64("tabSize"), Some(4));
    // The completion answer goes to the editor with its token.
    let items = JsonValue::Array(vec![obj(vec![("label", s("len"))])]);
    let out = sess.on_frame(&obj(vec![("id", n(2)), ("result", items)]));
    match out.event {
        Some(LspEvent::Completions(token, items)) => {
            assert_eq!(token, (0, 1));
            assert_eq!(items.len(), 1);
            assert_eq!(items[0].label, "len");
        }
        _ => panic!("completions expected"),
    }
    assert_eq!(sess.pending, vec![(3, PendingKind::Formatting((0, 2)))]);
}

#[test]
fn server_requests_are_answered_and_diagnostics_passed_on() {
    let (mut sess, _) = LspSession::start("/w", 1);
    let req = obj(vec![
        ("id", n(7)),
        ("method", s("workspace/configuration")),
        ("params", obj(vec![("items", JsonValue::Array(vec![obj(vec![]), obj(vec![])]))])),
    ]);
    let out = sess.on_frame(&req);
    assert_eq!(out.writes.len(), 1);
    assert_eq!(out.writes[0].get("id").and_then(|v| v.as_i64()), Some(7));
    match out.writes[0].get("result") {
        Some(JsonValue::Array(a)) => assert!(a.len() == 2 && a.iter().all(|v| v.is_null())),
        _ => panic!("one null per item"),
    }
    let other = sess.on_frame(&obj(vec![("id", n(8)), ("method", s("window/workDoneProgress/create"))]));
    assert!(matches!(other.writes[0].get("result"), Some(JsonValue::Null)));
    let diag = obj(vec![
        ("method", s("textDocument/publishDiagnostics")),
        ("params", obj(vec![("uri", s("file:///w/a.rs")), ("diagnostics", JsonValue::Array(vec![]))])),
    ]);
    match sess.on_frame(&diag).event {
        Some(LspEvent::Diagnostics(path, ds)) => {
            assert_eq!(path, "/w/a.rs");
            assert!(ds.is_empty());
        }
        _ => panic!("diagnostics expected"),
    }
    let note = sess.on_frame(&obj(vec![("method", s("$/progress"))]));
    assert!(note.writes.is_empty() && note.event.is_none());
}

#[test]
fn content_length_framing() {
    assert_eq!(frame_header(12), "Content-Length: 12\r\n\r\n");
    assert_eq!(header_line("Content-Length: 42\r\n"), HeaderLine::Length(Some(42)));
    assert_eq!(header_line("Content-Length:7"), HeaderLine::Length(Some(7)));
    assert_eq!(header_line("Content-Length: x\r\n"), HeaderLine::Length(None));
    assert_eq!(header_line("Content-Type: application/vscode-jsonrpc\r\n"), HeaderLine::Other);
    assert_eq!(header_line("\r\n"), HeaderLine::End);
}

#[test]
fn request_ids_stay_distinct_and_increasing() {
    let (mut sess, _) = LspSession::start("/w", 1);
    for v in 0..3u64 {
        sess.on_intent(LspClientMsg::Formatting { uri: "file:///w/a".to_string(), token: (0, v) });
    }
    let _ = sess.on_frame(&obj(vec![("id", n(1)), ("result", JsonValue::Null)]));
    let ids: Vec<i64> = sess.pending.iter().map(|p| p.0).collect();
    assert_eq!(ids, vec![2, 3, 4]);
    assert!(ids.iter().all(|i| *i < sess.next_id));
    let _ = sess.on_frame(&obj(vec![("id", n(3)), ("result", JsonValue::Array(vec![]))]));
    assert_eq!(sess.pending.iter().map(|p| p.0).collect::<Vec<_>>(), vec![2, 4]);
}
