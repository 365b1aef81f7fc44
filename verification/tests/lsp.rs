use coder::json::JsonValue;
use coder::lsp::{
    filter_items, match_score, parse_completions, parse_one_diagnostic, parse_publish_diagnostics,
    parse_text_edits, typed_prefix, word_start, CompletionItem, Severity,
};
use coder::completion::{completion_popup, CompletionKey};
use coder::keys::{KeyCode, KeyEvent};
use coder::uri::{path_to_uri, uri_to_path};

fn s(x: &str) -> JsonValue {
    JsonValue::Str(x.to_string())
}
fn n(x: u64) -> JsonValue {
    JsonValue::Number(Some(x as i128))
}
fn obj(fields: Vec<(&str, JsonValue)>) -> JsonValue {
    JsonValue::Object(fields.into_iter().map(|(k, v)| (k.to_string(), v)).collect())
}

fn item(label: &str, sort: &str) -> CompletionItem {
    CompletionItem {
        label: label.to_string(),
        insert_text: label.to_string(),
        detail: None,
        filter_text: label.to_string(),
        sort_text: sort.to_string(),
    }
}

#[test]
fn uri_round_trip_with_spaces() {
    let p = "/home/user/my file.rs";
    let uri = path_to_uri(p);
    assert_eq!(uri, "file:///home/user/my%20file.rs");
    assert_eq!(uri_to_path(&uri), Some(p.to_string()));
}

#[test]
fn filters_unrelated_items_out() {
    let items = vec![
        item("self::", "a"),
        item("crate::", "b"),
        item("EnableMouseCapture", "c"),
        item("enable_raw_mode", "d"),
    ];
    let kept = filter_items(items, "enab");
    assert_eq!(
        kept.iter().map(|i| &i.label[..]).collect::<Vec<_>>(),
        ["enable_raw_mode", "EnableMouseCapture"],
        "prefix matches first (case-insensitive), non-matches dropped"
    );
}

#[test]
fn empty_prefix_keeps_everything() {
    let items = vec![item("len", "b"), item("iter", "a")];
    let kept = filter_items(items, "");
    assert_eq!(kept.len(), 2);
    assert_eq!(kept[0].label, "iter", "ties fall back to the server's sortText");
}

#[test]
fn subsequence_matches_last() {
    let items = vec![item("enable_raw_mode", "a"), item("erase", "b")];
    let kept = filter_items(items, "erm");
    assert_eq!(kept.iter().map(|i| &i.label[..]).collect::<Vec<_>>(), ["enable_raw_mode"]);
}

#[test]
fn match_tiers() {
    assert_eq!(match_score("foo", ""), Some(0));
    assert_eq!(match_score("Foo", "Fo"), Some(0));
    assert_eq!(match_score("Foo", "fo"), Some(1));
    assert_eq!(match_score("xfoo", "FO"), Some(2));
    assert_eq!(match_score("f_o_o", "foo"), Some(3));
    assert_eq!(match_score("bar", "foo"), None);
}

#[test]
fn equal_ranks_keep_the_server_order() {
    let items = vec![item("ab", "s"), item("ac", "s"), item("ad", "r")];
    let kept = filter_items(items, "a");
    assert_eq!(kept.iter().map(|i| &i.label[..]).collect::<Vec<_>>(), ["ad", "ab", "ac"]);
}

#[test]
fn completions_from_list_and_array() {
    let list = obj(vec![("result", obj(vec![("items", JsonValue::Array(vec![obj(vec![("label", s("foo")), ("detail", s("fn"))])]))]))]);
    let items = parse_completions(&list);
    assert_eq!(items.len(), 1);
    assert_eq!(items[0].label, "foo");
    assert_eq!(items[0].insert_text, "foo");
    assert_eq!(items[0].detail.as_deref(), Some("fn"));

    let arr = obj(vec![("result", JsonValue::Array(vec![obj(vec![("label", s("bar")), ("insertText", s("bar()"))])]))]);
    let items = parse_completions(&arr);
    assert_eq!(items[0].insert_text, "bar()");

    let null = obj(vec![("result", JsonValue::Null)]);
    assert!(parse_completions(&null).is_empty());
}

#[test]
fn completion_text_edit_and_sort_defaults() {
    let it = obj(vec![
        ("label", s("x")),
        ("textEdit", obj(vec![("newText", s("x()"))])),
        ("sortText", s("0001")),
    ]);
    let missing_label = obj(vec![("insertText", s("y"))]);
    let frame = obj(vec![("result", JsonValue::Array(vec![it, missing_label]))]);
    let items = parse_completions(&frame);
    assert_eq!(items.len(), 1);
    assert_eq!(items[0].insert_text, "x()");
    assert_eq!(items[0].filter_text, "x");
    assert_eq!(items[0].sort_text, "0001");
}

fn range(sl: u64, sc: u64, el: u64, ec: u64) -> JsonValue {
    obj(vec![
        ("start", obj(vec![("line", n(sl)), ("character", n(sc))])),
        ("end", obj(vec![("line", n(el)), ("character", n(ec))])),
    ])
}

#[test]
fn diagnostics_parse() {
    let frame = obj(vec![(
        "params",
        obj(vec![
            ("uri", s("file:///tmp/a.rs")),
            (
                "diagnostics",
                JsonValue::Array(vec![obj(vec![
                    ("range", range(2, 4, 2, 9)),
                    ("severity", n(1)),
                    ("message", s("mismatched types")),
                ])]),
            ),
        ]),
    )]);
    let (path, diags) = parse_publish_diagnostics(&frame).unwrap();
    assert_eq!(path, "/tmp/a.rs");
    assert_eq!(diags.len(), 1);
    assert_eq!(diags[0].start_line, 2);
    assert_eq!(diags[0].end_char, 9);
    assert_eq!(diags[0].severity, Severity::Error);
}

#[test]
fn diagnostic_defaults_and_severities() {
    let d = obj(vec![("range", range(0, 0, 0, 1)), ("severity", n(4))]);
    let x = parse_one_diagnostic(&d).unwrap();
    assert_eq!(x.severity, Severity::Hint);
    assert_eq!(x.message, "");
    let d = obj(vec![("range", range(0, 0, 0, 1))]);
    assert_eq!(parse_one_diagnostic(&d).unwrap().severity, Severity::Error);
    assert_eq!(Severity::from_lsp(2), Severity::Warning);
    assert!(parse_one_diagnostic(&obj(vec![("message", s("m"))])).is_none());
}

#[test]
fn text_edits_parse_and_skip_malformed() {
    let frame = obj(vec![(
        "result",
        JsonValue::Array(vec![
            obj(vec![("range", range(1, 2, 1, 4)), ("newText", s("ab"))]),
            obj(vec![("range", range(1, 2, 1, 4))]),
        ]),
    )]);
    let edits = parse_text_edits(&frame);
    assert_eq!(edits.len(), 1);
    assert_eq!((edits[0].start_line, edits[0].start_char, edits[0].end_char), (1, 2, 4));
    assert_eq!(edits[0].new_text, "ab");
    assert!(parse_text_edits(&obj(vec![])).is_empty());
}

#[test]
fn identifier_before_the_cursor() {
    assert_eq!(word_start("let foo_bar", 11), 4);
    assert_eq!(typed_prefix("let foo_bar", 11), "foo_bar");
    assert_eq!(typed_prefix("a.b", 2), "");
    assert_eq!(word_start("abc", 99), 0);
}

fn edit(sl: usize, sc: u32, el: usize, ec: u32, t: &str) -> coder::lsp::RawTextEdit {
    coder::lsp::RawTextEdit { start_line: sl, start_char: sc, end_line: el, end_char: ec, new_text: t.to_string() }
}

#[test]
fn applies_single_edit() {
    let mut b = coder::buffer::Buffer::new(None, "ab");
    coder::edits::apply_text_edits(&mut b, &[edit(0, 0, 0, 2, "cd")]);
    assert_eq!(b.full_text(), "cd");
}

#[test]
fn applies_multiple_edits_end_first() {
    // Two non-overlapping edits on one line; applied from the end so offsets hold.
    let mut b = coder::buffer::Buffer::new(None, "let x=1");
    coder::edits::apply_text_edits(&mut b, &[edit(0, 5, 0, 6, " = "), edit(0, 4, 0, 5, "y")]);
    assert_eq!(b.full_text(), "let y = 1");
}

#[test]
fn edit_range_respects_utf16() {
    // "a😀b": the emoji spans UTF-16 units 1..3; replacing it yields "aXb".
    let mut b = coder::buffer::Buffer::new(None, "a😀b");
    coder::edits::apply_text_edits(&mut b, &[edit(0, 1, 0, 3, "X")]);
    assert_eq!(b.full_text(), "aXb");
}

#[test]
fn edits_on_later_lines_and_past_the_end() {
    let mut b = coder::buffer::Buffer::new(None, "fn a() {\n  x\n}");
    assert!(!b.dirty);
    // Reindent line 1 and append after the last line (positions past the end clamp).
    coder::edits::apply_text_edits(&mut b, &[edit(1, 0, 1, 2, "    "), edit(9, 0, 9, 0, "\n")]);
    assert_eq!(b.full_text(), "fn a() {\n    x\n}\n");
    assert!(b.dirty);
    // Reversed ends are put in order; an empty edit list changes nothing.
    let mut c = coder::buffer::Buffer::new(None, "abc");
    coder::edits::apply_text_edits(&mut c, &[edit(0, 2, 0, 1, "")]);
    assert_eq!(c.full_text(), "ac");
    let mut d = coder::buffer::Buffer::new(None, "abc");
    coder::edits::apply_text_edits(&mut d, &[]);
    assert_eq!(d.full_text(), "abc");
    assert!(!d.dirty);
}

#[test]
fn popup_keeps_matching_items_anchored_at_the_word() {
    let items = vec![item("len", "b"), item("iter", "a"), item("is_empty", "c")];
    let st = coder::completion::completion_popup(items, "    v.i", 3, 7, 2).unwrap();
    assert_eq!(st.items.iter().map(|i| &i.label[..]).collect::<Vec<_>>(), ["iter", "is_empty"]);
    assert_eq!(st.selected, 0);
    assert_eq!(st.anchor, coder::buffer::Cursor { line: 3, col: 6 });
    assert_eq!(st.tab_index, 2);
    assert!(coder::completion::completion_popup(vec![item("len", "a")], "x.q", 0, 3, 0).is_none());
}

#[test]
fn popup_keys() {
    let items = vec![item("aa", "a"), item("ab", "b")];
    let mut st = completion_popup(items, "a", 0, 1, 0).unwrap();
    let k = |c| KeyEvent::new(c, false, false, false);
    assert_eq!(st.handle_key(k(KeyCode::Up)), CompletionKey::Handled);
    assert_eq!(st.selected, 0);
    assert_eq!(st.handle_key(k(KeyCode::Down)), CompletionKey::Handled);
    assert_eq!(st.handle_key(k(KeyCode::Down)), CompletionKey::Handled);
    assert_eq!(st.selected, 1);
    assert_eq!(st.handle_key(k(KeyCode::Char('x'))), CompletionKey::Typing);
    assert_eq!(st.handle_key(k(KeyCode::Char('.'))), CompletionKey::Typing);
    assert_eq!(st.handle_key(k(KeyCode::Char(' '))), CompletionKey::Dismiss);
    assert_eq!(st.handle_key(KeyEvent::new(KeyCode::Char('x'), true, false, false)), CompletionKey::Dismiss);
    assert_eq!(st.handle_key(k(KeyCode::Backspace)), CompletionKey::Typing);
    assert_eq!(st.handle_key(k(KeyCode::Tab)), CompletionKey::Accept);
    assert_eq!(st.handle_key(k(KeyCode::Esc)), CompletionKey::Close);
    assert_eq!(st.handle_key(k(KeyCode::Left)), CompletionKey::Dismiss);
    assert_eq!(st.accepted(Some(0)).unwrap().label, "ab");
    assert!(st.accepted(Some(1)).is_none());
    assert!(st.accepted(None).is_none());
}

#[test]
fn diagnostics_move_to_character_columns() {
    let b = coder::buffer::Buffer::new(None, "let 😀 = x;\nfn f() {\n}");
    assert_eq!(b.utf16_to_char_col(0, 6), 5);
    assert_eq!(b.utf16_to_char_col(1, 99), 8);
    assert_eq!(b.line_len(0), 10);
    assert_eq!(b.line_len(7), 0);
    let raw = vec![
        coder::lsp::RawDiagnostic { start_line: 0, start_char: 7, end_line: 0, end_char: 8, severity: Severity::Error, message: "x".to_string() },
        coder::lsp::RawDiagnostic { start_line: 1, start_char: 3, end_line: 2, end_char: 1, severity: Severity::Warning, message: "y".to_string() },
        coder::lsp::RawDiagnostic { start_line: 0, start_char: 4, end_line: 0, end_char: 4, severity: Severity::Hint, message: "z".to_string() },
    ];
    let d = coder::edits::diagnostics_for(&b, raw);
    assert_eq!((d[0].line, d[0].col_start, d[0].col_end), (0, 6, 7));
    assert_eq!((d[1].line, d[1].col_start, d[1].col_end), (1, 3, 8));
    assert_eq!((d[2].col_start, d[2].col_end), (4, 5));
    assert_eq!(d[1].severity, Severity::Warning);
    assert_eq!(d[2].message, "z");
}

#[test]
fn overlapping_edits_are_refused_whole() {
    let mut b = coder::buffer::Buffer::new(None, "abcdefghij");
    let ok = coder::edits::try_apply_text_edits(&mut b, &[edit(0, 8, 0, 10, ""), edit(0, 2, 0, 10, "x")]);
    assert!(!ok);
    assert_eq!(b.full_text(), "abcdefghij");
    assert!(!b.dirty);
    assert!(coder::edits::try_apply_text_edits(&mut b, &[edit(0, 8, 0, 10, ""), edit(0, 2, 0, 4, "x")]));
    assert_eq!(b.full_text(), "abxefgh");
}
