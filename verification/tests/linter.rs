use coder::linter::{parse_linter_output, parse_usize};

#[test]
fn parses_ruff_style_output() {
    let out = "app.py:3:5: F401 unused import\napp.py:10:1: E302 expected 2 blank lines\nnoise line";
    let items = parse_linter_output(out);
    assert_eq!(items.len(), 2);
    assert_eq!(items[0], (2, 4, "F401 unused import".to_string()));
    assert_eq!(items[1].0, 9);
}

#[test]
fn numbers_parse_like_the_standard_library() {
    assert_eq!(parse_usize("42"), Some(42));
    assert_eq!(parse_usize("+7"), Some(7));
    assert_eq!(parse_usize(""), None);
    assert_eq!(parse_usize("+"), None);
    assert_eq!(parse_usize("4x"), None);
    assert_eq!(parse_usize("99999999999999999999999"), None);
    let items = parse_linter_output("f:0:0:msg");
    assert_eq!(items, vec![(0, 0, "msg".to_string())]);
}
