use coder::keys::{KeyCode, KeyEvent};
use coder::text_input::{InputOutcome, TextInputState};

fn at(content: &str, cursor: usize) -> TextInputState {
    let mut s = TextInputState::default();
    s.set_content(content.to_string());
    s.place_cursor(cursor);
    s
}

#[test]
fn insert_backspace_delete_at_cursor() {
    let mut s = at("ac", 1);
    s.insert_char('b');
    assert_eq!((s.content(), s.cursor()), ("abc", 2));
    s.backspace();
    assert_eq!((s.content(), s.cursor()), ("ac", 1));
    s.delete_forward();
    assert_eq!((s.content(), s.cursor()), ("a", 1));
    s.delete_forward(); // at end: no-op
    s.place_cursor(0);
    s.backspace(); // at start: no-op
    assert_eq!(s.content(), "a");
}

#[test]
fn paste_folds_newlines_on_single_line_input() {
    let mut s = TextInputState::default();
    s.insert_paste("a\r\nb\nc", false);
    assert_eq!(s.content(), "a b c", "CR dropped, LF folded to a space");
}

#[test]
fn paste_keeps_newlines_on_multiline_input() {
    let mut s = TextInputState::default();
    s.insert_paste("a\r\nb", true);
    assert_eq!(s.content(), "a\nb", "CR dropped, LF kept");
}

#[test]
fn horizontal_moves_clamp() {
    let mut s = at("ab", 0);
    s.left();
    assert_eq!(s.cursor(), 0);
    s.place_cursor(2);
    s.right();
    assert_eq!(s.cursor(), 2);
}

#[test]
fn word_moves() {
    let mut s = at("foo bar baz", 11);
    s.word_left();
    assert_eq!(s.cursor(), 8);
    s.word_left();
    assert_eq!(s.cursor(), 4);
    s.place_cursor(0);
    s.word_right();
    assert_eq!(s.cursor(), 3);
}

#[test]
fn line_bounds_and_vertical_moves() {
    let mut s = at("ab\ncdef\ng", 5);
    s.home();
    assert_eq!(s.cursor(), 3);
    s.place_cursor(5);
    s.end();
    assert_eq!(s.cursor(), 7);
    s.place_cursor(6);
    s.up();
    assert_eq!(s.cursor(), 2);
    s.place_cursor(5);
    s.down();
    assert_eq!(s.cursor(), 9);
    s.place_cursor(1);
    s.up();
    assert_eq!(s.cursor(), 1);
    s.place_cursor(8);
    s.down();
    assert_eq!(s.cursor(), 8);
}

#[test]
fn insert_then_backspace_restores_the_input() {
    let mut s = at("héllo", 2);
    s.insert_char('x');
    s.backspace();
    assert_eq!((s.content(), s.cursor()), ("héllo", 2));
}

#[test]
fn caret_placement_clamps_to_the_end() {
    let mut s = at("abc", 99);
    assert_eq!(s.cursor(), 3);
    s.place_cursor(1);
    assert_eq!(s.cursor(), 1);
}

#[test]
fn keys_edit_move_or_are_ignored() {
    let mut s = at("ab", 1);
    assert_eq!(s.handle_key(KeyEvent::new(KeyCode::Char('x'), false, false, false), false), InputOutcome::Changed);
    assert_eq!(s.content(), "axb");
    assert_eq!(s.handle_key(KeyEvent::new(KeyCode::Left, false, false, false), false), InputOutcome::Moved);
    assert_eq!(s.cursor(), 1);
    assert_eq!(s.handle_key(KeyEvent::new(KeyCode::Char('s'), true, false, false), false), InputOutcome::Ignored);
    assert_eq!(s.content(), "axb");
    assert_eq!(s.handle_key(KeyEvent::new(KeyCode::Enter, false, false, false), false), InputOutcome::Ignored);
    assert_eq!(s.handle_key(KeyEvent::new(KeyCode::Enter, false, false, false), true), InputOutcome::Changed);
    assert_eq!(s.content(), "a\nxb");
}

#[test]
fn clear_and_cursor_to_end() {
    let mut s = at("abc", 0);
    s.cursor_to_end();
    assert_eq!(s.cursor(), 3);
    s.clear();
    assert!(s.is_empty());
    assert_eq!(s.cursor(), 0);
}
