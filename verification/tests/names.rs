use coder::format::{first_line, format_text};
use coder::layout::{list_scroll, move_index};
use coder::names::{name_of, sanitize_name};

#[test]
fn names_confined_to_one_directory_are_accepted() {
    assert_eq!(sanitize_name("  main.rs "), Some("main.rs".to_string()));
    assert_eq!(sanitize_name(".gitignore"), Some(".gitignore".to_string()));
}

#[test]
fn separators_and_traversal_are_rejected() {
    for bad in ["", "   ", ".", "..", "a/b", "../etc/passwd", "a\\b"] {
        assert!(sanitize_name(bad).is_none(), "{bad} should be rejected");
    }
}

#[test]
fn status_names_and_first_lines() {
    assert_eq!(name_of("/a/b/c.txt"), "c.txt");
    assert_eq!(name_of("/"), "/");
    assert_eq!(first_line("\n   \n  error: boom  \nmore"), "error: boom");
    assert_eq!(first_line("  \n"), "");
}

#[test]
fn format_trims_lines_and_adds_final_newline() {
    assert_eq!(format_text("a  \nb\t\n c ", true, true), "a\nb\n c\n");
    assert_eq!(format_text("a  ", false, true), "a  \n");
    assert_eq!(format_text("", true, true), "");
    assert_eq!(format_text("x\n", true, true), "x\n");
    assert_eq!(format_text("x \r\n", true, false), "x \r\n");
    assert_eq!(format_text("a\n\n", false, true), "a\n");
    assert_eq!(format_text("a \n\n\n", true, true), "a\n");
    assert_eq!(format_text("\n\n", false, true), "\n");
    assert_eq!(format_text("a\n\n", false, false), "a\n\n");
}

#[test]
fn selection_moves_clamp_to_the_list() {
    assert_eq!(move_index(0, -1, 5), 0);
    assert_eq!(move_index(3, 10, 5), 4);
    assert_eq!(move_index(2, 1, 5), 3);
    assert_eq!(move_index(7, 1, 0), 0);
}

#[test]
fn scroll_keeps_the_selection_visible() {
    assert_eq!(list_scroll(0, 100, 10), 0);
    assert_eq!(list_scroll(15, 100, 10), 6);
    assert_eq!(list_scroll(99, 100, 10), 90);
    assert_eq!(list_scroll(5, 3, 10), 0);
}

#[test]
fn formatting_twice_changes_nothing() {
    for text in ["a  \nb\t\n c ", "x \n\n", "", "\n", "tail\t", "a\r\n b  "] {
        for trim in [false, true] {
            for nl in [false, true] {
                let once = format_text(text, trim, nl);
                assert_eq!(format_text(&once, trim, nl), once, "{text:?} {trim} {nl}");
            }
        }
    }
}
