use coder::git::{classify_index, classify_worktree, short_hash, GitState, StatusFlags};
use coder::search::{replace_in_line, search_text};

#[test]
fn replace_in_line_touches_only_that_line() {
    let (out, count) = replace_in_line("foo\nfoo bar foo\nfoo\n", 2, "foo", "X", false, true).unwrap();
    assert_eq!(count, 2);
    assert_eq!(out, "foo\nX bar X\nfoo\n");
}

#[test]
fn replace_in_line_no_match_leaves_file() {
    assert_eq!(replace_in_line("alpha\nbeta\n", 1, "zzz", "X", false, true), None);
}

#[test]
fn replace_in_line_preserves_crlf_terminator() {
    let (out, count) = replace_in_line("foo\r\nfoo\r\n", 1, "foo", "bar", false, true).unwrap();
    assert_eq!(count, 1);
    assert_eq!(out, "bar\r\nfoo\r\n");
}

#[test]
fn replace_expands_groups_only_for_regex_queries() {
    let (out, _) = replace_in_line("ab\n", 1, "(a)", "[$1]", true, true).unwrap();
    assert_eq!(out, "[a]b\n");
    let (out, _) = replace_in_line("a.b\n", 1, ".", "$0", false, true).unwrap();
    assert_eq!(out, "a$0b\n");
    assert_eq!(replace_in_line("ab\n", 3, "a", "x", false, true), None);
    assert_eq!(replace_in_line("ab\n", 1, "", "x", false, true), None);
    assert_eq!(replace_in_line("AB\n", 1, "a", "x", false, false), Some(("xB\n".to_string(), 1)));
}

#[test]
fn search_lists_matching_lines_up_to_the_limit() {
    let hits = search_text("/w/a.txt", "a.txt", "one\nTwo\nthree two\n", "two", false, false, 10);
    assert_eq!(hits.iter().map(|h| h.line_no).collect::<Vec<_>>(), [2, 3]);
    assert_eq!(hits[0].line, "Two");
    assert_eq!(hits[0].rel, "a.txt");
    let hits = search_text("/w/a.txt", "a.txt", "x\nx\nx\n", "x", false, true, 2);
    assert_eq!(hits.len(), 2);
    let long = "y".repeat(300);
    let hits = search_text("/w/b", "b", &long, "y", false, true, 5);
    assert_eq!(hits[0].line.len(), 200);
    assert!(search_text("/w/b", "b", "abc", "", false, true, 5).is_empty());
}

fn flags() -> StatusFlags {
    StatusFlags {
        index_new: false,
        index_modified: false,
        index_deleted: false,
        index_renamed: false,
        index_typechange: false,
        wt_new: false,
        wt_modified: false,
        wt_deleted: false,
        wt_renamed: false,
        wt_typechange: false,
        conflicted: false,
    }
}

#[test]
fn status_bits_classify_both_sides() {
    let s = StatusFlags { index_new: true, wt_modified: true, ..flags() };
    assert_eq!(classify_index(s), Some(GitState::Added));
    assert_eq!(classify_worktree(s), Some(GitState::Modified));
    let c = StatusFlags { conflicted: true, wt_new: true, ..flags() };
    assert_eq!(classify_worktree(c), Some(GitState::Conflicted));
    assert_eq!(classify_index(flags()), None);
    assert_eq!(short_hash("0123456789abcdef"), "0123456");
    assert_eq!(short_hash("abc"), "abc");
}
