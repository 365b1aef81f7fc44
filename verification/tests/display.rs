use coder::display::{
    diagnostic_at_cursor, diagnostic_counts, diff_start, display_rows, has_inline_deletions, marks_step,
    max_gutter_number, screen_row_to_line, MarksStep,
};
use coder::git::CommitRow;
use coder::lsp::Severity;
use coder::model::{Diagnostic, DiffRow};

fn shown(rows: &[DiffRow]) -> Vec<String> {
    rows.iter()
        .map(|r| match r {
            DiffRow::Real(l) => format!("{l}"),
            DiffRow::Deleted(s) => format!("-{s}"),
        })
        .collect()
}

fn blocks() -> Vec<(Option<usize>, Vec<String>)> {
    vec![(None, vec!["top".to_string()]), (Some(1), vec!["a".to_string(), "b".to_string()]), (Some(1), vec!["c".to_string()])]
}

#[test]
fn plain_tab_shows_one_row_per_line() {
    let rows = display_rows(3, &blocks(), false);
    assert_eq!(shown(&rows), vec!["0", "1", "2"]);
    assert!(!has_inline_deletions(false, &blocks()));
    assert!(!has_inline_deletions(true, &Vec::new()));
}

#[test]
fn diff_tab_weaves_removed_lines_after_their_anchor() {
    let rows = display_rows(3, &blocks(), true);
    assert_eq!(shown(&rows), vec!["-top", "0", "1", "-a", "-b", "-c", "2"]);
}

#[test]
fn drawing_starts_at_the_row_of_the_scrolled_line() {
    let rows = display_rows(3, &blocks(), true);
    assert_eq!(diff_start(&rows, 0), 0);
    assert_eq!(diff_start(&rows, 2), 6);
    assert_eq!(diff_start(&rows, 9), 0);
    let plain = display_rows(4, &Vec::new(), false);
    assert_eq!(diff_start(&plain, 2), 2);
}

#[test]
fn removed_rows_map_to_the_next_real_line_then_the_previous() {
    let rows = display_rows(3, &blocks(), true);
    assert_eq!(screen_row_to_line(&rows, true, 0, 3, 0), 0);
    assert_eq!(screen_row_to_line(&rows, true, 0, 3, 3), 2);
    assert_eq!(screen_row_to_line(&rows, true, 1, 3, 1), 2);
    let tail = vec![DiffRow::Real(0), DiffRow::Deleted("x".to_string())];
    assert_eq!(screen_row_to_line(&tail, true, 0, 1, 5), 0);
    let plain = display_rows(4, &Vec::new(), false);
    assert_eq!(screen_row_to_line(&plain, false, 2, 4, 1), 3);
    assert_eq!(screen_row_to_line(&plain, false, 2, 4, 10), 3);
    assert_eq!(screen_row_to_line(&plain, false, 0, 0, 3), 0);
}

#[test]
fn gutter_fits_the_highest_line_of_a_commit_view() {
    assert_eq!(max_gutter_number(&Vec::new(), 42), 42);
    assert_eq!(max_gutter_number(&vec![CommitRow::Author, CommitRow::Line(7), CommitRow::Gap, CommitRow::Line(120), CommitRow::Line(9)], 5), 120);
    assert_eq!(max_gutter_number(&vec![CommitRow::Author, CommitRow::Message], 5), 1);
}

fn diag(line: usize, a: usize, b: usize, severity: Severity, m: &str) -> Diagnostic {
    Diagnostic { line, col_start: a, col_end: b, severity, message: m.to_string() }
}

#[test]
fn counts_errors_and_warnings() {
    let ds = vec![
        diag(0, 0, 1, Severity::Error, "e1"),
        diag(1, 0, 1, Severity::Warning, "w"),
        diag(2, 0, 1, Severity::Hint, "h"),
        diag(3, 0, 1, Severity::Error, "e2"),
    ];
    assert_eq!(diagnostic_counts(&ds), (2, 1));
    assert_eq!(diagnostic_counts(&Vec::new()), (0, 0));
}

#[test]
fn cursor_shows_the_most_severe_diagnostic_under_it() {
    let ds = vec![
        diag(2, 0, 10, Severity::Hint, "h"),
        diag(2, 3, 5, Severity::Warning, "w1"),
        diag(2, 4, 4, Severity::Warning, "w2"),
        diag(3, 0, 10, Severity::Error, "other line"),
    ];
    assert_eq!(diagnostic_at_cursor(&ds, 2, 4), Some(1));
    assert_eq!(diagnostic_at_cursor(&ds, 2, 8), Some(0));
    assert_eq!(diagnostic_at_cursor(&ds, 2, 11), None);
    assert_eq!(diagnostic_at_cursor(&ds, 3, 10), Some(3));
}

#[test]
fn gutter_refresh_recomputes_on_switch_or_request_and_rebuilds_on_edit() {
    assert_eq!(marks_step(None, Some(0), false, None, 1), MarksStep::Clear);
    assert_eq!(marks_step(Some(1), Some(0), false, Some((1, 4)), 4), MarksStep::Recompute);
    assert_eq!(marks_step(Some(1), Some(1), true, Some((1, 4)), 4), MarksStep::Recompute);
    assert_eq!(marks_step(Some(1), Some(1), false, Some((1, 3)), 4), MarksStep::Rebuild);
    assert_eq!(marks_step(Some(1), Some(1), false, Some((1, 4)), 4), MarksStep::Keep);
}
