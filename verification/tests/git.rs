use coder::git::{
    build_commit_view, civil_from_days, deleted_blocks, file_heading, format_time, git_outcome,
    gutter_marks, push_needs_upstream, CommitInfo, CommitRow, DeltaStatus, FileChange, GitState,
    GutterKind, PatchLine,
};

fn kinds(old: &str, new: &str) -> Vec<(usize, GutterKind)> {
    let mut v = gutter_marks(old, new);
    v.sort_by_key(|(l, _)| *l);
    v
}

#[test]
fn added_lines_are_green() {
    assert_eq!(kinds("a\nb\n", "a\nx\nb\n"), vec![(1, GutterKind::Added)]);
}

#[test]
fn modified_line_is_green() {
    assert_eq!(kinds("a\nb\nc\n", "a\nB\nc\n"), vec![(1, GutterKind::Added)]);
}

#[test]
fn pure_deletion_marks_boundary_red() {
    assert_eq!(kinds("a\nb\nc\n", "a\nc\n"), vec![(0, GutterKind::Deleted)]);
}

#[test]
fn no_changes_no_marks() {
    assert!(kinds("a\nb\n", "a\nb\n").is_empty());
}

#[test]
fn deleted_block_after_anchor_line() {
    assert_eq!(deleted_blocks("a\nb\nc\n", "a\nc\n"), vec![(Some(0), vec!["b".to_string()])]);
}

#[test]
fn modification_shows_old_line() {
    assert_eq!(deleted_blocks("a\nb\nc\n", "a\nB\nc\n"), vec![(Some(0), vec!["b".to_string()])]);
}

#[test]
fn deletion_at_top_anchors_before_first_line() {
    assert_eq!(deleted_blocks("a\nb\n", "b\n"), vec![(None, vec!["a".to_string()])]);
}

#[test]
fn pure_addition_has_no_deleted_blocks() {
    assert!(deleted_blocks("a\nb\n", "a\nx\nb\n").is_empty());
}

#[test]
fn epoch_and_offset_format() {
    assert_eq!(format_time(0, 0), "1970-01-01 00:00:00 +0000");
    assert_eq!(format_time(1_700_000_000, 180), "2023-11-15 01:13:20 +0300");
}

#[test]
fn negative_offsets_and_dates_before_the_epoch() {
    assert_eq!(format_time(0, -90), "1969-12-31 22:30:00 -0130");
    assert_eq!(civil_from_days(0), (1970, 1, 1));
    assert_eq!(civil_from_days(-1), (1969, 12, 31));
    assert_eq!(civil_from_days(11_016), (2000, 2, 29));
}

fn line(origin: char, new_lineno: Option<u32>, text: &str) -> PatchLine {
    PatchLine { origin, new_lineno, text: text.to_string() }
}

#[test]
fn commit_view_shares_the_header_and_splits_changes() {
    let info = CommitInfo {
        author_name: "Ann".to_string(),
        author_email: "ann@example.com".to_string(),
        seconds: 0,
        offset_minutes: 0,
        id: "abc123".to_string(),
        message: "Fix it\n\nDetails here\n\n".to_string(),
    };
    let files = vec![FileChange {
        status: DeltaStatus::Modified,
        new_path: Some("src/app/model.rs".to_string()),
        old_path: Some("src/app/model.rs".to_string()),
        added: 1,
        removed: 1,
        hunks: Some(vec![
            vec![line(' ', Some(1), "a\n"), line('-', None, "b\n"), line('+', Some(2), "B\n")],
            vec![line(' ', Some(9), "z"), line('\\', None, "\n\\ No newline at end of file\n")],
        ]),
    }];
    let d = build_commit_view(&info, &files);
    let header = "Ann  <ann@example.com>\n1970-01-01 00:00:00 +0000  ·  abc123\n\nFix it\n\nDetails here\n";
    assert_eq!(d.old, format!("{header}\nmodel.rs  src/app/  +1 -1\na\nb\n\nz\n"));
    assert_eq!(d.new, format!("{header}\nmodel.rs  src/app/  +1 -1\na\nB\n\nz\n"));
    assert_eq!(
        d.rows,
        vec![
            CommitRow::Author,
            CommitRow::Meta,
            CommitRow::Gap,
            CommitRow::Message,
            CommitRow::Message,
            CommitRow::Message,
            CommitRow::Gap,
            CommitRow::File,
            CommitRow::Line(1),
            CommitRow::Line(2),
            CommitRow::Gap,
            CommitRow::Line(9),
        ]
    );
    assert_eq!(d.rows.len(), d.new.lines().count());
    assert_eq!(d.syntax_ext.as_deref(), Some("rs"));
}

#[test]
fn binary_files_and_the_busiest_extension() {
    let info = CommitInfo {
        author_name: "B".to_string(),
        author_email: "b@x".to_string(),
        seconds: 60,
        offset_minutes: 0,
        id: "f".to_string(),
        message: String::new(),
    };
    let files = vec![
        FileChange { status: DeltaStatus::Added, new_path: Some("img.png".to_string()), old_path: None, added: 0, removed: 0, hunks: None },
        FileChange { status: DeltaStatus::Modified, new_path: Some("a.py".to_string()), old_path: None, added: 2, removed: 0, hunks: Some(vec![]) },
        FileChange { status: DeltaStatus::Modified, new_path: Some("b.rs".to_string()), old_path: None, added: 1, removed: 1, hunks: Some(vec![]) },
        FileChange { status: DeltaStatus::Deleted, new_path: None, old_path: Some("c.go".to_string()), added: 0, removed: 3, hunks: Some(vec![]) },
    ];
    let d = build_commit_view(&info, &files);
    assert!(d.new.contains("\nimg.png  (new file)  +0 -0\n    (binary file)\n"));
    assert!(d.new.contains("\nc.go  (deleted)  +0 -3\n"));
    // a.py and b.rs tie at two lines: the first keeps it; c.go has more.
    assert_eq!(d.syntax_ext.as_deref(), Some("go"));
}

#[test]
fn headings_skip_missing_parts() {
    let f = FileChange { status: DeltaStatus::Renamed, new_path: Some("x.rs".to_string()), old_path: Some("y.rs".to_string()), added: 0, removed: 0, hunks: None };
    assert_eq!(file_heading(&f), "x.rs  (renamed)  +0 -0");
}

#[test]
fn git_output_and_push_retries() {
    assert_eq!(git_outcome(true, " done\n", ""), Ok("done".to_string()));
    assert_eq!(git_outcome(false, "", "  "), Err("git command failed".to_string()));
    let e = git_outcome(false, "", "fatal: The current branch has no upstream branch.\n");
    assert!(push_needs_upstream(&e));
    assert!(!push_needs_upstream(&Err("rejected".to_string())));
    assert!(!push_needs_upstream(&Ok(String::new())));
    assert_eq!(GitState::Untracked.short(), 'U');
}
