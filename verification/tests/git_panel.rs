use coder::git::{GitCommit, GitEntry, GitState};
use coder::git_panel::{git_layout, GitRowKind};
use coder::model::GitStatus;
use coder::ui::Rect;

fn entry(rel: &str) -> GitEntry {
    GitEntry { path: format!("/w/{rel}"), rel: rel.to_string(), state: GitState::Modified }
}

#[test]
fn changes_are_grouped_by_directory_then_history() {
    let g = GitStatus {
        is_repo: true,
        branch: Some("main".to_string()),
        staged: vec![entry("src/b.rs"), entry("README.md"), entry("src/a.rs")],
        unstaged: vec![entry("x/y/z.rs")],
        history: vec![GitCommit { hash: "aaaaaaa".to_string(), summary: "one".to_string() }],
        ..GitStatus::default()
    };
    let area = Rect { x: 0, y: 2, width: 30, height: 30 };
    let l = git_layout(&g, area);
    assert_eq!(
        l.rows,
        vec![
            GitRowKind::StagedHeader,
            GitRowKind::UnstageAll,
            GitRowKind::Separator,
            GitRowKind::Staged { idx: 1, depth: 0 },
            GitRowKind::Dir { name: "src".to_string(), depth: 0 },
            GitRowKind::Staged { idx: 2, depth: 1 },
            GitRowKind::Staged { idx: 0, depth: 1 },
            GitRowKind::ChangesHeader,
            GitRowKind::StageAll,
            GitRowKind::Separator,
            GitRowKind::Dir { name: "x".to_string(), depth: 0 },
            GitRowKind::Dir { name: "y".to_string(), depth: 1 },
            GitRowKind::Unstaged { idx: 0, depth: 2 },
            GitRowKind::Hint,
            GitRowKind::Separator,
            GitRowKind::HistoryHeader,
            GitRowKind::HistoryHint,
            GitRowKind::Commit { idx: 0 },
        ]
    );
    assert!(l.branch_shown && l.has_box);
    assert_eq!((l.branch_y, l.actions_y, l.input_top, l.button_y, l.content_y), (2, 4, 5, 9, 11));
    assert_eq!(l.list_h, 21);
    assert_eq!(l.offset, 0);
}

#[test]
fn no_repository_and_no_changes() {
    let none = git_layout(&GitStatus::default(), Rect { x: 0, y: 0, width: 20, height: 10 });
    assert_eq!(none.rows, vec![GitRowKind::Info("No git repository")]);
    assert!(!none.has_box);
    assert_eq!((none.content_y, none.list_h), (0, 10));
    let clean = GitStatus { is_repo: true, ..GitStatus::default() };
    let l = git_layout(&clean, Rect { x: 0, y: 0, width: 20, height: 10 });
    assert_eq!(l.rows, vec![GitRowKind::Info("No changes")]);
    assert!(!l.branch_shown);
    assert_eq!(l.content_y, 8);
}

#[test]
fn the_list_scrolls_to_the_selected_commit() {
    let g = GitStatus {
        is_repo: true,
        history: (0..40).map(|i| GitCommit { hash: format!("{i:07}"), summary: String::new() }).collect(),
        selected: 39,
        ..GitStatus::default()
    };
    let l = git_layout(&g, Rect { x: 0, y: 0, width: 20, height: 20 });
    // rows: "No changes", separator, heading, hint, then 40 commits: commit 39 is row 43
    assert_eq!(l.list_h, 12);
    assert_eq!(l.offset, 43 + 1 - 12);
}

#[test]
fn long_paths_are_trimmed_from_the_front() {
    assert_eq!(coder::git_panel::fit_path("src/main.rs", 20), "src/main.rs");
    assert_eq!(coder::git_panel::fit_path("src/main.rs", 11), "src/main.rs");
    assert_eq!(coder::git_panel::fit_path("src/main.rs", 8), "…main.rs");
    assert_eq!(coder::git_panel::fit_path("src/main.rs", 1), "…");
    assert_eq!(coder::git_panel::fit_path("src/main.rs", 0), "…");
}
