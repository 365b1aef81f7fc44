use coder::git::{GitCommit, GitEntry, GitState};
use coder::git_hit::{git_hit, GitHit};
use coder::model::GitStatus;
use coder::ui::Rect;

fn entry(rel: &str) -> GitEntry {
    GitEntry { path: format!("/w/{rel}"), rel: rel.to_string(), state: GitState::Modified }
}

fn status() -> GitStatus {
    GitStatus {
        is_repo: true,
        branch: Some("main".to_string()),
        staged: vec![entry("a.rs")],
        unstaged: vec![entry("b.rs"), entry("src/c.rs")],
        history: vec![GitCommit { hash: "aaaaaaa".to_string(), summary: "one".to_string() }],
        ..GitStatus::default()
    }
}

// The sidebar below is 30x40 at the origin; the panel body starts at (1, 3)
// and is 28 columns wide. Branch row y=3, actions y=5, commit box y=6..10,
// buttons y=10, list from y=12.
const SIDEBAR: Rect = Rect { x: 0, y: 0, width: 30, height: 40 };

#[test]
fn top_block_buttons() {
    let g = status();
    assert_eq!(git_hit(&g, SIDEBAR, 27, 3), Some(GitHit::Refresh));
    assert_eq!(git_hit(&g, SIDEBAR, 5, 3), None);
    assert_eq!(git_hit(&g, SIDEBAR, 1, 5), Some(GitHit::Fetch));
    assert_eq!(git_hit(&g, SIDEBAR, 9, 5), None);
    assert_eq!(git_hit(&g, SIDEBAR, 11, 5), Some(GitHit::Pull));
    assert_eq!(git_hit(&g, SIDEBAR, 25, 5), Some(GitHit::Push));
    for y in 6..10 {
        assert_eq!(git_hit(&g, SIDEBAR, 12, y), Some(GitHit::CommitInput));
    }
    assert_eq!(git_hit(&g, SIDEBAR, 2, 10), Some(GitHit::UndoLastCommit));
    assert_eq!(git_hit(&g, SIDEBAR, 15, 10), None);
    assert_eq!(git_hit(&g, SIDEBAR, 25, 10), Some(GitHit::CommitButton));
    assert_eq!(git_hit(&g, SIDEBAR, 5, 11), None);
}

#[test]
fn change_rows_open_stage_unstage_or_revert() {
    let g = status();
    // Rows: 0 staged header, 1 unstage all, 2 separator, 3 a.rs, 4 changes header,
    // 5 stage all, 6 separator, 7 b.rs, 8 src/, 9 src/c.rs, 10 hint, 11 separator,
    // 12 history header, 13 history hint, 14 the commit.
    assert_eq!(git_hit(&g, SIDEBAR, 10, 13), Some(GitHit::UnstageAll));
    assert_eq!(git_hit(&g, SIDEBAR, 1, 15), Some(GitHit::OpenFile("a.rs".to_string())));
    assert_eq!(git_hit(&g, SIDEBAR, 27, 15), Some(GitHit::Unstage("a.rs".to_string())));
    assert_eq!(git_hit(&g, SIDEBAR, 10, 15), Some(GitHit::Entry(0)));
    assert_eq!(git_hit(&g, SIDEBAR, 10, 17), Some(GitHit::StageAll));
    assert_eq!(git_hit(&g, SIDEBAR, 27, 19), Some(GitHit::Stage("b.rs".to_string())));
    assert_eq!(git_hit(&g, SIDEBAR, 24, 19), Some(GitHit::Revert("b.rs".to_string())));
    assert_eq!(git_hit(&g, SIDEBAR, 25, 19), Some(GitHit::Revert("b.rs".to_string())));
    assert_eq!(git_hit(&g, SIDEBAR, 26, 19), Some(GitHit::Entry(1)));
    assert_eq!(git_hit(&g, SIDEBAR, 10, 20), None);
    assert_eq!(git_hit(&g, SIDEBAR, 10, 21), Some(GitHit::Entry(2)));
    assert_eq!(git_hit(&g, SIDEBAR, 10, 22), None);
    assert_eq!(git_hit(&g, SIDEBAR, 10, 26), Some(GitHit::Entry(3)));
    assert_eq!(git_hit(&g, SIDEBAR, 10, 27), None);
}

#[test]
fn outside_a_repository_only_the_message_row_exists() {
    let g = GitStatus::default();
    assert_eq!(git_hit(&g, SIDEBAR, 5, 3), None);
    assert_eq!(git_hit(&g, SIDEBAR, 5, 5), None);
}
