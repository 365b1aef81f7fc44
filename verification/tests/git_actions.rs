use coder::git::{GitEntry, GitState};
use coder::git_actions::{CommitRefusal, GitRequest, RevertCheck};
use coder::model::{DialogAction, GitStatus, GitZone};

fn entry(rel: &str) -> GitEntry {
    GitEntry { path: format!("/w/{rel}"), rel: rel.to_string(), state: GitState::Modified }
}

fn repo() -> GitStatus {
    GitStatus {
        is_repo: true,
        branch: Some("main".to_string()),
        staged: vec![entry("a.rs")],
        unstaged: vec![entry("b.rs")],
        ..GitStatus::default()
    }
}

#[test]
fn commit_needs_a_message_and_staged_changes() {
    let mut g = repo();
    g.commit.set_content("   ".to_string());
    assert_eq!(g.commit_request(), Err(CommitRefusal::EmptyMessage));
    g.commit.set_content("  fix it \n".to_string());
    g.zone = GitZone::Commit;
    assert_eq!(g.commit_request(), Ok(GitRequest::Commit("fix it".to_string())));
    assert_eq!(g.commit.content(), "");
    assert_eq!(g.zone, GitZone::Files);
    let mut nothing = GitStatus { staged: Vec::new(), ..repo() };
    nothing.commit.set_content("msg".to_string());
    assert_eq!(nothing.commit_request(), Err(CommitRefusal::NothingStaged));
    assert_eq!(nothing.commit.content(), "msg");
}

#[test]
fn disabled_buttons_do_nothing() {
    let mut g = repo();
    assert_eq!(g.button_request(GitZone::Fetch), None);
    assert_eq!(g.button_request(GitZone::Pull), None);
    assert_eq!(g.button_request(GitZone::Push), None);
    // No upstream yet: the last commit is not pushed and can be undone.
    assert_eq!(g.button_request(GitZone::Uncommit), Some(GitRequest::UndoLastCommit));
    g.has_remote = true;
    assert_eq!(g.button_request(GitZone::Fetch), Some(GitRequest::Fetch));
    assert_eq!(g.button_request(GitZone::Push), Some(GitRequest::Push));
    g.has_upstream = true;
    assert_eq!(g.button_request(GitZone::Pull), Some(GitRequest::Pull));
    assert_eq!(g.button_request(GitZone::Push), None);
    assert_eq!(g.button_request(GitZone::Uncommit), None);
    g.ahead = 2;
    assert_eq!(g.button_request(GitZone::Push), Some(GitRequest::Push));
    assert_eq!(g.button_request(GitZone::Files), None);
    assert_eq!(g.button_request(GitZone::Message), None);
}

#[test]
fn stage_toggle_and_revert_follow_the_selection() {
    let mut g = repo();
    g.selected = 0;
    assert_eq!(g.toggle_stage_request(), Some(GitRequest::Unstage("a.rs".to_string())));
    assert!(matches!(g.revert_check(), RevertCheck::UnstageFirst));
    g.selected = 1;
    assert_eq!(g.toggle_stage_request(), Some(GitRequest::Stage("b.rs".to_string())));
    match g.revert_check() {
        RevertCheck::Confirm(d) => {
            assert_eq!(d.title, "Revert changes");
            assert_eq!(d.message, "Changes in 'b.rs' will be reverted. This cannot be undone. Are you sure?");
            assert!(matches!(d.action, DialogAction::GitRevert(ref p) if p == "b.rs"));
        }
        _ => panic!("an unstaged change asks before reverting"),
    }
    g.selected = 2;
    assert_eq!(g.toggle_stage_request(), None);
    assert!(matches!(g.revert_check(), RevertCheck::NoChange));
}

#[test]
fn the_message_zone_types_into_the_commit_box() {
    let mut g = repo();
    g.commit.set_content("abc".to_string());
    g.commit.home();
    assert!(g.set_zone(GitZone::Message));
    assert_eq!(g.commit.cursor(), 3);
    assert!(!g.set_zone(GitZone::Push));
    assert_eq!(g.zone, GitZone::Push);
}
