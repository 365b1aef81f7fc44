use coder::buffer::Buffer;
use coder::events::{
    disk_change_plan, head_reloads, quit_prompt, renamed_path, repoint_tabs, replace_note,
    stale_diff_tabs, tabs_under, DiskPlan,
};
use coder::filetree::FileTree;
use coder::git::{GitEntry, GitState};
use coder::model::{GitStatus, SearchMatch, SearchRequest, SearchState, Tab};

fn tab(path: &str) -> Tab {
    Tab::new(Buffer::new(Some(path.to_string()), "x"))
}

fn entry(path: &str) -> GitEntry {
    GitEntry { path: path.to_string(), rel: path.to_string(), state: GitState::Modified }
}

#[test]
fn renamed_paths_follow_their_directory() {
    assert_eq!(renamed_path("/w/a.rs", "/w/a.rs", "/w/b.rs"), Some("/w/b.rs".to_string()));
    assert_eq!(renamed_path("/w/src/m.rs", "/w/src", "/w/lib"), Some("/w/lib/m.rs".to_string()));
    assert_eq!(renamed_path("/w/srcx/m.rs", "/w/src", "/w/lib"), None);
    assert_eq!(renamed_path("/w/other.rs", "/w/src", "/w/lib"), None);
}

#[test]
fn repointing_moves_only_the_tabs_under_the_renamed_path() {
    let mut tabs = vec![tab("/w/src/a.rs"), tab("/w/b.rs"), Tab::new(Buffer::new(None, "")), tab("/w/src/sub/c.rs")];
    tabs[1].diff_mode = true;
    let moved = repoint_tabs(&mut tabs, "/w/src", "/w/lib");
    assert_eq!(moved, vec!["/w/lib/a.rs".to_string(), "/w/lib/sub/c.rs".to_string()]);
    assert_eq!(tabs[0].buffer.path.as_deref(), Some("/w/lib/a.rs"));
    assert_eq!(tabs[1].buffer.path.as_deref(), Some("/w/b.rs"));
    assert!(tabs[1].diff_mode);
    assert_eq!(tabs[2].buffer.path, None);
    assert_eq!(tabs[3].buffer.path.as_deref(), Some("/w/lib/sub/c.rs"));
}

#[test]
fn deleting_a_directory_closes_every_tab_under_it() {
    let tabs = vec![tab("/w/src/a.rs"), tab("/w/b.rs"), tab("/w/src/sub/c.rs"), tab("/w/srcx")];
    assert_eq!(tabs_under(&tabs, "/w/src"), vec![0, 2]);
    assert_eq!(tabs_under(&tabs, "/w/b.rs"), vec![1]);
    assert_eq!(tabs_under(&tabs, "/elsewhere"), Vec::<usize>::new());
}

#[test]
fn status_refresh_closes_diff_tabs_that_left_the_change_lists() {
    let mut tabs = vec![tab("/w/a.rs"), tab("/w/b.rs"), tab("/w/c.rs"), tab("/w/d.rs")];
    tabs[0].diff_mode = true; // still changed
    tabs[1].diff_mode = true; // reverted: stale
    tabs[2].diff_mode = true;
    tabs[2].read_only = true; // a commit's diff view: kept
    let staged = vec![entry("/w/a.rs")];
    let unstaged = vec![entry("/w/d.rs")];
    assert_eq!(stale_diff_tabs(&tabs, &staged, &unstaged), vec![1]);
    assert_eq!(head_reloads(&tabs), vec!["/w/a.rs".to_string(), "/w/b.rs".to_string(), "/w/d.rs".to_string()]);
}

#[test]
fn loaded_status_keeps_the_selection_on_a_row() {
    let mut g = GitStatus::default();
    g.selected = 5;
    g.apply_loaded(Some("main".to_string()), vec![entry("/w/a.rs")], vec![entry("/w/b.rs")], true, 1, 0, true, true, Vec::new());
    assert_eq!(g.selected, 1);
    assert_eq!(g.branch.as_deref(), Some("main"));
    assert_eq!(g.ahead, 1);
    g.apply_loaded(None, Vec::new(), Vec::new(), false, 0, 0, false, false, Vec::new());
    assert_eq!(g.selected, 0);
}

#[test]
fn rescan_clamps_the_tree_selection() {
    let mut t = FileTree::new("/w".to_string());
    t.set_children("/w", vec![("/w/a".to_string(), false), ("/w/b".to_string(), false)]);
    t.selected = 7;
    t.clamp_selection();
    assert_eq!(t.selected, 1);
}

#[test]
fn stale_search_results_are_dropped() {
    let mut s = SearchState::default();
    s.query.set_content("foo".to_string());
    let m = SearchMatch { path: "/w/a".to_string(), rel: "a".to_string(), line_no: 1, line: "foo".to_string() };
    assert_eq!(s.accept_results("fo", vec![m.clone()]), None);
    assert!(s.results.is_empty());
    s.selected = 3;
    assert_eq!(s.accept_results("foo", vec![m.clone(), m]), Some("2 results found".to_string()));
    assert_eq!(s.results.len(), 2);
    assert_eq!(s.selected, 0);
}

#[test]
fn replace_done_reports_and_reruns_the_search() {
    assert_eq!(replace_note(12, 3), "12 changes, 3 files");
    let mut s = SearchState::default();
    assert_eq!(s.rerun(), None);
    s.query.set_content("x".to_string());
    s.match_case = true;
    assert_eq!(
        s.rerun(),
        Some(SearchRequest::Search { query: "x".to_string(), use_regex: false, match_case: true, search_hidden: false })
    );
}

#[test]
fn quitting_asks_only_with_unsaved_changes() {
    let mut tabs = vec![tab("/w/a"), tab("/w/b")];
    assert_eq!(quit_prompt(&tabs), None);
    tabs[0].buffer.dirty = true;
    assert_eq!(quit_prompt(&tabs), Some("1 file has unsaved changes. Save before quitting?".to_string()));
    tabs[1].buffer.dirty = true;
    assert_eq!(quit_prompt(&tabs), Some("2 files have unsaved changes. Save before quitting?".to_string()));
}

#[test]
fn disk_changes_rescan_loaded_directories_and_refresh_git() {
    let mut t = FileTree::new("/w".to_string());
    t.set_children("/w", vec![("/w/src".to_string(), true), ("/w/a".to_string(), false)]);
    assert_eq!(
        disk_change_plan("/w/new.rs", &t, false),
        DiskPlan { rescan: Some("/w".to_string()), refresh_git: false }
    );
    // "/w/src" has not been scanned yet: nothing to rescan.
    assert_eq!(disk_change_plan("/w/src/x.rs", &t, true), DiskPlan { rescan: None, refresh_git: true });
    t.set_children("/w/src", vec![]);
    assert_eq!(
        disk_change_plan("/w/src/x.rs", &t, false),
        DiskPlan { rescan: Some("/w/src".to_string()), refresh_git: false }
    );
    assert_eq!(disk_change_plan("/w/.git/index", &t, false), DiskPlan { rescan: None, refresh_git: true });
}
