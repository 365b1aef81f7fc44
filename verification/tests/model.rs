use coder::buffer::Buffer;
use coder::git::{CommitDiff, CommitRow, GitCommit, GitEntry, GitState};
use coder::model::{
    parse_panel, Dialog, DialogAction, DialogKind, FindState, GitStatus, GitZone, MenuItem, Panel,
    QuickbarItem, Tab, toast_expired_after,
};

#[test]
fn git_zone_tab_order_wraps_both_ways() {
    assert_eq!(GitZone::Message.step(1), GitZone::Fetch);
    assert_eq!(GitZone::Push.step(1), GitZone::Uncommit);
    assert_eq!(GitZone::Commit.step(1), GitZone::Files);
    assert_eq!(GitZone::Files.step(1), GitZone::Message);
    assert_eq!(GitZone::Message.step(-1), GitZone::Files);
    assert_eq!(GitZone::Fetch.step(-1), GitZone::Message);
    for z in [
        GitZone::Message,
        GitZone::Fetch,
        GitZone::Pull,
        GitZone::Push,
        GitZone::Uncommit,
        GitZone::Commit,
        GitZone::Files,
    ] {
        assert_eq!(z.step(1).step(-1), z);
    }
}

#[test]
fn zone_steps_wrap_by_any_distance() {
    assert_eq!(GitZone::Message.step(7), GitZone::Message);
    assert_eq!(GitZone::Message.step(-8), GitZone::Files);
    assert_eq!(GitZone::Pull.step(isize::MIN).step(isize::MAX).step(1), GitZone::Pull);
}

fn entry(rel: &str) -> GitEntry {
    GitEntry { path: rel.to_string(), rel: rel.to_string(), state: GitState::Modified }
}

#[test]
fn selection_runs_changes_then_history() {
    let mut g = GitStatus {
        staged: vec![entry("a.rs")],
        unstaged: vec![entry("b.rs"), entry("c.rs")],
        ..GitStatus::default()
    };
    g.history = vec![
        GitCommit { hash: "aaaaaaa".to_string(), summary: "first".to_string() },
        GitCommit { hash: "bbbbbbb".to_string(), summary: "second".to_string() },
    ];
    assert_eq!(g.changes_len(), 3);
    assert_eq!(g.nav_len(), 5);
    assert_eq!(g.entry_at(0).map(|(e, staged)| (e.rel.as_str(), staged)), Some(("a.rs", true)));
    assert_eq!(g.entry_at(2).map(|(e, staged)| (e.rel.as_str(), staged)), Some(("c.rs", false)));
    assert!(g.commit_at(2).is_none());
    assert_eq!(g.commit_at(3).map(|c| c.hash.as_str()), Some("aaaaaaa"));
    assert_eq!(g.commit_at(4).map(|c| c.hash.as_str()), Some("bbbbbbb"));
    assert!(g.entry_at(4).is_none());
    assert!(g.commit_at(5).is_none());
}

#[test]
fn commit_diff_tab_is_a_read_only_diff_tab() {
    let diff = CommitDiff {
        old: "a\nb\n".to_string(),
        new: "a\nB\n".to_string(),
        rows: vec![CommitRow::Line(1), CommitRow::Line(2)],
        syntax_ext: Some("rs".to_string()),
    };
    let tab = Tab::commit_diff("2ea14b1", &diff);
    assert_eq!(tab.title(), "2ea14b1 diff");
    assert!(tab.read_only);
    assert!(tab.diff_mode);
    assert_eq!(tab.head_text.as_deref(), Some("a\nb\n"));
    assert_eq!(tab.buffer.path.as_deref(), Some("2ea14b1.rs"));
    assert_eq!(tab.commit_rows, vec![CommitRow::Line(1), CommitRow::Line(2)]);
}

#[test]
fn tab_titles() {
    let t = Tab::new(Buffer::new(Some("/src/main.rs".to_string()), "fn main() {}"));
    assert_eq!(t.title(), "main.rs");
    let mut d = Tab::new(Buffer::new(Some("/src/lib.rs".to_string()), ""));
    d.diff_mode = true;
    assert_eq!(d.title(), "lib.rs (diff)");
    let n = Tab::notice("/x/blob.bin".to_string(), "binary file".to_string());
    assert_eq!(n.notice.as_deref(), Some("binary file"));
    assert_eq!(n.buffer.text, "");
}

#[test]
fn push_and_uncommit_need_unpublished_work() {
    let mut g = GitStatus { is_repo: true, branch: Some("main".to_string()), has_remote: true, ..GitStatus::default() };
    assert!(g.can_push()); // no upstream yet
    g.has_upstream = true;
    assert!(!g.can_push());
    assert!(!g.can_undo_commit());
    g.ahead = 1;
    assert!(g.can_push());
    assert!(g.can_undo_commit());
    g.has_remote = false;
    assert!(!g.can_push());
}

#[test]
fn find_count_label() {
    let mut f = FindState::default();
    assert_eq!(f.count_label(), "0/0");
    f.matches = vec![(0, 1), (3, 4), (7, 9)];
    f.current = Some(1);
    assert_eq!(f.count_label(), "2/3");
}

#[test]
fn panels_menus_and_quickbar_items() {
    assert_eq!(Panel::Git.title(), "SOURCE CONTROL");
    assert_eq!(Panel::Themes.ascii_icon(), "Thm");
    assert_eq!(Panel::all().len(), 6);
    assert_eq!(parse_panel("Extensions"), Some(Panel::Extensions));
    assert_eq!(parse_panel("files"), None);
    assert_eq!(MenuItem::NewFolder.label(), "New Folder");
    assert_eq!(MenuItem::Delete.shortcut(), "Del");
    let p = QuickbarItem::Panel(Panel::Search);
    assert_eq!(p.marker(), '>');
    assert_eq!(p.label(), "Open panel: SEARCH");
    assert_eq!(p.filter_text(), "open panel: search");
    let f = QuickbarItem::File { path: "/w/A.rs".to_string(), rel: "A.rs".to_string() };
    assert_eq!((f.marker(), f.filter_text()), ('F', "a.rs".to_string()));
}

#[test]
fn dialogs_start_on_the_confirm_button() {
    let d = Dialog::input("Rename".to_string(), "New name:".to_string(), "old.rs".to_string(), DialogAction::Rename("/w/old.rs".to_string()));
    assert!(d.kind == DialogKind::Input);
    assert_eq!(d.input.content(), "old.rs");
    assert_eq!(d.input.cursor(), 6);
    assert_eq!(d.selected, 0);
    let a = Dialog::ask("Delete".to_string(), "Sure?".to_string(), DialogAction::ResetConfig);
    assert!(a.kind == DialogKind::Ask);
    let i = Dialog::info("Info".to_string(), "Done".to_string());
    assert!(i.kind == DialogKind::Info);
}

#[test]
fn toasts_expire_after_their_duration() {
    assert!(!toast_expired_after(2499));
    assert!(toast_expired_after(2500));
}

#[test]
fn quickbar_filters_commands_and_files_by_query() {
    let mut q = coder::model::QuickbarState::new();
    q.files = vec!["/w/src/Main.rs".to_string(), "/w/README.md".to_string(), "/elsewhere/x.rs".to_string()];
    q.rebuild_items("/w");
    assert_eq!(q.items.len(), 11);
    q.input.set_content("  main ".to_string());
    q.selected = 5;
    q.rebuild_items("/w");
    let labels: Vec<String> = q.items.iter().map(|i| i.label()).collect();
    assert_eq!(labels, ["src/Main.rs"]);
    assert_eq!(q.selected, 0);
    q.input.set_content("panel: s".to_string());
    q.rebuild_items("/w");
    let labels: Vec<String> = q.items.iter().map(|i| i.label()).collect();
    assert_eq!(labels, ["Open panel: SEARCH", "Open panel: SOURCE CONTROL", "Open panel: SETTINGS"]);
    q.input.set_content("x.rs".to_string());
    q.rebuild_items("/w");
    assert_eq!(q.items[0].label(), "/elsewhere/x.rs");
}

#[test]
fn quickbar_selection_stays_on_the_list() {
    let mut q = coder::model::QuickbarState::new();
    q.rebuild_items("/w");
    q.select_up();
    assert_eq!(q.selected, 0);
    for _ in 0..20 {
        q.select_down();
    }
    assert_eq!(q.selected, q.items.len() - 1);
}
