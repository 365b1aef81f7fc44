use coder::buffer::Buffer;
use coder::model::{DialogAction, Tab};
use coder::tab_set::{
    all_tabs_for, close_check, close_tab, commit_diff_tab_index, cycle_tab, diff_tab_index_for,
    open_plan, tab_index_for, CloseCheck, OpenPlan,
};

fn tab(path: &str) -> Tab {
    Tab::new(Buffer::new(Some(path.to_string()), "x"))
}

fn diff(path: &str) -> Tab {
    let mut t = tab(path);
    t.diff_mode = true;
    t
}

#[test]
fn finding_a_files_tabs() {
    let mut labeled = Tab::new(Buffer::new(None, ""));
    labeled.label = Some("abc1234 diff".to_string());
    let tabs = vec![diff("/w/a.rs"), tab("/w/b.rs"), tab("/w/a.rs"), labeled];
    assert_eq!(tab_index_for(&tabs, "/w/a.rs"), Some(2));
    assert_eq!(diff_tab_index_for(&tabs, "/w/a.rs"), Some(0));
    assert_eq!(diff_tab_index_for(&tabs, "/w/b.rs"), None);
    assert_eq!(all_tabs_for(&tabs, "/w/a.rs"), vec![0, 2]);
    assert_eq!(commit_diff_tab_index(&tabs, "abc1234"), Some(3));
    assert_eq!(commit_diff_tab_index(&tabs, "abc"), None);
    assert_eq!(open_plan(&tabs, "/w/b.rs", 7), OpenPlan::Focus(1));
    assert_eq!(open_plan(&tabs, "/w/c.rs", 7), OpenPlan::Load { goto: Some(7) });
    assert_eq!(open_plan(&tabs, "/w/c.rs", 0), OpenPlan::Load { goto: None });
}

#[test]
fn closing_keeps_the_active_tab_on_a_tab() {
    let mut tabs = vec![tab("/w/a.rs"), tab("/w/b.rs"), tab("/w/c.rs"), diff("/w/c.rs")];
    let mut active = Some(2);
    // Closing a tab left of the active one shifts it.
    assert_eq!(close_tab(&mut tabs, &mut active, 0), Some("/w/a.rs".to_string()));
    assert_eq!(active, Some(1));
    assert_eq!(tabs.len(), 3);
    // Another tab still shows c.rs: the server is not told it closed.
    assert_eq!(close_tab(&mut tabs, &mut active, 1), None);
    assert_eq!(active, Some(1));
    assert_eq!(tabs[1].buffer.path.as_deref(), Some("/w/c.rs"));
    // Closing the active last tab moves to the new last.
    assert_eq!(close_tab(&mut tabs, &mut active, 1), Some("/w/c.rs".to_string()));
    assert_eq!(active, Some(0));
    assert_eq!(close_tab(&mut tabs, &mut active, 5), None);
    assert_eq!(tabs.len(), 1);
    assert_eq!(close_tab(&mut tabs, &mut active, 0), Some("/w/b.rs".to_string()));
    assert_eq!(active, None);
    assert!(tabs.is_empty());
}

#[test]
fn cycling_wraps_both_ways() {
    assert_eq!(cycle_tab(0, None, 1), None);
    assert_eq!(cycle_tab(3, Some(2), 1), Some(0));
    assert_eq!(cycle_tab(3, Some(0), -1), Some(2));
    assert_eq!(cycle_tab(3, None, 1), Some(1));
    assert_eq!(cycle_tab(3, Some(1), 7), Some(2));
    assert_eq!(cycle_tab(3, Some(1), -7), Some(0));
    assert_eq!(cycle_tab(3, Some(1), isize::MIN), Some(((1i128 + isize::MIN as i128).rem_euclid(3)) as usize));
}

#[test]
fn closing_a_modified_file_asks_first() {
    let mut dirty = tab("/w/a.rs");
    dirty.buffer.dirty = true;
    let mut scratch = Tab::new(Buffer::new(None, "notes"));
    scratch.buffer.dirty = true;
    let tabs = vec![dirty, tab("/w/b.rs"), scratch];
    match close_check(&tabs, 0) {
        CloseCheck::Confirm(d) => {
            assert_eq!(d.title, "Close tab");
            assert_eq!(d.message, "Changes in '/w/a.rs' will be lost. Close anyway?");
            assert!(matches!(d.action, DialogAction::CloseTab(0, ref p) if p == "/w/a.rs"));
        }
        _ => panic!("a modified file asks first"),
    }
    assert!(matches!(close_check(&tabs, 1), CloseCheck::Close));
    assert!(matches!(close_check(&tabs, 2), CloseCheck::Close));
    assert!(matches!(close_check(&tabs, 3), CloseCheck::NoTab));
}

#[test]
fn cycling_there_and_back_returns() {
    for n in 1..6usize {
        for a in 0..n {
            for d in [-7isize, -1, 0, 1, 2, 9] {
                let there = cycle_tab(n, Some(a), d);
                assert_eq!(cycle_tab(n, there, -d), Some(a));
            }
        }
    }
}
