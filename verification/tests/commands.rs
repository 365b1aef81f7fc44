use coder::commands::{
    enter_key, in_git_panel, nav_moves, save_step, shift_tab, tab_key, tree_shortcuts_act, typing_asks_completion,
    EnterKey, SaveStep, SavedFile, ShiftTab, TabKey,
};
use coder::model::{Focus, GitZone, Panel};

#[test]
fn git_panel_holds_focus_only_when_open_and_focused() {
    assert!(in_git_panel(Panel::Git, true, Focus::Sidebar));
    assert!(in_git_panel(Panel::Git, true, Focus::GitCommit));
    assert!(!in_git_panel(Panel::Git, false, Focus::Sidebar));
    assert!(!in_git_panel(Panel::Git, true, Focus::Editor));
    assert!(!in_git_panel(Panel::Files, true, Focus::Sidebar));
}

#[test]
fn save_skips_protected_tabs_and_asks_for_untitled_ones() {
    assert_eq!(save_step(true, Some(0), true, false, false, SavedFile::Other), SaveStep::Skip);
    assert_eq!(save_step(false, Some(2), false, true, true, SavedFile::Other), SaveStep::AskPath(2));
    assert_eq!(save_step(false, None, false, false, false, SavedFile::Other), SaveStep::Skip);
    assert_eq!(save_step(false, Some(0), true, true, true, SavedFile::Other), SaveStep::Format);
    assert_eq!(save_step(false, Some(0), true, true, false, SavedFile::Config), SaveStep::Write(SavedFile::Config));
    assert_eq!(save_step(false, Some(0), true, false, true, SavedFile::Keybindings), SaveStep::Write(SavedFile::Keybindings));
}

#[test]
fn tab_and_shift_tab_depend_on_selection_and_panel() {
    assert_eq!(tab_key(Focus::Editor, true), TabKey::Indent);
    assert_eq!(tab_key(Focus::Editor, false), TabKey::Spaces);
    assert_eq!(tab_key(Focus::Sidebar, true), TabKey::Spaces);
    assert_eq!(shift_tab(Focus::Editor, true, true), ShiftTab::Dedent);
    assert_eq!(shift_tab(Focus::Sidebar, true, true), ShiftTab::ZoneBack);
    assert_eq!(shift_tab(Focus::Editor, false, false), ShiftTab::PrevTab);
}

#[test]
fn git_buttons_keep_the_arrows_and_take_enter() {
    assert!(!nav_moves(true, GitZone::Push));
    assert!(nav_moves(true, GitZone::Files));
    assert!(nav_moves(false, GitZone::Push));
    assert_eq!(enter_key(true), EnterKey::GitZone);
    assert_eq!(enter_key(false), EnterKey::Selection);
}

#[test]
fn identifier_characters_ask_for_completions() {
    assert!(typing_asks_completion('a'));
    assert!(typing_asks_completion('7'));
    assert!(typing_asks_completion('_'));
    assert!(typing_asks_completion('.'));
    assert!(typing_asks_completion('é'));
    assert!(!typing_asks_completion(' '));
    assert!(!typing_asks_completion('('));
}

#[test]
fn tree_shortcuts_belong_to_the_files_panel() {
    assert!(tree_shortcuts_act(Panel::Files));
    assert!(!tree_shortcuts_act(Panel::Git));
}
