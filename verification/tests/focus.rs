use coder::focus::{escape, open_panel, select_panel, toggle_panel, toggle_sidebar, toggle_terminal, EscapeEffect, PanelRequest};
use coder::model::{Focus, LayoutState, Panel};

#[test]
fn hiding_the_sidebar_returns_the_focus_to_the_editor() {
    let mut l = LayoutState::default();
    assert_eq!(toggle_sidebar(&mut l, Focus::SearchInput, Panel::Search), Focus::Editor);
    assert!(!l.sidebar_open);
    assert_eq!(toggle_sidebar(&mut l, Focus::Editor, Panel::Search), Focus::SearchInput);
    assert!(l.sidebar_open);
    assert_eq!(toggle_sidebar(&mut l, Focus::Terminal, Panel::Files), Focus::Terminal);
    assert_eq!(toggle_sidebar(&mut l, Focus::Terminal, Panel::Files), Focus::Sidebar);
}

#[test]
fn panel_shortcuts_go_to_the_panel_and_collapse_on_a_second_press() {
    let mut l = LayoutState::default();
    let mut active = Panel::Files;
    let s = select_panel(&mut l, &mut active, Focus::Editor, Panel::Git, true);
    assert_eq!(active, Panel::Git);
    assert_eq!(s.focus, Focus::Sidebar);
    assert!(s.git_files_zone);
    assert_eq!(s.request, PanelRequest::LoadGitStatus);
    // The panel is open but the editor has the focus: the shortcut just goes there.
    let s = select_panel(&mut l, &mut active, Focus::Editor, Panel::Git, true);
    assert!(l.sidebar_open);
    assert_eq!(s.focus, Focus::Sidebar);
    // Pressed again with the focus in it: the sidebar collapses.
    let s = select_panel(&mut l, &mut active, Focus::Sidebar, Panel::Git, true);
    assert!(!l.sidebar_open);
    assert_eq!(s.focus, Focus::Editor);
    assert_eq!(s.request, PanelRequest::Nothing);
    let s = select_panel(&mut l, &mut active, Focus::Editor, Panel::Search, true);
    assert_eq!(s.focus, Focus::SearchInput);
    assert!(s.search_query_field);
    let s = open_panel(&mut l, &mut active, Focus::Editor, Panel::Files, false, false);
    assert_eq!(s.request, PanelRequest::ScanRoot);
    let s = open_panel(&mut l, &mut active, Focus::Editor, Panel::Extensions, false, true);
    assert_eq!(s.request, PanelRequest::CheckTools);
    // A click on the open panel's icon collapses whatever has the focus.
    let s = toggle_panel(&mut l, &mut active, Focus::Terminal, Panel::Extensions, true);
    assert!(!l.sidebar_open);
    assert_eq!(s.focus, Focus::Terminal);
}

#[test]
fn terminal_toggle_spawns_a_shell_once() {
    let mut l = LayoutState::default();
    assert_eq!(toggle_terminal(&mut l, Focus::Editor, false, false), (Focus::Terminal, true));
    assert!(l.terminal_open);
    assert_eq!(toggle_terminal(&mut l, Focus::Terminal, false, true), (Focus::Editor, false));
    assert_eq!(toggle_terminal(&mut l, Focus::Editor, false, true), (Focus::Terminal, false));
    assert_eq!(toggle_terminal(&mut l, Focus::Sidebar, true, false), (Focus::Sidebar, false));
}

#[test]
fn escape_by_focus() {
    assert_eq!(escape(Focus::Find, Panel::Files), EscapeEffect::CloseFind);
    assert_eq!(escape(Focus::Editor, Panel::Files), EscapeEffect::ClearSelection);
    assert_eq!(escape(Focus::Sidebar, Panel::Search), EscapeEffect::FocusTo(Focus::SearchInput));
    assert_eq!(escape(Focus::Sidebar, Panel::Git), EscapeEffect::Nothing);
    assert_eq!(escape(Focus::SearchInput, Panel::Search), EscapeEffect::FocusTo(Focus::Editor));
    assert_eq!(escape(Focus::GitCommit, Panel::Git), EscapeEffect::CommitBoxToList);
    assert_eq!(escape(Focus::Terminal, Panel::Git), EscapeEffect::ClearTerminalSelection);
}
