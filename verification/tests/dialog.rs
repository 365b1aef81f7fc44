use coder::dialog::{dialog_key, DialogEffect, DialogKey, DialogStep};
use coder::events::quit_prompt;
use coder::keybindings::{Action, Keybindings};
use coder::model::Tab;
use coder::keys::{KeyCode, KeyEvent};
use coder::model::{Dialog, DialogAction, FindField, FindState, SearchField, SearchMatch, SearchRequest, SearchState};

fn key(c: char, ctrl: bool) -> KeyEvent {
    KeyEvent::new(KeyCode::Char(c), ctrl, false, false)
}

fn plain(code: KeyCode) -> KeyEvent {
    KeyEvent::new(code, false, false, false)
}

fn ask() -> Dialog {
    Dialog::ask("Delete?".to_string(), "Are you sure?".to_string(), DialogAction::NoAction)
}

#[test]
fn global_shortcut_still_fires_while_a_dialog_is_open() {
    // A dialog must not swallow Ctrl+Q: it falls through to the global
    // shortcuts, which quit (no tab has unsaved changes, so no question).
    let mut dialog = Some(ask());
    let step = dialog_key(&mut dialog, key('q', true), &Keybindings::default());
    assert_eq!(step, DialogStep::Shortcut(Some(Action::Quit)));
    let tabs: Vec<Tab> = Vec::new();
    let should_quit = quit_prompt(&tabs).is_none();
    assert!(should_quit, "Ctrl+Q must quit even with a dialog open");
}

#[test]
fn dialogs_own_keys_are_not_overridden_by_the_fallback() {
    // 'y' is handled by the Ask dialog itself: it confirms and closes it.
    let mut dialog = Some(ask());
    let step = dialog_key(&mut dialog, key('y', false), &Keybindings::default());
    assert_eq!(step, DialogStep::Confirmed(DialogEffect::Nothing));
    assert!(dialog.is_none(), "'y' should confirm and close the dialog");
}

#[test]
fn ask_dialog_buttons_toggle_and_enter_follows_the_selection() {
    let mut d = ask();
    assert_eq!(d.handle_key(plain(KeyCode::Right)), DialogKey::Handled);
    assert_eq!(d.selected, 1);
    assert_eq!(d.handle_key(plain(KeyCode::Enter)), DialogKey::Cancel);
    assert_eq!(d.handle_key(plain(KeyCode::Tab)), DialogKey::Handled);
    assert_eq!(d.selected, 0);
    assert_eq!(d.handle_key(plain(KeyCode::Enter)), DialogKey::Confirm);
    assert_eq!(d.handle_key(key('n', false)), DialogKey::Cancel);
    assert_eq!(d.handle_key(key('h', false)), DialogKey::Cancel);
    assert_eq!(d.handle_key(key('e', false)), DialogKey::Confirm);
    assert_eq!(d.handle_key(plain(KeyCode::Esc)), DialogKey::Cancel);
}

#[test]
fn info_dialog_closes_on_enter_or_esc_only() {
    let mut d = Dialog::info("Note".to_string(), "Done".to_string());
    assert_eq!(d.handle_key(plain(KeyCode::Esc)), DialogKey::Confirm);
    assert_eq!(d.handle_key(plain(KeyCode::Enter)), DialogKey::Confirm);
    assert_eq!(d.handle_key(key('y', false)), DialogKey::Fallback);
}

#[test]
fn input_dialog_types_and_confirms_on_enter() {
    let mut d = Dialog::input("New File".to_string(), "Name:".to_string(), String::new(),
        DialogAction::NewFile("/work/src".to_string()));
    assert_eq!(d.handle_key(key('a', false)), DialogKey::Handled);
    assert_eq!(d.handle_key(key('.', false)), DialogKey::Handled);
    assert_eq!(d.handle_key(key('r', false)), DialogKey::Handled);
    assert_eq!(d.handle_key(key('s', false)), DialogKey::Handled);
    assert_eq!(d.input.content(), "a.rs");
    assert_eq!(d.handle_key(key('s', true)), DialogKey::Fallback);
    assert_eq!(d.handle_key(plain(KeyCode::Enter)), DialogKey::Confirm);
    assert_eq!(
        d.confirm_effect(),
        DialogEffect::CreatePath { dir: "/work/src".to_string(), path: "/work/src/a.rs".to_string(), is_dir: false }
    );
    assert_eq!(d.handle_key(plain(KeyCode::Esc)), DialogKey::Cancel);
}

#[test]
fn input_dialog_paste_folds_newlines() {
    let mut d = Dialog::input("Rename".to_string(), "Name:".to_string(), "ab".to_string(),
        DialogAction::Rename("/w/ab".to_string()));
    d.paste("c\nd");
    assert_eq!(d.input.content(), "abc d");
    let mut a = ask();
    a.paste("zz");
    assert_eq!(a.input.content(), "");
}

#[test]
fn confirm_checks_the_typed_name() {
    let bad = Dialog::input("New Folder".to_string(), String::new(), "../x".to_string(),
        DialogAction::NewFolder("/w".to_string()));
    assert_eq!(bad.confirm_effect(), DialogEffect::InvalidName("../x".to_string()));
    let empty = Dialog::input("New Folder".to_string(), String::new(), "   ".to_string(),
        DialogAction::NewFolder("/w".to_string()));
    assert_eq!(empty.confirm_effect(), DialogEffect::Nothing);
    let folder = Dialog::input("New Folder".to_string(), String::new(), " lib ".to_string(),
        DialogAction::NewFolder("/w".to_string()));
    assert_eq!(
        folder.confirm_effect(),
        DialogEffect::CreatePath { dir: "/w".to_string(), path: "/w/lib".to_string(), is_dir: true }
    );
}

#[test]
fn rename_stays_in_the_directory_and_skips_an_unchanged_name() {
    let same = Dialog::input("Rename".to_string(), String::new(), "main.rs".to_string(),
        DialogAction::Rename("/w/src/main.rs".to_string()));
    assert_eq!(same.confirm_effect(), DialogEffect::Nothing);
    let other = Dialog::input("Rename".to_string(), String::new(), "lib.rs".to_string(),
        DialogAction::Rename("/w/src/main.rs".to_string()));
    assert_eq!(
        other.confirm_effect(),
        DialogEffect::RenamePath { from: "/w/src/main.rs".to_string(), to: "/w/src/lib.rs".to_string() }
    );
}

#[test]
fn confirm_passes_the_other_actions_through() {
    let d = Dialog::ask(String::new(), String::new(), DialogAction::Delete("/w/x".to_string()));
    assert_eq!(d.confirm_effect(), DialogEffect::DeletePath("/w/x".to_string()));
    let d = Dialog::ask(String::new(), String::new(), DialogAction::GitRevert("a.rs".to_string()));
    assert_eq!(d.confirm_effect(), DialogEffect::GitRevert("a.rs".to_string()));
    let d = Dialog::ask(String::new(), String::new(), DialogAction::CloseTab(3, "/w/x".to_string()));
    assert_eq!(d.confirm_effect(), DialogEffect::CloseTab(3));
    let d = Dialog::ask(String::new(), String::new(), DialogAction::ResetKeybindings);
    assert_eq!(d.confirm_effect(), DialogEffect::ResetKeybindings);
    let d = Dialog::ask(String::new(), String::new(), DialogAction::ResetConfig);
    assert_eq!(d.confirm_effect(), DialogEffect::ResetConfig);
    assert_eq!(ask().confirm_effect(), DialogEffect::Nothing);
}

#[test]
fn search_tab_does_not_focus_the_hidden_replace_field() {
    let mut s = SearchState::default();
    assert!(!s.replace_mode);
    s.toggle_field();
    assert_eq!(s.field, SearchField::Query);
}

#[test]
fn search_tab_cycles_fields_once_replace_mode_is_on() {
    let mut s = SearchState::default();
    s.replace_mode = true;
    s.toggle_field();
    assert_eq!(s.field, SearchField::Replace);
    s.toggle_field();
    assert_eq!(s.field, SearchField::Query);
}

#[test]
fn find_tab_needs_the_replace_row() {
    let mut f = FindState::default();
    f.toggle_field();
    assert_eq!(f.field, FindField::Query);
    f.replace_mode = true;
    f.toggle_field();
    assert_eq!(f.field, FindField::Replace);
}

#[test]
fn search_submit_picks_search_or_replace() {
    let mut s = SearchState::default();
    assert_eq!(s.submit(), None);
    s.query.set_content("foo".to_string());
    s.replace.set_content("bar".to_string());
    s.use_regex = true;
    assert_eq!(
        s.submit(),
        Some(SearchRequest::Search { query: "foo".to_string(), use_regex: true, match_case: false, search_hidden: false })
    );
    s.replace_mode = true;
    s.toggle_field();
    assert_eq!(
        s.submit(),
        Some(SearchRequest::Replace {
            query: "foo".to_string(),
            replace: "bar".to_string(),
            use_regex: true,
            match_case: false,
            search_hidden: false
        })
    );
}

#[test]
fn replace_buttons_need_a_query_and_a_result() {
    let mut s = SearchState::default();
    assert_eq!(s.replace_all_request(), None);
    s.query.set_content("a".to_string());
    s.replace.set_content("b".to_string());
    assert_eq!(
        s.replace_all_request(),
        Some(SearchRequest::Replace {
            query: "a".to_string(),
            replace: "b".to_string(),
            use_regex: false,
            match_case: false,
            search_hidden: false
        })
    );
    assert_eq!(s.replace_line_request(), None);
    s.results.push(SearchMatch { path: "/w/x".to_string(), rel: "x".to_string(), line_no: 4, line: "a".to_string() });
    assert_eq!(
        s.replace_line_request(),
        Some(SearchRequest::ReplaceLine {
            path: "/w/x".to_string(),
            line_no: 4,
            query: "a".to_string(),
            replace: "b".to_string(),
            use_regex: false,
            match_case: false
        })
    );
}
