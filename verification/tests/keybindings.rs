use coder::keybindings::{parse, parse_key, to_toml, Action, Bindable, Chord, Keybindings};
use coder::keys::{KeyCode, KeyEvent};
use coder::model::{Focus, Panel};

fn ev(code: KeyCode, ctrl: bool, shift: bool, alt: bool) -> KeyEvent {
    KeyEvent::new(code, ctrl, shift, alt)
}

#[test]
fn defaults_resolve_global_and_scoped() {
    let kb = Keybindings::default();
    assert_eq!(kb.resolve(ev(KeyCode::Char('q'), true, false, false), Focus::Editor), Some(Action::Quit));
    assert_eq!(kb.resolve(ev(KeyCode::Char('c'), true, false, false), Focus::Editor), Some(Action::Copy));
    assert!(kb.resolve(ev(KeyCode::Char('c'), true, false, false), Focus::Sidebar).is_none());
}

#[test]
fn alt7_opens_shortcuts() {
    let kb = Keybindings::default();
    assert_eq!(kb.resolve(ev(KeyCode::Char('7'), false, false, true), Focus::Editor), Some(Action::ShowShortcuts));
}

#[test]
fn plain_typing_is_not_a_command() {
    let kb = Keybindings::default();
    assert!(kb.resolve(ev(KeyCode::Char('a'), false, false, false), Focus::Editor).is_none());
}

#[test]
fn overrides_apply_and_round_trip() {
    let kb = parse("[global]\nquit = \"ctrl+shift+q\"\n");
    assert!(kb.resolve(ev(KeyCode::Char('q'), true, false, false), Focus::Editor).is_none());
    assert_eq!(kb.resolve(ev(KeyCode::Char('q'), true, true, false), Focus::Editor), Some(Action::Quit));
    let restored = parse(&to_toml(&kb));
    assert_eq!(restored.resolve(ev(KeyCode::Char('q'), true, true, false), Focus::Editor), Some(Action::Quit));
}

#[test]
fn legacy_shift_encodings_fold_into_the_chord() {
    let kb = Keybindings::default();
    // BackTab is Shift+Tab; an uppercase letter carries Shift.
    assert_eq!(kb.resolve(ev(KeyCode::BackTab, false, false, false), Focus::Editor), Some(Action::PrevTab));
    assert_eq!(kb.resolve(ev(KeyCode::Char('N'), false, false, true), Focus::Sidebar), Some(Action::NewFolder));
    assert_eq!(kb.resolve(ev(KeyCode::Char('2'), false, false, true), Focus::Terminal), Some(Action::SelectPanel(Panel::Search)));
}

#[test]
fn chords_parse_case_insensitively_and_reject_unknown_keys() {
    let c = Chord::parse(" Ctrl + Shift + E ").unwrap();
    assert_eq!(c, Chord { code: KeyCode::Char('e'), ctrl: true, shift: true, alt: false });
    assert_eq!(Chord::parse("f12").unwrap().code, KeyCode::F(12));
    assert!(Chord::parse("f13").is_none());
    assert!(Chord::parse("ctrl+").is_none());
    assert!(Chord::parse("ctrl+bogus").is_none());
    assert_eq!(parse_key("return"), Some(KeyCode::Enter));
    assert_eq!(parse_key("f"), Some(KeyCode::Char('f')));
    assert_eq!(parse_key("f+3"), Some(KeyCode::F(3)));
}

#[test]
fn chords_print_and_read_back() {
    for c in [
        Chord { code: KeyCode::Char(' '), ctrl: true, shift: false, alt: false },
        Chord { code: KeyCode::F(2), ctrl: false, shift: false, alt: false },
        Chord { code: KeyCode::Up, ctrl: false, shift: true, alt: true },
        Chord { code: KeyCode::Char('7'), ctrl: false, shift: false, alt: true },
    ] {
        assert_eq!(Chord::parse(&c.to_chord_string()), Some(c));
    }
    assert_eq!(Chord { code: KeyCode::Char(' '), ctrl: true, shift: false, alt: false }.to_chord_string(), "ctrl+space");
}

#[test]
fn file_lists_every_command_by_section() {
    let text = to_toml(&Keybindings::default());
    assert!(text.contains("[global]\nquit = \"ctrl+q\"\n"));
    assert!(text.contains("[editor]\ncopy = \"ctrl+c\"\n"));
    assert!(text.contains("[sidebar]\nnew_file = \"ctrl+n\"\nnew_folder = \"shift+alt+n\"\ndelete_entry = \"delete\"\n"));
    assert_eq!(Bindable::all().len(), 31);
    assert_eq!(Bindable::by_name("editor", "format"), Some(Bindable::Format));
    assert_eq!(Bindable::by_name("global", "format"), None);
}

#[test]
fn unknown_entries_and_bad_files_leave_defaults() {
    let kb = parse("this is not toml = = =");
    assert_eq!(kb.resolve(ev(KeyCode::Char('s'), true, false, false), Focus::Editor), Some(Action::Save));
    let kb = parse("[global]\nnope = \"ctrl+k\"\nsave = \"ctrl+bogus\"\n[editor]\nquit = \"ctrl+k\"\n");
    assert_eq!(kb.resolve(ev(KeyCode::Char('s'), true, false, false), Focus::Editor), Some(Action::Save));
    assert!(kb.resolve(ev(KeyCode::Char('k'), true, false, false), Focus::Editor).is_none());
}

#[test]
fn set_rebinds_one_command() {
    let mut kb = Keybindings::default();
    kb.set(Bindable::Save, Chord { code: KeyCode::F(5), ctrl: false, shift: false, alt: false });
    assert_eq!(kb.resolve(ev(KeyCode::F(5), false, false, false), Focus::Sidebar), Some(Action::Save));
    assert!(kb.resolve(ev(KeyCode::Char('s'), true, false, false), Focus::Editor).is_none());
    assert_eq!(kb.chord_text(Bindable::Save), "f5");
    // Other commands keep their chords.
    assert_eq!(kb.chord_text(Bindable::Quit), Keybindings::default().chord_text(Bindable::Quit));
}
