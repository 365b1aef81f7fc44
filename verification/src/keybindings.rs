//! User-editable keyboard shortcuts.
//!
//! The discrete command shortcuts (quit, save, copy, new file, ...) are kept in
//! a hand-editable TOML file, grouped by `[global]`, `[editor]` and `[sidebar]`,
//! and loaded into an ordered lookup table. Typing and cursor motion are not
//! remappable.
use vstd::prelude::*;
use vstd::string::*;

use crate::chars::is_whitespace;
use crate::keys::{KeyCode, KeyEvent};
use crate::model::{Focus, Panel};
use crate::num::{dec, lemma_dec_len, u64_to_string};
use crate::split::{split_chars, split_on, trim, trim_str};
use crate::text::{chars_of, str_eq, string_of};

verus! {

/// What a shortcut does.
#[derive(Clone, Copy, Debug, PartialEq, Eq, Structural)]
pub enum Action {
    Quit,
    ToggleSidebar,
    ToggleTerminal,
    CloseTab,
    Save,
    NextTab,
    PrevTab,
    OpenFind,
    OpenFindReplace,
    ShowShortcuts,
    OpenQuickbar,
    SelectPanel(Panel),
    RenameEntry,
    Copy,
    Cut,
    Paste,
    Undo,
    Redo,
    SelectAll,
    TriggerCompletion,
    Format,
    MoveLineUp,
    MoveLineDown,
    NewFile,
    NewFolder,
    DeleteEntry,
}

/// A remappable command: each maps to one `Action` and lives in one scope.
#[derive(Clone, Copy, Debug, PartialEq, Eq, Structural)]
pub enum Bindable {
    Quit,
    ToggleSidebar,
    ToggleTerminal,
    CloseTab,
    Save,
    NextTab,
    PrevTab,
    Find,
    Replace,
    Shortcuts,
    Quickbar,
    Explorer,
    Search,
    Git,
    Extensions,
    Themes,
    Settings,
    Rename,
    Copy,
    Cut,
    Paste,
    Undo,
    Redo,
    SelectAll,
    Completion,
    Format,
    MoveLineUp,
    MoveLineDown,
    NewFile,
    NewFolder,
    DeleteEntry,
}

/// Which focus modes a binding fires in.
#[derive(Clone, Copy, Debug, PartialEq, Eq, Structural)]
pub enum Scope {
    /// Fires in every focus.
    Global,
    /// Fires only while the editor is focused.
    Editor,
    /// Fires only while the sidebar is focused.
    Sidebar,
}

pub open spec fn scope_matches(s: Scope, focus: Focus) -> bool {
    match s {
        Scope::Global => true,
        Scope::Editor => focus == Focus::Editor,
        Scope::Sidebar => focus == Focus::Sidebar,
    }
}

pub open spec fn section_of(s: Scope) -> Seq<char> {
    match s {
        Scope::Global => "global"@,
        Scope::Editor => "editor"@,
        Scope::Sidebar => "sidebar"@,
    }
}

impl Scope {
    pub fn matches(self, focus: Focus) -> (b: bool)
        ensures
            b == scope_matches(self, focus),
    {
        match self {
            Scope::Global => true,
            Scope::Editor => focus == Focus::Editor,
            Scope::Sidebar => focus == Focus::Sidebar,
        }
    }

    /// The `[section]` this scope is written under in the file.
    pub fn section(self) -> (s: &'static str)
        ensures
            s@ == section_of(self),
    {
        match self {
            Scope::Global => "global",
            Scope::Editor => "editor",
            Scope::Sidebar => "sidebar",
        }
    }
}

/// Every command, in file order.
pub open spec fn all_bindables() -> Seq<Bindable> {
    seq![
        Bindable::Quit, Bindable::ToggleSidebar, Bindable::ToggleTerminal, Bindable::CloseTab,
        Bindable::Save, Bindable::NextTab, Bindable::PrevTab, Bindable::Find, Bindable::Replace,
        Bindable::Shortcuts, Bindable::Quickbar, Bindable::Explorer, Bindable::Search, Bindable::Git,
        Bindable::Extensions, Bindable::Themes, Bindable::Settings, Bindable::Rename, Bindable::Copy,
        Bindable::Cut, Bindable::Paste, Bindable::Undo, Bindable::Redo, Bindable::SelectAll,
        Bindable::Completion, Bindable::Format, Bindable::MoveLineUp, Bindable::MoveLineDown,
        Bindable::NewFile, Bindable::NewFolder, Bindable::DeleteEntry,
    ]
}

pub open spec fn bind_name(b: Bindable) -> Seq<char> {
    match b {
        Bindable::Quit => "quit"@,
        Bindable::ToggleSidebar => "toggle_sidebar"@,
        Bindable::ToggleTerminal => "toggle_terminal"@,
        Bindable::CloseTab => "close_tab"@,
        Bindable::Save => "save"@,
        Bindable::NextTab => "next_tab"@,
        Bindable::PrevTab => "prev_tab"@,
        Bindable::Find => "find"@,
        Bindable::Replace => "replace"@,
        Bindable::Shortcuts => "shortcuts"@,
        Bindable::Quickbar => "quickbar"@,
        Bindable::Explorer => "explorer"@,
        Bindable::Search => "search"@,
        Bindable::Git => "git"@,
        Bindable::Extensions => "extensions"@,
        Bindable::Themes => "themes"@,
        Bindable::Settings => "settings"@,
        Bindable::Rename => "rename"@,
        Bindable::Copy => "copy"@,
        Bindable::Cut => "cut"@,
        Bindable::Paste => "paste"@,
        Bindable::Undo => "undo"@,
        Bindable::Redo => "redo"@,
        Bindable::SelectAll => "select_all"@,
        Bindable::Completion => "completion"@,
        Bindable::Format => "format"@,
        Bindable::MoveLineUp => "move_line_up"@,
        Bindable::MoveLineDown => "move_line_down"@,
        Bindable::NewFile => "new_file"@,
        Bindable::NewFolder => "new_folder"@,
        Bindable::DeleteEntry => "delete_entry"@,
    }
}

pub open spec fn bind_scope(b: Bindable) -> Scope {
    match b {
        Bindable::Copy | Bindable::Cut | Bindable::Paste | Bindable::Undo | Bindable::Redo
        | Bindable::SelectAll | Bindable::Completion | Bindable::Format | Bindable::MoveLineUp
        | Bindable::MoveLineDown => Scope::Editor,
        Bindable::NewFile | Bindable::NewFolder | Bindable::DeleteEntry => Scope::Sidebar,
        _ => Scope::Global,
    }
}

pub open spec fn default_chord_of(b: Bindable) -> Seq<char> {
    match b {
        Bindable::Quit => "ctrl+q"@,
        Bindable::ToggleSidebar => "ctrl+b"@,
        Bindable::ToggleTerminal => "ctrl+j"@,
        Bindable::CloseTab => "ctrl+w"@,
        Bindable::Save => "ctrl+s"@,
        Bindable::NextTab => "ctrl+tab"@,
        Bindable::PrevTab => "shift+tab"@,
        Bindable::Find => "ctrl+f"@,
        Bindable::Replace => "ctrl+h"@,
        Bindable::Shortcuts => "alt+7"@,
        Bindable::Quickbar => "ctrl+p"@,
        Bindable::Explorer => "alt+1"@,
        Bindable::Search => "alt+2"@,
        Bindable::Git => "alt+3"@,
        Bindable::Extensions => "alt+4"@,
        Bindable::Themes => "alt+5"@,
        Bindable::Settings => "alt+6"@,
        Bindable::Rename => "f2"@,
        Bindable::Copy => "ctrl+c"@,
        Bindable::Cut => "ctrl+x"@,
        Bindable::Paste => "ctrl+v"@,
        Bindable::Undo => "ctrl+z"@,
        Bindable::Redo => "ctrl+y"@,
        Bindable::SelectAll => "ctrl+a"@,
        Bindable::Completion => "ctrl+space"@,
        Bindable::Format => "ctrl+alt+f"@,
        Bindable::MoveLineUp => "alt+up"@,
        Bindable::MoveLineDown => "alt+down"@,
        Bindable::NewFile => "ctrl+n"@,
        Bindable::NewFolder => "alt+shift+n"@,
        Bindable::DeleteEntry => "delete"@,
    }
}

pub open spec fn bind_action(b: Bindable) -> Action {
    match b {
        Bindable::Quit => Action::Quit,
        Bindable::ToggleSidebar => Action::ToggleSidebar,
        Bindable::ToggleTerminal => Action::ToggleTerminal,
        Bindable::CloseTab => Action::CloseTab,
        Bindable::Save => Action::Save,
        Bindable::NextTab => Action::NextTab,
        Bindable::PrevTab => Action::PrevTab,
        Bindable::Find => Action::OpenFind,
        Bindable::Replace => Action::OpenFindReplace,
        Bindable::Shortcuts => Action::ShowShortcuts,
        Bindable::Quickbar => Action::OpenQuickbar,
        Bindable::Explorer => Action::SelectPanel(Panel::Files),
        Bindable::Search => Action::SelectPanel(Panel::Search),
        Bindable::Git => Action::SelectPanel(Panel::Git),
        Bindable::Extensions => Action::SelectPanel(Panel::Extensions),
        Bindable::Themes => Action::SelectPanel(Panel::Themes),
        Bindable::Settings => Action::SelectPanel(Panel::Settings),
        Bindable::Rename => Action::RenameEntry,
        Bindable::Copy => Action::Copy,
        Bindable::Cut => Action::Cut,
        Bindable::Paste => Action::Paste,
        Bindable::Undo => Action::Undo,
        Bindable::Redo => Action::Redo,
        Bindable::SelectAll => Action::SelectAll,
        Bindable::Completion => Action::TriggerCompletion,
        Bindable::Format => Action::Format,
        Bindable::MoveLineUp => Action::MoveLineUp,
        Bindable::MoveLineDown => Action::MoveLineDown,
        Bindable::NewFile => Action::NewFile,
        Bindable::NewFolder => Action::NewFolder,
        Bindable::DeleteEntry => Action::DeleteEntry,
    }
}

/// The first command in file order with this section and name.
pub open spec fn by_name_in(bs: Seq<Bindable>, section: Seq<char>, name: Seq<char>) -> Option<Bindable>
    decreases bs.len(),
{
    if bs.len() == 0 {
        None
    } else if section_of(bind_scope(bs[0])) == section && bind_name(bs[0]) == name {
        Some(bs[0])
    } else {
        by_name_in(bs.drop_first(), section, name)
    }
}

impl Bindable {
    /// Every command, in file order (also the order the file is written in).
    pub fn all() -> (v: Vec<Bindable>)
        ensures
            v@ == all_bindables(),
    {
        vec![
            Bindable::Quit, Bindable::ToggleSidebar, Bindable::ToggleTerminal, Bindable::CloseTab,
            Bindable::Save, Bindable::NextTab, Bindable::PrevTab, Bindable::Find, Bindable::Replace,
            Bindable::Shortcuts, Bindable::Quickbar, Bindable::Explorer, Bindable::Search, Bindable::Git,
            Bindable::Extensions, Bindable::Themes, Bindable::Settings, Bindable::Rename, Bindable::Copy,
            Bindable::Cut, Bindable::Paste, Bindable::Undo, Bindable::Redo, Bindable::SelectAll,
            Bindable::Completion, Bindable::Format, Bindable::MoveLineUp, Bindable::MoveLineDown,
            Bindable::NewFile, Bindable::NewFolder, Bindable::DeleteEntry,
        ]
    }

    /// Stable key name in the file.
    pub fn name(self) -> (s: &'static str)
        ensures
            s@ == bind_name(self),
    {
        match self {
            Bindable::Quit => "quit",
            Bindable::ToggleSidebar => "toggle_sidebar",
            Bindable::ToggleTerminal => "toggle_terminal",
            Bindable::CloseTab => "close_tab",
            Bindable::Save => "save",
            Bindable::NextTab => "next_tab",
            Bindable::PrevTab => "prev_tab",
            Bindable::Find => "find",
            Bindable::Replace => "replace",
            Bindable::Shortcuts => "shortcuts",
            Bindable::Quickbar => "quickbar",
            Bindable::Explorer => "explorer",
            Bindable::Search => "search",
            Bindable::Git => "git",
            Bindable::Extensions => "extensions",
            Bindable::Themes => "themes",
            Bindable::Settings => "settings",
            Bindable::Rename => "rename",
            Bindable::Copy => "copy",
            Bindable::Cut => "cut",
            Bindable::Paste => "paste",
            Bindable::Undo => "undo",
            Bindable::Redo => "redo",
            Bindable::SelectAll => "select_all",
            Bindable::Completion => "completion",
            Bindable::Format => "format",
            Bindable::MoveLineUp => "move_line_up",
            Bindable::MoveLineDown => "move_line_down",
            Bindable::NewFile => "new_file",
            Bindable::NewFolder => "new_folder",
            Bindable::DeleteEntry => "delete_entry",
        }
    }

    pub fn scope(self) -> (s: Scope)
        ensures
            s == bind_scope(self),
    {
        match self {
            Bindable::Copy | Bindable::Cut | Bindable::Paste | Bindable::Undo | Bindable::Redo
            | Bindable::SelectAll | Bindable::Completion | Bindable::Format | Bindable::MoveLineUp
            | Bindable::MoveLineDown => Scope::Editor,
            Bindable::NewFile | Bindable::NewFolder | Bindable::DeleteEntry => Scope::Sidebar,
            _ => Scope::Global,
        }
    }

    /// The out-of-the-box chord (also what seeds a fresh file).
    pub fn default_chord(self) -> (s: &'static str)
        ensures
            s@ == default_chord_of(self),
    {
        match self {
            Bindable::Quit => "ctrl+q",
            Bindable::ToggleSidebar => "ctrl+b",
            Bindable::ToggleTerminal => "ctrl+j",
            Bindable::CloseTab => "ctrl+w",
            Bindable::Save => "ctrl+s",
            Bindable::NextTab => "ctrl+tab",
            Bindable::PrevTab => "shift+tab",
            Bindable::Find => "ctrl+f",
            Bindable::Replace => "ctrl+h",
            Bindable::Shortcuts => "alt+7",
            Bindable::Quickbar => "ctrl+p",
            Bindable::Explorer => "alt+1",
            Bindable::Search => "alt+2",
            Bindable::Git => "alt+3",
            Bindable::Extensions => "alt+4",
            Bindable::Themes => "alt+5",
            Bindable::Settings => "alt+6",
            Bindable::Rename => "f2",
            Bindable::Copy => "ctrl+c",
            Bindable::Cut => "ctrl+x",
            Bindable::Paste => "ctrl+v",
            Bindable::Undo => "ctrl+z",
            Bindable::Redo => "ctrl+y",
            Bindable::SelectAll => "ctrl+a",
            Bindable::Completion => "ctrl+space",
            Bindable::Format => "ctrl+alt+f",
            Bindable::MoveLineUp => "alt+up",
            Bindable::MoveLineDown => "alt+down",
            Bindable::NewFile => "ctrl+n",
            Bindable::NewFolder => "alt+shift+n",
            Bindable::DeleteEntry => "delete",
        }
    }

    /// The `Action` this command triggers.
    pub fn to_action(self) -> (a: Action)
        ensures
            a == bind_action(self),
    {
        match self {
            Bindable::Quit => Action::Quit,
            Bindable::ToggleSidebar => Action::ToggleSidebar,
            Bindable::ToggleTerminal => Action::ToggleTerminal,
            Bindable::CloseTab => Action::CloseTab,
            Bindable::Save => Action::Save,
            Bindable::NextTab => Action::NextTab,
            Bindable::PrevTab => Action::PrevTab,
            Bindable::Find => Action::OpenFind,
            Bindable::Replace => Action::OpenFindReplace,
            Bindable::Shortcuts => Action::ShowShortcuts,
            Bindable::Quickbar => Action::OpenQuickbar,
            Bindable::Explorer => Action::SelectPanel(Panel::Files),
            Bindable::Search => Action::SelectPanel(Panel::Search),
            Bindable::Git => Action::SelectPanel(Panel::Git),
            Bindable::Extensions => Action::SelectPanel(Panel::Extensions),
            Bindable::Themes => Action::SelectPanel(Panel::Themes),
            Bindable::Settings => Action::SelectPanel(Panel::Settings),
            Bindable::Rename => Action::RenameEntry,
            Bindable::Copy => Action::Copy,
            Bindable::Cut => Action::Cut,
            Bindable::Paste => Action::Paste,
            Bindable::Undo => Action::Undo,
            Bindable::Redo => Action::Redo,
            Bindable::SelectAll => Action::SelectAll,
            Bindable::Completion => Action::TriggerCompletion,
            Bindable::Format => Action::Format,
            Bindable::MoveLineUp => Action::MoveLineUp,
            Bindable::MoveLineDown => Action::MoveLineDown,
            Bindable::NewFile => Action::NewFile,
            Bindable::NewFolder => Action::NewFolder,
            Bindable::DeleteEntry => Action::DeleteEntry,
        }
    }

    /// The command written as `name` under `[section]`.
    pub fn by_name(section: &str, name: &str) -> (r: Option<Bindable>)
        ensures
            r == by_name_in(all_bindables(), section@, name@),
    {
        let all = Bindable::all();
        let n = all.len();
        assert(all@.skip(0) =~= all@);
        for i in 0..n
            invariant
                n == all@.len(),
                all@ == all_bindables(),
                by_name_in(all_bindables(), section@, name@) == by_name_in(all@.skip(i as int), section@, name@),
        {
            let b = all[i];
            proof {
                assert(all@.skip(i as int)[0] == b);
                assert(all@.skip(i as int).drop_first() =~= all@.skip(i + 1));
            }
            if str_eq(b.scope().section(), section) && str_eq(b.name(), name) {
                return Some(b);
            }
        }
        proof {
            assert(all@.skip(n as int).len() == 0);
        }
        None
    }
}

/// A key press as a comparable chord (letters normalized to lowercase).
#[derive(Clone, Copy, Debug, PartialEq, Eq, Structural)]
pub struct Chord {
    pub code: KeyCode,
    pub ctrl: bool,
    pub shift: bool,
    pub alt: bool,
}

pub open spec fn is_ascii_upper(c: char) -> bool {
    'A' <= c && c <= 'Z'
}

/// `char::to_ascii_lowercase`.
pub open spec fn ascii_lower_char(c: char) -> char {
    if is_ascii_upper(c) { ((c as int) + 32) as char } else { c }
}

/// `str::to_ascii_lowercase`.
pub open spec fn ascii_lower(s: Seq<char>) -> Seq<char> {
    s.map_values(|c: char| ascii_lower_char(c))
}

fn lower_char(c: char) -> (r: char)
    ensures
        r == ascii_lower_char(c),
{
    if c >= 'A' && c <= 'Z' {
        let v = (c as u32 + 32) as u8;
        v as char
    } else {
        c
    }
}

pub(crate) fn ascii_lower_str(s: &str) -> (r: String)
    ensures
        r@ == ascii_lower(s@),
{
    let cs = chars_of(s);
    let mut out: Vec<char> = Vec::new();
    let n = cs.len();
    for i in 0..n
        invariant
            n == cs@.len(),
            cs@ == s@,
            out@ == ascii_lower(s@.take(i as int)),
    {
        out.push(lower_char(cs[i]));
        assert(ascii_lower(s@.take(i + 1)) =~= ascii_lower(s@.take(i as int)).push(ascii_lower_char(cs@[i as int])));
    }
    assert(s@.take(n as int) =~= s@);
    string_of(out.as_slice())
}

/// The chord of a key press. Legacy terminals encode Shift in the character
/// itself (an uppercase letter, or BackTab for Shift+Tab): that is folded
/// back into `shift`.
pub open spec fn chord_of_event(key: KeyEvent) -> Chord {
    match key.code {
        KeyCode::BackTab => Chord { code: KeyCode::Tab, ctrl: key.ctrl, shift: true, alt: key.alt },
        KeyCode::Char(c) => Chord {
            code: KeyCode::Char(ascii_lower_char(c)),
            ctrl: key.ctrl,
            shift: key.shift || is_ascii_upper(c),
            alt: key.alt,
        },
        other => Chord { code: other, ctrl: key.ctrl, shift: key.shift, alt: key.alt },
    }
}

pub open spec fn is_digit(c: char) -> bool {
    '0' <= c && c <= '9'
}

pub open spec fn digits_value(d: Seq<char>) -> int
    decreases d.len(),
{
    if d.len() == 0 { 0 } else { digits_value(d.drop_last()) * 10 + (d.last() as int - '0' as int) }
}

/// The text after an optional leading '+'.
pub open spec fn digits_part(s: Seq<char>) -> Seq<char> {
    if s.len() > 0 && s[0] == '+' { s.drop_first() } else { s }
}

pub open spec fn all_digits(d: Seq<char>) -> bool {
    forall|i: int| 0 <= i < d.len() ==> is_digit(#[trigger] d[i])
}

/// `u8::from_str`: an optional '+', then one or more decimal digits whose
/// value fits in a byte.
pub open spec fn u8_parse(s: Seq<char>) -> Option<u8> {
    let d = digits_part(s);
    if d.len() > 0 && all_digits(d) && digits_value(d) <= 255 {
        Some(digits_value(d) as u8)
    } else {
        None
    }
}

/// The key a (lowercased) key name stands for.
pub open spec fn parse_key_spec(s: Seq<char>) -> Option<KeyCode> {
    if s == "space"@ {
        Some(KeyCode::Char(' '))
    } else if s == "tab"@ {
        Some(KeyCode::Tab)
    } else if s == "enter"@ || s == "return"@ {
        Some(KeyCode::Enter)
    } else if s == "esc"@ || s == "escape"@ {
        Some(KeyCode::Esc)
    } else if s == "delete"@ || s == "del"@ {
        Some(KeyCode::Delete)
    } else if s == "backspace"@ {
        Some(KeyCode::Backspace)
    } else if s == "up"@ {
        Some(KeyCode::Up)
    } else if s == "down"@ {
        Some(KeyCode::Down)
    } else if s == "left"@ {
        Some(KeyCode::Left)
    } else if s == "right"@ {
        Some(KeyCode::Right)
    } else if s == "home"@ {
        Some(KeyCode::Home)
    } else if s == "end"@ {
        Some(KeyCode::End)
    } else if s == "pageup"@ {
        Some(KeyCode::PageUp)
    } else if s == "pagedown"@ {
        Some(KeyCode::PageDown)
    } else if s.len() > 1 && s[0] == 'f' && u8_parse(s.drop_first()) is Some {
        let n = u8_parse(s.drop_first()).unwrap();
        if 1 <= n <= 12 { Some(KeyCode::F(n)) } else { None }
    } else if s.len() == 1 {
        Some(KeyCode::Char(ascii_lower_char(s[0])))
    } else {
        None
    }
}

/// The modifiers and key read from the '+'-separated parts of a chord: each
/// part is trimmed and lowercased; "ctrl", "shift" and "alt" set their flag,
/// an empty part is skipped, any other part names the key (the last one
/// wins) and fails the whole chord if it names none.
pub open spec fn chord_parts(parts: Seq<Seq<char>>) -> Option<(Option<KeyCode>, bool, bool, bool)>
    decreases parts.len(),
{
    if parts.len() == 0 {
        Some((None, false, false, false))
    } else {
        match chord_parts(parts.drop_last()) {
            None => None,
            Some((code, c, sh, a)) => {
                let p = ascii_lower(trim(parts.last()));
                if p == "ctrl"@ {
                    Some((code, true, sh, a))
                } else if p == "shift"@ {
                    Some((code, c, true, a))
                } else if p == "alt"@ {
                    Some((code, c, sh, true))
                } else if p.len() == 0 {
                    Some((code, c, sh, a))
                } else {
                    match parse_key_spec(p) {
                        Some(k) => Some((Some(k), c, sh, a)),
                        None => None,
                    }
                }
            },
        }
    }
}

proof fn lemma_chord_parts_stays_none(ps: Seq<Seq<char>>, i: int, j: int)
    requires
        0 <= i <= j <= ps.len(),
        chord_parts(ps.take(i)) is None,
    ensures
        chord_parts(ps.take(j)) is None,
    decreases j - i,
{
    if i < j {
        lemma_chord_parts_stays_none(ps, i, j - 1);
        assert(ps.take(j).drop_last() =~= ps.take(j - 1));
    }
}

/// A chord written as text: `"ctrl+shift+e"`, `"alt+up"`, `"f2"`, `"delete"`
/// (case-insensitive); `None` without a key or with an unknown one.
pub open spec fn chord_parse(s: Seq<char>) -> Option<Chord> {
    match chord_parts(split_on(s, '+')) {
        Some((Some(code), c, sh, a)) => Some(Chord { code, ctrl: c, shift: sh, alt: a }),
        _ => None,
    }
}

/// The name a key is written with.
pub open spec fn key_str(code: KeyCode) -> Seq<char> {
    match code {
        KeyCode::Char(c) => if c == ' ' { "space"@ } else { seq![c] },
        KeyCode::Tab => "tab"@,
        KeyCode::Enter => "enter"@,
        KeyCode::Esc => "esc"@,
        KeyCode::Delete => "delete"@,
        KeyCode::Backspace => "backspace"@,
        KeyCode::Up => "up"@,
        KeyCode::Down => "down"@,
        KeyCode::Left => "left"@,
        KeyCode::Right => "right"@,
        KeyCode::Home => "home"@,
        KeyCode::End => "end"@,
        KeyCode::PageUp => "pageup"@,
        KeyCode::PageDown => "pagedown"@,
        KeyCode::F(n) => "f"@ + dec(n as nat),
        KeyCode::BackTab => "backtab"@,
        KeyCode::Insert => "insert"@,
        KeyCode::Null => "null"@,
        KeyCode::CapsLock => "capslock"@,
        KeyCode::ScrollLock => "scrolllock"@,
        KeyCode::NumLock => "numlock"@,
        KeyCode::PrintScreen => "printscreen"@,
        KeyCode::Pause => "pause"@,
        KeyCode::Menu => "menu"@,
        KeyCode::KeypadBegin => "keypadbegin"@,
    }
}

/// A chord as text: its modifiers in the order ctrl, shift, alt, then its
/// key, joined with '+'.
pub open spec fn chord_str(c: Chord) -> Seq<char> {
    (if c.ctrl { "ctrl+"@ } else { Seq::empty() }) + (if c.shift { "shift+"@ } else { Seq::empty() })
        + (if c.alt { "alt+"@ } else { Seq::empty() }) + key_str(c.code)
}

/// The value of a run of decimal digits, or `None` past 255.
fn digits_u8(d: &[char]) -> (r: Option<u8>)
    requires
        forall|i: int| 0 <= i < d@.len() ==> is_digit(#[trigger] d@[i]),
    ensures
        r is Some <==> digits_value(d@) <= 255,
        r is Some ==> r.unwrap() == digits_value(d@),
{
    let mut v: u32 = 0;
    let n = d.len();
    for i in 0..n
        invariant
            n == d@.len(),
            forall|k: int| 0 <= k < d@.len() ==> is_digit(#[trigger] d@[k]),
            v == digits_value(d@.take(i as int)),
            v <= 255,
            forall|j: int| 0 <= j <= i ==> digits_value(#[trigger] d@.take(j)) <= 255,
    {
        proof {
            assert(d@.take(i + 1).drop_last() =~= d@.take(i as int));
            assert(is_digit(d@[i as int]));
        }
        let digit = (d[i] as u32) - ('0' as u32);
        let next = v * 10 + digit;
        if next > 255 {
            proof {
                lemma_digits_grow(d@, i as int + 1);
            }
            return None;
        }
        v = next;
    }
    proof {
        assert(d@.take(n as int) =~= d@);
    }
    Some(v as u8)
}

proof fn lemma_digits_grow(d: Seq<char>, j: int)
    requires
        0 <= j <= d.len(),
        forall|i: int| 0 <= i < d.len() ==> is_digit(#[trigger] d[i]),
    ensures
        digits_value(d) >= digits_value(d.take(j)),
    decreases d.len() - j,
{
    if j < d.len() {
        lemma_digits_grow(d, j + 1);
        assert(d.take(j + 1).drop_last() =~= d.take(j));
        assert(is_digit(d[j]));
        lemma_digits_nonneg(d.take(j));
    } else {
        assert(d.take(j) =~= d);
    }
}

proof fn lemma_digits_nonneg(d: Seq<char>)
    requires
        forall|i: int| 0 <= i < d.len() ==> is_digit(#[trigger] d[i]),
    ensures
        digits_value(d) >= 0,
    decreases d.len(),
{
    if d.len() > 0 {
        assert(is_digit(d[d.len() - 1]));
        lemma_digits_nonneg(d.drop_last());
    }
}

/// `u8::from_str` on `s`.
fn parse_u8(s: &[char]) -> (r: Option<u8>)
    ensures
        r == u8_parse(s@),
{
    let n = s.len();
    let start: usize = if n > 0 && s[0] == '+' { 1 } else { 0 };
    let mut d: Vec<char> = Vec::new();
    for i in start..n
        invariant
            start <= n,
            n == s@.len(),
            d@ == s@.subrange(start as int, i as int),
    {
        d.push(s[i]);
        assert(s@.subrange(start as int, i + 1) =~= s@.subrange(start as int, i as int).push(s@[i as int]));
    }
    let ghost dd = digits_part(s@);
    assert(d@ =~= dd);
    if d.len() == 0 {
        return None;
    }
    let m = d.len();
    for i in 0..m
        invariant
            m == d@.len(),
            d@ == dd,
            dd == digits_part(s@),
            forall|k: int| 0 <= k < i ==> is_digit(#[trigger] d@[k]),
    {
        if !(d[i] >= '0' && d[i] <= '9') {
            assert(!is_digit(dd[i as int]));
            assert(!all_digits(dd));
            return None;
        }
    }
    digits_u8(d.as_slice())
}

/// The key a (lowercased) key name stands for.
pub fn parse_key(s: &str) -> (r: Option<KeyCode>)
    ensures
        r == parse_key_spec(s@),
{
    if str_eq(s, "space") {
        Some(KeyCode::Char(' '))
    } else if str_eq(s, "tab") {
        Some(KeyCode::Tab)
    } else if str_eq(s, "enter") || str_eq(s, "return") {
        Some(KeyCode::Enter)
    } else if str_eq(s, "esc") || str_eq(s, "escape") {
        Some(KeyCode::Esc)
    } else if str_eq(s, "delete") || str_eq(s, "del") {
        Some(KeyCode::Delete)
    } else if str_eq(s, "backspace") {
        Some(KeyCode::Backspace)
    } else if str_eq(s, "up") {
        Some(KeyCode::Up)
    } else if str_eq(s, "down") {
        Some(KeyCode::Down)
    } else if str_eq(s, "left") {
        Some(KeyCode::Left)
    } else if str_eq(s, "right") {
        Some(KeyCode::Right)
    } else if str_eq(s, "home") {
        Some(KeyCode::Home)
    } else if str_eq(s, "end") {
        Some(KeyCode::End)
    } else if str_eq(s, "pageup") {
        Some(KeyCode::PageUp)
    } else if str_eq(s, "pagedown") {
        Some(KeyCode::PageDown)
    } else {
        let cs = chars_of(s);
        let n = cs.len();
        if n > 1 && cs[0] == 'f' {
            let mut rest: Vec<char> = Vec::new();
            for i in 1..n
                invariant
                    n == cs@.len(),
                    n > 1,
                    rest@ == cs@.subrange(1, i as int),
            {
                rest.push(cs[i]);
                assert(cs@.subrange(1, i + 1) =~= cs@.subrange(1, i as int).push(cs@[i as int]));
            }
            assert(rest@ =~= s@.drop_first());
            match parse_u8(rest.as_slice()) {
                Some(v) => {
                    return if 1 <= v && v <= 12 { Some(KeyCode::F(v)) } else { None };
                },
                None => {},
            }
        }
        if n == 1 {
            Some(KeyCode::Char(lower_char(cs[0])))
        } else {
            None
        }
    }
}

/// The name a key is written with.
pub fn key_string(code: KeyCode) -> (s: String)
    ensures
        s@ == key_str(code),
{
    match code {
        KeyCode::Char(c) => {
            if c == ' ' {
                String::from_str("space")
            } else {
                let mut s = String::new();
                s.push(c);
                proof {
                    reveal_strlit("");
                }
                assert(s@ =~= seq![c]);
                s
            }
        },
        KeyCode::Tab => String::from_str("tab"),
        KeyCode::Enter => String::from_str("enter"),
        KeyCode::Esc => String::from_str("esc"),
        KeyCode::Delete => String::from_str("delete"),
        KeyCode::Backspace => String::from_str("backspace"),
        KeyCode::Up => String::from_str("up"),
        KeyCode::Down => String::from_str("down"),
        KeyCode::Left => String::from_str("left"),
        KeyCode::Right => String::from_str("right"),
        KeyCode::Home => String::from_str("home"),
        KeyCode::End => String::from_str("end"),
        KeyCode::PageUp => String::from_str("pageup"),
        KeyCode::PageDown => String::from_str("pagedown"),
        KeyCode::F(n) => {
            let mut s = String::from_str("f");
            let d = u64_to_string(n as u64);
            s.append(d.as_str());
            s
        },
        KeyCode::BackTab => String::from_str("backtab"),
        KeyCode::Insert => String::from_str("insert"),
        KeyCode::Null => String::from_str("null"),
        KeyCode::CapsLock => String::from_str("capslock"),
        KeyCode::ScrollLock => String::from_str("scrolllock"),
        KeyCode::NumLock => String::from_str("numlock"),
        KeyCode::PrintScreen => String::from_str("printscreen"),
        KeyCode::Pause => String::from_str("pause"),
        KeyCode::Menu => String::from_str("menu"),
        KeyCode::KeypadBegin => String::from_str("keypadbegin"),
    }
}

impl Chord {
    /// The chord of a key press.
    pub fn from_event(key: KeyEvent) -> (c: Chord)
        ensures
            c == chord_of_event(key),
    {
        match key.code {
            KeyCode::BackTab => Chord { code: KeyCode::Tab, ctrl: key.ctrl, shift: true, alt: key.alt },
            KeyCode::Char(c) => Chord {
                code: KeyCode::Char(lower_char(c)),
                ctrl: key.ctrl,
                shift: key.shift || (c >= 'A' && c <= 'Z'),
                alt: key.alt,
            },
            other => Chord { code: other, ctrl: key.ctrl, shift: key.shift, alt: key.alt },
        }
    }

    /// Parses `"ctrl+shift+e"`, `"alt+up"`, `"f2"`, `"delete"`, ... (case-insensitive).
    pub fn parse(s: &str) -> (r: Option<Chord>)
        ensures
            r == chord_parse(s@),
    {
        let parts = split_chars(s, '+');
        let ghost ps = split_on(s@, '+');
        let mut code: Option<KeyCode> = None;
        let mut ctrl = false;
        let mut shift = false;
        let mut alt = false;
        let n = parts.len();
        for i in 0..n
            invariant
                n == ps.len(),
                n == parts@.len(),
                ps == split_on(s@, '+'),
                forall|k: int| 0 <= k < n ==> #[trigger] parts@[k]@ == ps[k],
                chord_parts(ps.take(i as int)) == Some((code, ctrl, shift, alt)),
        {
            proof {
                assert(ps.take(i + 1).drop_last() =~= ps.take(i as int));
                assert(ps.take(i + 1).last() == ps[i as int]);
            }
            let t = trim_str(parts[i].as_str());
            let p = ascii_lower_str(t.as_str());
            if str_eq(p.as_str(), "ctrl") {
                ctrl = true;
            } else if str_eq(p.as_str(), "shift") {
                shift = true;
            } else if str_eq(p.as_str(), "alt") {
                alt = true;
            } else if p.as_str().is_empty() {
            } else {
                match parse_key(p.as_str()) {
                    Some(k) => {
                        code = Some(k);
                    },
                    None => {
                        proof {
                            lemma_chord_parts_stays_none(ps, i as int + 1, n as int);
                            assert(ps.take(n as int) =~= ps);
                        }
                        return None;
                    },
                }
            }
        }
        proof {
            assert(ps.take(n as int) =~= ps);
        }
        match code {
            Some(c) => Some(Chord { code: c, ctrl, shift, alt }),
            None => None,
        }
    }

    /// The chord as text, modifiers first.
    pub fn to_chord_string(self) -> (s: String)
        ensures
            s@ == chord_str(self),
    {
        let mut out = String::new();
        proof {
            reveal_strlit("");
        }
        if self.ctrl {
            out.append("ctrl+");
        }
        if self.shift {
            out.append("shift+");
        }
        if self.alt {
            out.append("alt+");
        }
        let k = key_string(self.code);
        out.append(k.as_str());
        assert(out@ =~= chord_str(self));
        out
    }
}

/// The default table: each command with its out-of-the-box chord, in file
/// order (a command whose default chord would not parse is left out).
pub open spec fn default_binds_of(bs: Seq<Bindable>) -> Seq<(Bindable, Chord)>
    decreases bs.len(),
{
    if bs.len() == 0 {
        Seq::empty()
    } else {
        let prev = default_binds_of(bs.drop_last());
        match chord_parse(default_chord_of(bs.last())) {
            Some(c) => prev.push((bs.last(), c)),
            None => prev,
        }
    }
}

pub open spec fn default_binds() -> Seq<(Bindable, Chord)> {
    default_binds_of(all_bindables())
}

/// The action of the first binding with this chord whose scope fires in `focus`.
pub open spec fn resolve_in(binds: Seq<(Bindable, Chord)>, chord: Chord, focus: Focus) -> Option<Action>
    decreases binds.len(),
{
    if binds.len() == 0 {
        None
    } else if binds[0].1 == chord && scope_matches(bind_scope(binds[0].0), focus) {
        Some(bind_action(binds[0].0))
    } else {
        resolve_in(binds.drop_first(), chord, focus)
    }
}

/// The table with the first binding of `b` given `chord` (unchanged when `b`
/// has none).
pub open spec fn set_in(binds: Seq<(Bindable, Chord)>, b: Bindable, chord: Chord) -> Seq<(Bindable, Chord)>
    decreases binds.len(),
{
    if binds.len() == 0 {
        binds
    } else if binds[0].0 == b {
        binds.update(0, (b, chord))
    } else {
        seq![binds[0]] + set_in(binds.drop_first(), b, chord)
    }
}

/// The chord text of the first binding of `b`, or empty without one.
pub open spec fn chord_text_in(binds: Seq<(Bindable, Chord)>, b: Bindable) -> Seq<char>
    decreases binds.len(),
{
    if binds.len() == 0 {
        Seq::empty()
    } else if binds[0].0 == b {
        chord_str(binds[0].1)
    } else {
        chord_text_in(binds.drop_first(), b)
    }
}

/// The loaded shortcuts: an ordered (command, chord) table.
pub struct Keybindings {
    binds: Vec<(Bindable, Chord)>,
}

impl View for Keybindings {
    type V = Seq<(Bindable, Chord)>;

    closed spec fn view(&self) -> Seq<(Bindable, Chord)> {
        self.binds@
    }
}

impl Default for Keybindings {
    fn default() -> (kb: Self)
        ensures
            kb@ == default_binds(),
    {
        let all = Bindable::all();
        let mut binds: Vec<(Bindable, Chord)> = Vec::new();
        let n = all.len();
        for i in 0..n
            invariant
                n == all@.len(),
                all@ == all_bindables(),
                binds@ == default_binds_of(all@.take(i as int)),
        {
            let b = all[i];
            proof {
                assert(all@.take(i + 1).drop_last() =~= all@.take(i as int));
                assert(all@.take(i + 1).last() == b);
            }
            match Chord::parse(b.default_chord()) {
                Some(c) => binds.push((b, c)),
                None => {},
            }
        }
        assert(all@.take(n as int) =~= all@);
        Keybindings { binds }
    }
}

impl Keybindings {
    /// The action bound to a key press for the given focus, or `None` (typing
    /// and motion then take over).
    pub fn resolve(&self, key: KeyEvent, focus: Focus) -> (r: Option<Action>)
        ensures
            r == resolve_in(self@, chord_of_event(key), focus),
    {
        let chord = Chord::from_event(key);
        let n = self.binds.len();
        let mut i: usize = 0;
        assert(self@.skip(0) =~= self@);
        while i < n
            invariant
                n == self.binds@.len(),
                i <= n,
                chord == chord_of_event(key),
                resolve_in(self@, chord, focus) == resolve_in(self@.skip(i as int), chord, focus),
            decreases n - i,
        {
            let (b, c) = self.binds[i];
            proof {
                assert(self@.skip(i as int)[0] == (b, c));
                assert(self@.skip(i as int).drop_first() =~= self@.skip(i + 1));
            }
            if c == chord && b.scope().matches(focus) {
                return Some(b.to_action());
            }
            i += 1;
        }
        None
    }

    /// Gives `b` the chord `chord`.
    pub fn set(&mut self, b: Bindable, chord: Chord)
        ensures
            final(self)@ == set_in(old(self)@, b, chord),
    {
        let n = self.binds.len();
        let mut i: usize = 0;
        while i < n
            invariant
                n == self.binds@.len(),
                i <= n,
                self@ == old(self)@,
                forall|j: int| 0 <= j < i ==> self@[j].0 != b,
            decreases n - i,
        {
            if self.binds[i].0 == b {
                proof {
                    lemma_set_at(self@, b, chord, i as int);
                }
                self.binds.set(i, (b, chord));
                return;
            }
            i += 1;
        }
        proof {
            lemma_set_absent(self@, b, chord);
        }
    }

    /// The text of the chord bound to `b`, or empty without one.
    pub fn chord_text(&self, b: Bindable) -> (s: String)
        ensures
            s@ == chord_text_in(self@, b),
    {
        let n = self.binds.len();
        let mut i: usize = 0;
        assert(self@.skip(0) =~= self@);
        while i < n
            invariant
                n == self.binds@.len(),
                i <= n,
                chord_text_in(self@, b) == chord_text_in(self@.skip(i as int), b),
            decreases n - i,
        {
            let (x, c) = self.binds[i];
            proof {
                assert(self@.skip(i as int)[0] == (x, c));
                assert(self@.skip(i as int).drop_first() =~= self@.skip(i + 1));
            }
            if x == b {
                return c.to_chord_string();
            }
            i += 1;
        }
        proof {
            reveal_strlit("");
        }
        String::new()
    }
}

proof fn lemma_set_at(binds: Seq<(Bindable, Chord)>, b: Bindable, chord: Chord, i: int)
    requires
        0 <= i < binds.len(),
        binds[i].0 == b,
        forall|j: int| 0 <= j < i ==> binds[j].0 != b,
    ensures
        set_in(binds, b, chord) == binds.update(i, (b, chord)),
    decreases i,
{
    if i > 0 {
        lemma_set_at(binds.drop_first(), b, chord, i - 1);
        assert(seq![binds[0]] + binds.drop_first().update(i - 1, (b, chord)) =~= binds.update(i, (b, chord)));
    }
}

proof fn lemma_set_absent(binds: Seq<(Bindable, Chord)>, b: Bindable, chord: Chord)
    requires
        forall|j: int| 0 <= j < binds.len() ==> binds[j].0 != b,
    ensures
        set_in(binds, b, chord) == binds,
    decreases binds.len(),
{
    if binds.len() > 0 {
        lemma_set_absent(binds.drop_first(), b, chord);
        assert(seq![binds[0]] + binds.drop_first() =~= binds);
    }
}

/// A shortcut that was set reads back: after `b` gets `chord`, the chord text
/// of `b` is that chord's text (when `b` had a binding to replace), and every
/// other command keeps its chord text.
pub proof fn law_set_reads_back(binds: Seq<(Bindable, Chord)>, b: Bindable, chord: Chord, x: Bindable)
    ensures
        (exists|j: int| 0 <= j < binds.len() && binds[j].0 == b)
            ==> chord_text_in(set_in(binds, b, chord), b) == chord_str(chord),
        x != b ==> chord_text_in(set_in(binds, b, chord), x) == chord_text_in(binds, x),
    decreases binds.len(),
{
    if binds.len() > 0 {
        law_set_reads_back(binds.drop_first(), b, chord, x);
        if binds[0].0 == b {
            assert(binds.update(0, (b, chord)).drop_first() =~= binds.drop_first());
        } else {
            let rest = set_in(binds.drop_first(), b, chord);
            assert((seq![binds[0]] + rest).drop_first() =~= rest);
            if exists|j: int| 0 <= j < binds.len() && binds[j].0 == b {
                let j = choose|j: int| 0 <= j < binds.len() && binds[j].0 == b;
                assert(binds.drop_first()[j - 1].0 == b);
            }
        }
    }
}

/// The sections of a TOML document as `toml::Table` reads it (sorted by key):
/// each top-level key with, when its value is a table, that table's keys and
/// each value's text when it is a string. `None` when the text is not TOML.
pub uninterp spec fn toml_sections_of(text: Seq<char>) -> Option<Seq<(Seq<char>, Option<Seq<(Seq<char>, Option<Seq<char>>)>>)>>;

/// Parses `text` with `toml::Table`'s `FromStr` and reads out what the
/// shortcut file uses: the sections, their keys, and the string values. The
/// result is named, not stated: it depends on the text alone.
#[verifier::external_body]
fn toml_sections(text: &str) -> (r: Option<Vec<(String, Option<Vec<(String, Option<String>)>>)>>)
    ensures
        r.deep_view() == toml_sections_of(text@),
{
    let table = text.parse::<toml::Table>().ok()?;
    Some(table.iter().map(|(k, v)| (k.clone(), v.as_table().map(|t| {
        t.iter().map(|(n, c)| (n.clone(), c.as_str().map(|x| x.to_string()))).collect()
    }))).collect())
}

/// The table after the entries of one section: each string value whose key
/// names a command of that section and that parses as a chord rebinds it.
pub open spec fn apply_entries(binds: Seq<(Bindable, Chord)>, section: Seq<char>, es: Seq<(Seq<char>, Option<Seq<char>>)>) -> Seq<(Bindable, Chord)>
    decreases es.len(),
{
    if es.len() == 0 {
        binds
    } else {
        let prev = apply_entries(binds, section, es.drop_last());
        let (name, val) = es.last();
        match val {
            Some(text) => match (by_name_in(all_bindables(), section, name), chord_parse(text)) {
                (Some(b), Some(c)) => set_in(prev, b, c),
                _ => prev,
            },
            None => prev,
        }
    }
}

pub open spec fn apply_sections(binds: Seq<(Bindable, Chord)>, secs: Seq<(Seq<char>, Option<Seq<(Seq<char>, Option<Seq<char>>)>>)>) -> Seq<(Bindable, Chord)>
    decreases secs.len(),
{
    if secs.len() == 0 {
        binds
    } else {
        let prev = apply_sections(binds, secs.drop_last());
        match secs.last().1 {
            Some(es) => apply_entries(prev, secs.last().0, es),
            None => prev,
        }
    }
}

/// The shortcuts a file holds: the defaults, overridden by every declared
/// chord that parses; a file that is not TOML gives the defaults.
pub open spec fn parse_bindings(text: Seq<char>) -> Seq<(Bindable, Chord)> {
    match toml_sections_of(text) {
        Some(secs) => apply_sections(default_binds(), secs),
        None => default_binds(),
    }
}

/// Parses the file, starting from the defaults and overriding any command whose
/// chord is declared. Unknown keys and unparseable chords are ignored.
pub fn parse(text: &str) -> (kb: Keybindings)
    ensures
        kb@ == parse_bindings(text@),
{
    let mut kb = Keybindings::default();
    let secs = match toml_sections(text) {
        Some(t) => t,
        None => {
            return kb;
        },
    };
    let ghost sv = secs.deep_view();
    let n = secs.len();
    for i in 0..n
        invariant
            n == secs@.len(),
            sv == secs.deep_view(),
            sv == toml_sections_of(text@).unwrap(),
            kb@ == apply_sections(default_binds(), sv.take(i as int)),
    {
        proof {
            assert(sv.take(i + 1).drop_last() =~= sv.take(i as int));
            assert(sv.take(i + 1).last() == sv[i as int]);
            assert(sv[i as int] == secs@[i as int].deep_view());
        }
        let section = &secs[i].0;
        match &secs[i].1 {
            Some(es) => {
                let ghost ev = es.deep_view();
                let ghost base = kb@;
                let m = es.len();
                for j in 0..m
                    invariant
                        m == es@.len(),
                        ev == es.deep_view(),
                        kb@ == apply_entries(base, section@, ev.take(j as int)),
                {
                    proof {
                        assert(ev.take(j + 1).drop_last() =~= ev.take(j as int));
                        assert(ev.take(j + 1).last() == ev[j as int]);
                        assert(ev[j as int] == es@[j as int].deep_view());
                    }
                    let name = &es[j].0;
                    match &es[j].1 {
                        Some(t) => {
                            let b = Bindable::by_name(section.as_str(), name.as_str());
                            let c = Chord::parse(t.as_str());
                            match (b, c) {
                                (Some(b), Some(c)) => {
                                    kb.set(b, c);
                                },
                                _ => {},
                            }
                        },
                        None => {},
                    }
                }
                assert(ev.take(m as int) =~= ev);
            },
            None => {},
        }
    }
    assert(sv.take(n as int) =~= sv);
    kb
}

pub open spec fn header_comment() -> Seq<char> {
    "# Coder keyboard shortcuts. Edit a value and save (Ctrl+S) to apply live.\n"@
        + "# Chord format: \"ctrl+shift+e\", \"alt+up\", \"f2\", \"delete\", \"ctrl+space\".\n"@
        + "# Modifiers: ctrl, shift, alt. Keys: a-z, 0-9, f1-f12, up/down/left/right,\n"@
        + "# home/end, pageup/pagedown, tab, enter, esc, space, delete.\n"@
        + "# Only these commands are remappable; typing and cursor motion are fixed.\n"@
}

/// The `name = "chord"` lines of the commands of `bs` in `scope`.
pub open spec fn entries_text(binds: Seq<(Bindable, Chord)>, bs: Seq<Bindable>, scope: Scope) -> Seq<char>
    decreases bs.len(),
{
    if bs.len() == 0 {
        Seq::empty()
    } else {
        let prev = entries_text(binds, bs.drop_last(), scope);
        let b = bs.last();
        if bind_scope(b) == scope {
            prev + bind_name(b) + " = \""@ + chord_text_in(binds, b) + "\"\n"@
        } else {
            prev
        }
    }
}

pub open spec fn scope_text(binds: Seq<(Bindable, Chord)>, scope: Scope) -> Seq<char> {
    "\n["@ + section_of(scope) + "]\n"@ + entries_text(binds, all_bindables(), scope)
}

/// The shortcut file: a comment header, then a `[section]` per scope with a
/// `name = "chord"` line per command, in file order.
pub open spec fn toml_text(binds: Seq<(Bindable, Chord)>) -> Seq<char> {
    header_comment() + scope_text(binds, Scope::Global) + scope_text(binds, Scope::Editor)
        + scope_text(binds, Scope::Sidebar)
}

fn push_scope(out: &mut String, kb: &Keybindings, scope: Scope)
    ensures
        final(out)@ == old(out)@ + scope_text(kb@, scope),
{
    let ghost start = out@;
    out.append("\n[");
    out.append(scope.section());
    out.append("]\n");
    let ghost head = out@;
    let all = Bindable::all();
    let n = all.len();
    for i in 0..n
        invariant
            n == all@.len(),
            all@ == all_bindables(),
            out@ == head + entries_text(kb@, all@.take(i as int), scope),
    {
        let b = all[i];
        proof {
            assert(all@.take(i + 1).drop_last() =~= all@.take(i as int));
            assert(all@.take(i + 1).last() == b);
        }
        if b.scope() == scope {
            out.append(b.name());
            out.append(" = \"");
            let c = kb.chord_text(b);
            out.append(c.as_str());
            out.append("\"\n");
        }
    }
    assert(all@.take(n as int) =~= all@);
    assert(out@ =~= start + scope_text(kb@, scope));
}

/// Serializes the shortcuts to a commented, `[section]`-grouped TOML document.
pub fn to_toml(kb: &Keybindings) -> (s: String)
    ensures
        s@ == toml_text(kb@),
{
    let mut out = String::new();
    out.append("# Coder keyboard shortcuts. Edit a value and save (Ctrl+S) to apply live.\n");
    out.append("# Chord format: \"ctrl+shift+e\", \"alt+up\", \"f2\", \"delete\", \"ctrl+space\".\n");
    out.append("# Modifiers: ctrl, shift, alt. Keys: a-z, 0-9, f1-f12, up/down/left/right,\n");
    out.append("# home/end, pageup/pagedown, tab, enter, esc, space, delete.\n");
    out.append("# Only these commands are remappable; typing and cursor motion are fixed.\n");
    proof {
        reveal_strlit("");
    }
    assert(out@ =~= header_comment());
    push_scope(&mut out, kb, Scope::Global);
    push_scope(&mut out, kb, Scope::Editor);
    push_scope(&mut out, kb, Scope::Sidebar);
    assert(out@ =~= toml_text(kb@));
    out
}

// ----- chords read back what they write -----

/// Keys whose written name reads back as the same key: the named keys, F1 to
/// F12, space, and characters other than '+', ASCII capitals and whitespace.
pub open spec fn round_trips(code: KeyCode) -> bool {
    match code {
        KeyCode::Char(c) => c == ' ' || (c != '+' && !is_ascii_upper(c) && !is_whitespace(c)),
        KeyCode::F(n) => 1 <= n <= 12,
        KeyCode::Tab | KeyCode::Enter | KeyCode::Esc | KeyCode::Delete | KeyCode::Backspace
        | KeyCode::Up | KeyCode::Down | KeyCode::Left | KeyCode::Right | KeyCode::Home
        | KeyCode::End | KeyCode::PageUp | KeyCode::PageDown => true,
        _ => false,
    }
}

pub open spec fn no_sep(s: Seq<char>, sep: char) -> bool {
    forall|i: int| 0 <= i < s.len() ==> s[i] != sep
}

/// No whitespace and no ASCII capital anywhere.
pub open spec fn plain(s: Seq<char>) -> bool {
    forall|i: int| 0 <= i < s.len() ==> !is_whitespace(#[trigger] s[i]) && !is_ascii_upper(s[i])
}

proof fn lemma_plain_part(s: Seq<char>)
    requires
        plain(s),
    ensures
        ascii_lower(trim(s)) == s,
{
    if s.len() > 0 {
        assert(!is_whitespace(s[0]));
        assert(!is_whitespace(s[s.len() - 1]));
        assert(trim(s) =~= s);
    } else {
        assert(trim(s) =~= s);
    }
    assert(ascii_lower(s) =~= s);
}

proof fn lemma_split_no_sep(a: Seq<char>, b: Seq<char>, sep: char)
    requires
        no_sep(b, sep),
    ensures
        split_on(a, sep).len() >= 1,
        split_on(a + b, sep) == split_on(a, sep).update(split_on(a, sep).len() - 1, split_on(a, sep).last() + b),
    decreases b.len(),
{
    crate::split::lemma_split_on_len(a, sep);
    let sa = split_on(a, sep);
    if b.len() == 0 {
        assert(a + b =~= a);
        assert(sa.last() + b =~= sa.last());
        assert(sa.update(sa.len() - 1, sa.last()) =~= sa);
    } else {
        lemma_split_no_sep(a, b.drop_last(), sep);
        assert((a + b).drop_last() =~= a + b.drop_last());
        assert((a + b).last() == b.last());
        assert(b.last() != sep);
        let p = split_on(a + b.drop_last(), sep);
        assert(p == sa.update(sa.len() - 1, sa.last() + b.drop_last()));
        assert((sa.last() + b.drop_last()).push(b.last()) =~= sa.last() + b);
        assert(p.update(p.len() - 1, p.last().push(b.last())) =~= sa.update(sa.len() - 1, sa.last() + b));
    }
}

proof fn lemma_split_word(x: Seq<char>, ps: Seq<Seq<char>>, w: Seq<char>)
    requires
        split_on(x, '+') == ps.push(Seq::<char>::empty()),
        no_sep(w, '+'),
    ensures
        split_on(x + w.push('+'), '+') == ps.push(w).push(Seq::<char>::empty()),
{
    lemma_split_no_sep(x, w, '+');
    let sx = ps.push(Seq::<char>::empty());
    assert(Seq::<char>::empty() + w =~= w);
    assert(sx.update(sx.len() - 1, sx.last() + w) =~= ps.push(w));
    assert(x + w.push('+') =~= (x + w).push('+'));
    assert((x + w).push('+').drop_last() =~= x + w);
}

proof fn lemma_dec_digits(n: nat)
    ensures
        all_digits(dec(n)),
        digits_value(dec(n)) == n,
        dec(n).len() >= 1,
    decreases n,
{
    if n >= 10 {
        lemma_dec_digits(n / 10);
        assert(dec(n).drop_last() =~= dec(n / 10));
        assert(dec(n).last() == crate::num::digit_char(n % 10));
        assert(crate::num::digit_char(n % 10) as int == 48 + n % 10);
        vstd::arithmetic::div_mod::lemma_fundamental_div_mod(n as int, 10);
        assert('0' as int == 48);
        assert(digits_value(dec(n)) == digits_value(dec(n).drop_last()) * 10 + (dec(n).last() as int - '0' as int));
        assert(digits_value(dec(n)) == (n / 10) as int * 10 + n % 10);
        assert forall|i: int| 0 <= i < dec(n).len() implies is_digit(#[trigger] dec(n)[i]) by {
            if i < dec(n).len() - 1 {
                assert(dec(n)[i] == dec(n / 10)[i]);
            }
        }
    } else {
        assert(crate::num::digit_char(n) as int == 48 + n);
        assert('0' as int == 48);
        assert(dec(n).drop_last() =~= Seq::<char>::empty());
        assert(digits_value(dec(n)) == digits_value(dec(n).drop_last()) * 10 + (dec(n).last() as int - '0' as int));
    }
}

proof fn lemma_f_key(n: u8)
    requires
        1 <= n <= 12,
    ensures
        ({
            let k = key_str(KeyCode::F(n));
            &&& k.len() > 0
            &&& no_sep(k, '+')
            &&& plain(k)
            &&& k != "ctrl"@
            &&& k != "shift"@
            &&& k != "alt"@
            &&& parse_key_spec(k) == Some(KeyCode::F(n))
        }),
{
    reveal_strlit("space");
    reveal_strlit("tab");
    reveal_strlit("enter");
    reveal_strlit("return");
    reveal_strlit("esc");
    reveal_strlit("escape");
    reveal_strlit("delete");
    reveal_strlit("del");
    reveal_strlit("backspace");
    reveal_strlit("up");
    reveal_strlit("down");
    reveal_strlit("left");
    reveal_strlit("right");
    reveal_strlit("home");
    reveal_strlit("end");
    reveal_strlit("pageup");
    reveal_strlit("pagedown");
    reveal_strlit("ctrl");
    reveal_strlit("shift");
    reveal_strlit("alt");
    reveal_strlit("f");
    let k = key_str(KeyCode::F(n));
        lemma_dec_digits(n as nat);
        lemma_dec_len(n as nat);
        let d = dec(n as nat);
        assert(k =~= seq!['f'] + d);
        assert(k.drop_first() =~= d);
        assert(is_digit(d[0]));
        assert(digits_part(d) == d);
        assert(u8_parse(d) == Some(n));
        assert forall|i: int| 0 <= i < k.len() implies !is_whitespace(#[trigger] k[i]) && !is_ascii_upper(k[i]) by {
            if i > 0 {
                assert(k[i] == d[i - 1]);
                assert(is_digit(d[i - 1]));
            }
        }
        assert forall|i: int| 0 <= i < k.len() implies k[i] != '+' by {
            if i > 0 {
                assert(k[i] == d[i - 1]);
                assert(is_digit(d[i - 1]));
            }
        }
        assert(k[0] == 'f');
        assert(k != "space"@ && k != "tab"@ && k != "enter"@ && k != "return"@ && k != "esc"@
            && k != "escape"@ && k != "delete"@ && k != "del"@ && k != "backspace"@ && k != "up"@
            && k != "down"@ && k != "left"@ && k != "right"@ && k != "home"@ && k != "end"@
            && k != "pageup"@ && k != "pagedown"@ && k != "ctrl"@ && k != "shift"@ && k != "alt"@) by {
            assert(k[0] == 'f');
            assert(k.len() == 2 || k.len() == 3);
            if k.len() == 3 {
                assert(d.len() == 2);
                assert(is_digit(k[1]));
            }
        }
        assert(k.len() > 1);
        assert(u8_parse(k.drop_first()) == Some(n));
        assert(parse_key_spec(k) == Some(KeyCode::F(n)));
}

#[verifier::spinoff_prover]
proof fn lemma_key_round_trip(code: KeyCode)
    requires
        round_trips(code),
    ensures
        key_str(code).len() > 0,
        no_sep(key_str(code), '+'),
        plain(key_str(code)),
        key_str(code) != "ctrl"@,
        key_str(code) != "shift"@,
        key_str(code) != "alt"@,
        parse_key_spec(key_str(code)) == Some(code),
{
    match code {
        KeyCode::F(n) => {
            lemma_f_key(n);
            let k = key_str(KeyCode::F(n));
            assert(parse_key_spec(k) == Some(KeyCode::F(n)));
            assert(key_str(code) == k);
        },
        _ => {
            reveal_strlit("space");
            reveal_strlit("tab");
            reveal_strlit("enter");
            reveal_strlit("return");
            reveal_strlit("esc");
            reveal_strlit("escape");
            reveal_strlit("delete");
            reveal_strlit("del");
            reveal_strlit("backspace");
            reveal_strlit("up");
            reveal_strlit("down");
            reveal_strlit("left");
            reveal_strlit("right");
            reveal_strlit("home");
            reveal_strlit("end");
            reveal_strlit("pageup");
            reveal_strlit("pagedown");
            reveal_strlit("ctrl");
            reveal_strlit("shift");
            reveal_strlit("alt");
            reveal_strlit("f");
            let k = key_str(code);
            if let KeyCode::Char(c) = code {
                if c != ' ' {
                    assert(k =~= seq![c]);
                }
            }
        },
    }
}

/// The modifier words of a chord, in the order they are written.
pub open spec fn mod_words(c: Chord) -> Seq<Seq<char>> {
    let p1 = if c.ctrl { seq!["ctrl"@] } else { Seq::empty() };
    let p2 = if c.shift { p1.push("shift"@) } else { p1 };
    if c.alt { p2.push("alt"@) } else { p2 }
}

proof fn lemma_chord_split(c: Chord)
    requires
        no_sep(key_str(c.code), '+'),
    ensures
        split_on(chord_str(c), '+') == mod_words(c).push(key_str(c.code)),
{
    reveal_strlit("ctrl");
    reveal_strlit("shift");
    reveal_strlit("alt");
    reveal_strlit("ctrl+");
    reveal_strlit("shift+");
    reveal_strlit("alt+");
    let e = Seq::<char>::empty();
    let k = key_str(c.code);
    assert("ctrl+"@ =~= "ctrl"@.push('+'));
    assert("shift+"@ =~= "shift"@.push('+'));
    assert("alt+"@ =~= "alt"@.push('+'));
    assert(no_sep("ctrl"@, '+'));
    assert(no_sep("shift"@, '+'));
    assert(no_sep("alt"@, '+'));
    let x0 = e;
    let ps0 = Seq::<Seq<char>>::empty();
    assert(split_on(x0, '+') =~= ps0.push(e));
    let x1 = if c.ctrl { x0 + "ctrl"@.push('+') } else { x0 };
    let ps1 = if c.ctrl { ps0.push("ctrl"@) } else { ps0 };
    if c.ctrl {
        lemma_split_word(x0, ps0, "ctrl"@);
    }
    let x2 = if c.shift { x1 + "shift"@.push('+') } else { x1 };
    let ps2 = if c.shift { ps1.push("shift"@) } else { ps1 };
    if c.shift {
        lemma_split_word(x1, ps1, "shift"@);
    }
    let x3 = if c.alt { x2 + "alt"@.push('+') } else { x2 };
    let ps3 = if c.alt { ps2.push("alt"@) } else { ps2 };
    if c.alt {
        lemma_split_word(x2, ps2, "alt"@);
    }
    assert(ps3 =~= mod_words(c));
    assert(split_on(x3, '+') == ps3.push(e));
    lemma_split_no_sep(x3, k, '+');
    assert(e + k =~= k);
    assert(ps3.push(e).update(ps3.len() as int, k) =~= ps3.push(k));
    assert(chord_str(c) =~= x3 + k);
}

proof fn lemma_mod_words_parts(c: Chord)
    ensures
        chord_parts(mod_words(c)) == Some((None::<KeyCode>, c.ctrl, c.shift, c.alt)),
{
    reveal_strlit("ctrl");
    reveal_strlit("shift");
    reveal_strlit("alt");
    assert(plain("ctrl"@));
    assert(plain("shift"@));
    assert(plain("alt"@));
    lemma_plain_part("ctrl"@);
    lemma_plain_part("shift"@);
    lemma_plain_part("alt"@);
    let ps0 = Seq::<Seq<char>>::empty();
    let ps1 = if c.ctrl { seq!["ctrl"@] } else { ps0 };
    let ps2 = if c.shift { ps1.push("shift"@) } else { ps1 };
    let ps3 = if c.alt { ps2.push("alt"@) } else { ps2 };
    assert(chord_parts(ps0) == Some((None::<KeyCode>, false, false, false)));
    if c.ctrl {
        assert(ps1.drop_last() =~= ps0);
    }
    assert(chord_parts(ps1) == Some((None::<KeyCode>, c.ctrl, false, false)));
    if c.shift {
        assert(ps2.drop_last() =~= ps1);
    }
    assert(chord_parts(ps2) == Some((None::<KeyCode>, c.ctrl, c.shift, false)));
    if c.alt {
        assert(ps3.drop_last() =~= ps2);
    }
    assert(ps3 =~= mod_words(c));
}

/// A chord written by `to_chord_string` reads back as the same chord with
/// `Chord::parse`, for every key whose name round-trips.
pub proof fn law_chord_text_round_trip(c: Chord)
    requires
        round_trips(c.code),
    ensures
        chord_parse(chord_str(c)) == Some(c),
{
    let k = key_str(c.code);
    lemma_key_round_trip(c.code);
    lemma_plain_part(k);
    lemma_chord_split(c);
    lemma_mod_words_parts(c);
    let ps = mod_words(c);
    assert(ps.push(k).drop_last() =~= ps);
    assert(ps.push(k).last() == k);
    assert(chord_parts(ps.push(k)) == Some((Some(c.code), c.ctrl, c.shift, c.alt)));
}
/// The commands of a table, in order.
pub open spec fn commands(binds: Seq<(Bindable, Chord)>) -> Seq<Bindable> {
    binds.map_values(|p: (Bindable, Chord)| p.0)
}

/// Entry `j` of section `i` of what toml read, when it is a string whose key
/// names a command of that section: the command and the string.
pub open spec fn named_entry(
    secs: Seq<(Seq<char>, Option<Seq<(Seq<char>, Option<Seq<char>>)>>)>,
    i: int,
    j: int,
) -> Option<(Bindable, Seq<char>)> {
    if 0 <= i < secs.len() {
        match secs[i].1 {
            Some(es) => if 0 <= j < es.len() {
                match (es[j].1, by_name_in(all_bindables(), secs[i].0, es[j].0)) {
                    (Some(v), Some(b)) => Some((b, v)),
                    _ => None,
                }
            } else {
                None
            },
            None => None,
        }
    } else {
        None
    }
}

/// What toml reads back of a written shortcut file, as far as the shortcuts
/// go: a string under a command's key is the chord text written for that
/// command, and every command of the table has its key read back.
pub open spec fn reads_back_written(
    secs: Seq<(Seq<char>, Option<Seq<(Seq<char>, Option<Seq<char>>)>>)>,
    binds: Seq<(Bindable, Chord)>,
) -> bool {
    &&& forall|i: int, j: int|
        #![trigger named_entry(secs, i, j)]
        named_entry(secs, i, j) matches Some((b, v)) ==> (commands(binds).contains(b) ==> v == chord_text_in(binds, b))
    &&& forall|k: int|
        #![trigger binds[k]]
        0 <= k < binds.len() ==> exists|i: int, j: int|
            #![trigger named_entry(secs, i, j)]
            named_entry(secs, i, j) matches Some((b, v)) && b == binds[k].0
}

/// Whether some string entry of section `sec` names command `b`.
pub open spec fn hit_in(es: Seq<(Seq<char>, Option<Seq<char>>)>, sec: Seq<char>, b: Bindable) -> bool {
    exists|j: int| 0 <= j < es.len() && (#[trigger] es[j]).1 is Some && by_name_in(all_bindables(), sec, es[j].0) == Some(b)
}

/// Whether some section names command `b` in a string entry.
pub open spec fn hit_any(secs: Seq<(Seq<char>, Option<Seq<(Seq<char>, Option<Seq<char>>)>>)>, b: Bindable) -> bool {
    exists|i: int| 0 <= i < secs.len() && (#[trigger] secs[i]).1 is Some && hit_in(secs[i].1->0, secs[i].0, b)
}

proof fn lemma_text_in(binds: Seq<(Bindable, Chord)>, k: int)
    requires
        commands(binds).no_duplicates(),
        0 <= k < binds.len(),
    ensures
        chord_text_in(binds, binds[k].0) == chord_str(binds[k].1),
    decreases binds.len(),
{
    if k > 0 {
        let rest = binds.drop_first();
        assert(commands(binds)[0] != commands(binds)[k]);
        assert forall|a: int, c: int| 0 <= a < commands(rest).len() && 0 <= c < commands(rest).len() && a != c implies commands(
            rest,
        )[a] != commands(rest)[c] by {
            assert(commands(rest)[a] == commands(binds)[a + 1]);
            assert(commands(rest)[c] == commands(binds)[c + 1]);
        }
        lemma_text_in(rest, k - 1);
    }
}

proof fn lemma_set_keeps_order(t: Seq<(Bindable, Chord)>, b: Bindable, c: Chord)
    requires
        commands(t).no_duplicates(),
    ensures
        commands(set_in(t, b, c)) == commands(t),
        forall|k: int| 0 <= k < t.len() ==> #[trigger] set_in(t, b, c)[k] == if t[k].0 == b { (b, c) } else { t[k] },
    decreases t.len(),
{
    if t.len() > 0 {
        let rest = t.drop_first();
        assert forall|a: int, d: int| 0 <= a < commands(rest).len() && 0 <= d < commands(rest).len() && a != d implies commands(
            rest,
        )[a] != commands(rest)[d] by {
            assert(commands(rest)[a] == commands(t)[a + 1]);
            assert(commands(rest)[d] == commands(t)[d + 1]);
        }
        lemma_set_keeps_order(rest, b, c);
        if t[0].0 == b {
            assert forall|k: int| 0 < k < t.len() implies t[k].0 != b by {
                assert(commands(t)[0] != commands(t)[k]);
            }
            assert(commands(set_in(t, b, c)) =~= commands(t));
        } else {
            let s = set_in(t, b, c);
            assert(s == seq![t[0]] + set_in(rest, b, c));
            assert(commands(set_in(rest, b, c)).len() == commands(rest).len());
            assert(set_in(rest, b, c).len() == rest.len());
            assert(s.len() == t.len());
            assert forall|k: int| 0 <= k < t.len() implies commands(s)[k] == commands(t)[k] by {
                if k > 0 {
                    assert(s[k] == set_in(rest, b, c)[k - 1]);
                    assert(commands(set_in(rest, b, c))[k - 1] == commands(rest)[k - 1]);
                }
            }
            assert(commands(set_in(t, b, c)) =~= commands(t));
            assert forall|k: int| 0 <= k < t.len() implies #[trigger] set_in(t, b, c)[k] == if t[k].0 == b { (b, c) } else { t[k] } by {
                if k > 0 {
                    assert(set_in(t, b, c)[k] == set_in(rest, b, c)[k - 1]);
                }
            }
        }
    }
}

/// Applying a section's entries sets every command they name to its chord
/// in `binds`, and leaves the rest.
proof fn lemma_entries_apply(t: Seq<(Bindable, Chord)>, binds: Seq<(Bindable, Chord)>, sec: Seq<char>, es: Seq<(Seq<char>, Option<Seq<char>>)>)
    requires
        commands(t) == commands(binds),
        commands(binds).no_duplicates(),
        forall|k: int| 0 <= k < binds.len() ==> round_trips((#[trigger] binds[k]).1.code),
        forall|j: int|
            0 <= j < es.len() && (#[trigger] es[j]).1 is Some && by_name_in(all_bindables(), sec, es[j].0) is Some
                && commands(binds).contains(by_name_in(all_bindables(), sec, es[j].0)->0) ==> es[j].1->0 == chord_text_in(
                binds,
                by_name_in(all_bindables(), sec, es[j].0)->0,
            ),
    ensures
        commands(apply_entries(t, sec, es)) == commands(binds),
        forall|k: int| 0 <= k < t.len() ==> #[trigger] apply_entries(t, sec, es)[k] == if hit_in(es, sec, t[k].0) { binds[k] } else { t[k] },
    decreases es.len(),
{
    if es.len() > 0 {
        let pre = es.drop_last();
        assert forall|j: int|
            0 <= j < pre.len() && (#[trigger] pre[j]).1 is Some && by_name_in(all_bindables(), sec, pre[j].0) is Some
                && commands(binds).contains(by_name_in(all_bindables(), sec, pre[j].0)->0) implies pre[j].1->0 == chord_text_in(
                binds,
                by_name_in(all_bindables(), sec, pre[j].0)->0,
            ) by {
            assert(pre[j] == es[j]);
        }
        lemma_entries_apply(t, binds, sec, pre);
        let prev = apply_entries(t, sec, pre);
        assert(commands(prev).len() == commands(t).len());
        assert(prev.len() == t.len());
        assert(binds.len() == t.len());
        let (name, val) = es.last();
        let last = es.len() - 1;
        match val {
            Some(text) => match (by_name_in(all_bindables(), sec, name), chord_parse(text)) {
                (Some(b), Some(c)) => {
                    assert(apply_entries(t, sec, es) == set_in(prev, b, c));
                    assert(commands(binds).no_duplicates());
                    lemma_set_keeps_order(prev, b, c);
                    assert forall|k: int| 0 <= k < t.len() implies #[trigger] apply_entries(t, sec, es)[k] == if hit_in(es, sec, t[k].0) {
                        binds[k]
                    } else {
                        t[k]
                    } by {
                        assert(commands(prev)[k] == commands(t)[k]);
                        assert(prev[k].0 == t[k].0);
                        assert(commands(binds)[k] == t[k].0);
                        if hit_in(pre, sec, t[k].0) {
                            let j = choose|j: int| 0 <= j < pre.len() && (#[trigger] pre[j]).1 is Some && by_name_in(all_bindables(), sec, pre[j].0) == Some(t[k].0);
                            assert(es[j] == pre[j]);
                        }
                        if t[k].0 == b {
                            assert(es[last] == (name, val));
                            assert(es[last].1 is Some && by_name_in(all_bindables(), sec, es[last].0) == Some(t[k].0));
                            assert(commands(binds)[k] == b);
                            assert(commands(binds).contains(b));
                            assert(es[last].1 == Some(text));
                            assert(text == chord_text_in(binds, b));
                            lemma_text_in(binds, k);
                            law_chord_text_round_trip(binds[k].1);
                            assert(c == binds[k].1);
                            assert(hit_in(es, sec, t[k].0));
                        } else {
                            if hit_in(es, sec, t[k].0) {
                                let j = choose|j: int| 0 <= j < es.len() && (#[trigger] es[j]).1 is Some && by_name_in(all_bindables(), sec, es[j].0) == Some(t[k].0);
                                assert(j != last);
                                assert(pre[j] == es[j]);
                            }
                        }
                    }
                },
                _ => {
                    assert forall|k: int| 0 <= k < t.len() implies #[trigger] apply_entries(t, sec, es)[k] == if hit_in(es, sec, t[k].0) {
                        binds[k]
                    } else {
                        t[k]
                    } by {
                        if hit_in(pre, sec, t[k].0) {
                            let j = choose|j: int| 0 <= j < pre.len() && (#[trigger] pre[j]).1 is Some && by_name_in(all_bindables(), sec, pre[j].0) == Some(t[k].0);
                            assert(es[j] == pre[j]);
                        }
                        if hit_in(es, sec, t[k].0) && by_name_in(all_bindables(), sec, name) == Some(t[k].0) {
                            // The last entry names this command; its text is the written chord, which parses.
                            assert(commands(binds)[k] == t[k].0);
                            assert(es[last].1 == Some(text));
                            lemma_text_in(binds, k);
                            law_chord_text_round_trip(binds[k].1);
                            assert(false);
                        }
                        if hit_in(es, sec, t[k].0) {
                            let j = choose|j: int| 0 <= j < es.len() && (#[trigger] es[j]).1 is Some && by_name_in(all_bindables(), sec, es[j].0) == Some(t[k].0);
                            assert(j != last);
                            assert(pre[j] == es[j]);
                        }
                    }
                },
            },
            None => {
                assert forall|k: int| 0 <= k < t.len() implies #[trigger] apply_entries(t, sec, es)[k] == if hit_in(es, sec, t[k].0) {
                    binds[k]
                } else {
                    t[k]
                } by {
                    if hit_in(pre, sec, t[k].0) {
                        let j = choose|j: int| 0 <= j < pre.len() && (#[trigger] pre[j]).1 is Some && by_name_in(all_bindables(), sec, pre[j].0) == Some(t[k].0);
                        assert(es[j] == pre[j]);
                    }
                    if hit_in(es, sec, t[k].0) {
                        let j = choose|j: int| 0 <= j < es.len() && (#[trigger] es[j]).1 is Some && by_name_in(all_bindables(), sec, es[j].0) == Some(t[k].0);
                        assert(j != last);
                        assert(pre[j] == es[j]);
                    }
                }
            },
        }
    }
}

/// Applying the sections sets every command some string entry names to its
/// chord in `binds`, and leaves the rest.
proof fn lemma_sections_apply(
    t: Seq<(Bindable, Chord)>,
    binds: Seq<(Bindable, Chord)>,
    secs: Seq<(Seq<char>, Option<Seq<(Seq<char>, Option<Seq<char>>)>>)>,
)
    requires
        commands(t) == commands(binds),
        commands(binds).no_duplicates(),
        forall|k: int| 0 <= k < binds.len() ==> round_trips((#[trigger] binds[k]).1.code),
        forall|i: int, j: int|
            #![trigger named_entry(secs, i, j)]
            named_entry(secs, i, j) matches Some((b, v)) ==> (commands(binds).contains(b) ==> v == chord_text_in(binds, b)),
    ensures
        commands(apply_sections(t, secs)) == commands(binds),
        forall|k: int| 0 <= k < t.len() ==> #[trigger] apply_sections(t, secs)[k] == if hit_any(secs, t[k].0) { binds[k] } else { t[k] },
    decreases secs.len(),
{
    if secs.len() > 0 {
        let pre = secs.drop_last();
        let last = secs.len() - 1;
        assert forall|i: int, j: int|
            #![trigger named_entry(pre, i, j)]
            (named_entry(pre, i, j) matches Some((b, v)) ==> (commands(binds).contains(b) ==> v == chord_text_in(binds, b))) by {
            if 0 <= i < pre.len() {
                assert(pre[i] == secs[i]);
                assert(named_entry(pre, i, j) == named_entry(secs, i, j));
            }
        }
        lemma_sections_apply(t, binds, pre);
        let prev = apply_sections(t, pre);
        assert(commands(prev).len() == commands(t).len());
        assert(prev.len() == t.len());
        assert(binds.len() == t.len());
        match secs.last().1 {
            Some(es) => {
                let sec = secs.last().0;
                assert(secs[last] == (sec, Some(es)));
                assert forall|j: int|
                    0 <= j < es.len() && (#[trigger] es[j]).1 is Some && by_name_in(all_bindables(), sec, es[j].0) is Some
                        && commands(binds).contains(by_name_in(all_bindables(), sec, es[j].0)->0) implies es[j].1->0
                    == chord_text_in(binds, by_name_in(all_bindables(), sec, es[j].0)->0) by {
                    assert(named_entry(secs, last, j) == Some((by_name_in(all_bindables(), sec, es[j].0)->0, es[j].1->0)));
                }
                lemma_entries_apply(prev, binds, sec, es);
                assert forall|k: int| 0 <= k < t.len() implies #[trigger] apply_sections(t, secs)[k] == if hit_any(secs, t[k].0) {
                    binds[k]
                } else {
                    t[k]
                } by {
                    assert(commands(prev)[k] == commands(t)[k]);
                    assert(prev[k].0 == t[k].0);
                    if hit_any(pre, t[k].0) {
                        let i = choose|i: int| 0 <= i < pre.len() && (#[trigger] pre[i]).1 is Some && hit_in(pre[i].1->0, pre[i].0, t[k].0);
                        assert(secs[i] == pre[i]);
                    }
                    if hit_in(es, sec, t[k].0) {
                        assert(hit_any(secs, t[k].0));
                    }
                    if hit_any(secs, t[k].0) && !hit_in(es, sec, t[k].0) {
                        let i = choose|i: int| 0 <= i < secs.len() && (#[trigger] secs[i]).1 is Some && hit_in(secs[i].1->0, secs[i].0, t[k].0);
                        assert(i != last);
                        assert(secs[i] == pre[i]);
                        assert(hit_any(pre, t[k].0));
                    }
                }
            },
            None => {
                assert forall|k: int| 0 <= k < t.len() implies #[trigger] apply_sections(t, secs)[k] == if hit_any(secs, t[k].0) {
                    binds[k]
                } else {
                    t[k]
                } by {
                    if hit_any(pre, t[k].0) {
                        let i = choose|i: int| 0 <= i < pre.len() && (#[trigger] pre[i]).1 is Some && hit_in(pre[i].1->0, pre[i].0, t[k].0);
                        assert(secs[i] == pre[i]);
                    }
                    if hit_any(secs, t[k].0) {
                        let i = choose|i: int| 0 <= i < secs.len() && (#[trigger] secs[i]).1 is Some && hit_in(secs[i].1->0, secs[i].0, t[k].0);
                        assert(i != last);
                        assert(secs[i] == pre[i]);
                    }
                }
            },
        }
    }
}

/// The default table names each command at most once.
proof fn lemma_defaults_distinct(bs: Seq<Bindable>)
    requires
        bs.no_duplicates(),
    ensures
        commands(default_binds_of(bs)).no_duplicates(),
        forall|x: Bindable| commands(default_binds_of(bs)).contains(x) ==> bs.contains(x),
    decreases bs.len(),
{
    if bs.len() > 0 {
        let pre = bs.drop_last();
        assert forall|a: int, c: int| 0 <= a < pre.len() && 0 <= c < pre.len() && a != c implies pre[a] != pre[c] by {
            assert(pre[a] == bs[a] && pre[c] == bs[c]);
        }
        lemma_defaults_distinct(pre);
        let prev = default_binds_of(pre);
        assert forall|x: Bindable| commands(prev).contains(x) implies bs.contains(x) by {
            assert(pre.contains(x));
            let i = choose|i: int| 0 <= i < pre.len() && pre[i] == x;
            assert(bs[i] == x);
        }
        match chord_parse(default_chord_of(bs.last())) {
            Some(c) => {
                let cur = prev.push((bs.last(), c));
                assert(commands(cur) =~= commands(prev).push(bs.last()));
                assert(!commands(prev).contains(bs.last())) by {
                    if commands(prev).contains(bs.last()) {
                        assert(pre.contains(bs.last()));
                        let i = choose|i: int| 0 <= i < pre.len() && pre[i] == bs.last();
                        assert(bs[i] == bs[bs.len() - 1]);
                    }
                }
                assert forall|x: Bindable| commands(cur).contains(x) implies bs.contains(x) by {
                    let i = choose|i: int| 0 <= i < commands(cur).len() && commands(cur)[i] == x;
                    if i < commands(prev).len() {
                        assert(commands(prev)[i] == x);
                    } else {
                        assert(bs[bs.len() - 1] == x);
                    }
                }
            },
            None => {},
        }
    }
}

/// Writing a shortcut table out and reading it back gives the same table,
/// so every key press resolves as before: for a table read from a file
/// (whose commands are those of the defaults), whose chords' keys are ones
/// the chord text reads back, and given that toml reads the written file
/// back as written (a command's key gives the chord text written for it, and
/// every command's key is there).
pub proof fn law_table_round_trip(
    binds: Seq<(Bindable, Chord)>,
    secs: Seq<(Seq<char>, Option<Seq<(Seq<char>, Option<Seq<char>>)>>)>,
)
    requires
        commands(binds) == commands(default_binds()),
        forall|k: int| 0 <= k < binds.len() ==> round_trips((#[trigger] binds[k]).1.code),
        toml_sections_of(toml_text(binds)) == Some(secs),
        reads_back_written(secs, binds),
    ensures
        parse_bindings(toml_text(binds)) == binds,
        forall|chord: Chord, focus: Focus|
            #[trigger] resolve_in(parse_bindings(toml_text(binds)), chord, focus) == resolve_in(binds, chord, focus),
{
    assert(all_bindables().no_duplicates());
    lemma_defaults_distinct(all_bindables());
    let t = default_binds();
    lemma_sections_apply(t, binds, secs);
    let r = apply_sections(t, secs);
    assert(commands(t).len() == commands(binds).len());
    assert(r.len() == t.len()) by {
        assert(commands(r).len() == commands(binds).len());
    }
    assert forall|k: int| 0 <= k < r.len() implies r[k] == binds[k] by {
        assert(commands(t)[k] == commands(binds)[k]);
        assert(exists|i: int, j: int|
            #![trigger named_entry(secs, i, j)]
            named_entry(secs, i, j) matches Some((b, v)) && b == binds[k].0);
        let (i, j) = choose|i: int, j: int|
            #![trigger named_entry(secs, i, j)]
            named_entry(secs, i, j) matches Some((b, v)) && b == binds[k].0;
        let es = secs[i].1->0;
        assert(es[j].1 is Some && by_name_in(all_bindables(), secs[i].0, es[j].0) == Some(binds[k].0));
        assert(hit_in(es, secs[i].0, binds[k].0));
        assert(hit_any(secs, t[k].0));
    }
    assert(r =~= binds);
}
/// The command whose action this is, if a command has it.
pub open spec fn command_of_action(a: Action) -> Option<Bindable> {
    match a {
        Action::Quit => Some(Bindable::Quit),
        Action::ToggleSidebar => Some(Bindable::ToggleSidebar),
        Action::ToggleTerminal => Some(Bindable::ToggleTerminal),
        Action::CloseTab => Some(Bindable::CloseTab),
        Action::Save => Some(Bindable::Save),
        Action::NextTab => Some(Bindable::NextTab),
        Action::PrevTab => Some(Bindable::PrevTab),
        Action::OpenFind => Some(Bindable::Find),
        Action::OpenFindReplace => Some(Bindable::Replace),
        Action::ShowShortcuts => Some(Bindable::Shortcuts),
        Action::OpenQuickbar => Some(Bindable::Quickbar),
        Action::SelectPanel(Panel::Files) => Some(Bindable::Explorer),
        Action::SelectPanel(Panel::Search) => Some(Bindable::Search),
        Action::SelectPanel(Panel::Git) => Some(Bindable::Git),
        Action::SelectPanel(Panel::Extensions) => Some(Bindable::Extensions),
        Action::SelectPanel(Panel::Themes) => Some(Bindable::Themes),
        Action::SelectPanel(Panel::Settings) => Some(Bindable::Settings),
        Action::RenameEntry => Some(Bindable::Rename),
        Action::Copy => Some(Bindable::Copy),
        Action::Cut => Some(Bindable::Cut),
        Action::Paste => Some(Bindable::Paste),
        Action::Undo => Some(Bindable::Undo),
        Action::Redo => Some(Bindable::Redo),
        Action::SelectAll => Some(Bindable::SelectAll),
        Action::TriggerCompletion => Some(Bindable::Completion),
        Action::Format => Some(Bindable::Format),
        Action::MoveLineUp => Some(Bindable::MoveLineUp),
        Action::MoveLineDown => Some(Bindable::MoveLineDown),
        Action::NewFile => Some(Bindable::NewFile),
        Action::NewFolder => Some(Bindable::NewFolder),
        Action::DeleteEntry => Some(Bindable::DeleteEntry),
        _ => None,
    }
}

proof fn lemma_action_names_command(b: Bindable)
    ensures
        command_of_action(bind_action(b)) == Some(b),
{
}

/// What a key resolves to comes from a binding of that chord whose scope
/// fires in the focus.
proof fn lemma_resolved_from(binds: Seq<(Bindable, Chord)>, chord: Chord, focus: Focus)
    ensures
        resolve_in(binds, chord, focus) matches Some(x) ==> exists|k: int|
            0 <= k < binds.len() && (#[trigger] binds[k]).1 == chord && x == bind_action(binds[k].0) && scope_matches(
                bind_scope(binds[k].0),
                focus,
            ),
    decreases binds.len(),
{
    if binds.len() > 0 && !(binds[0].1 == chord && scope_matches(bind_scope(binds[0].0), focus)) {
        let rest = binds.drop_first();
        lemma_resolved_from(rest, chord, focus);
        if resolve_in(binds, chord, focus) is Some {
            let k = choose|k: int| 0 <= k < rest.len() && (#[trigger] rest[k]).1 == chord
                && resolve_in(binds, chord, focus)->0 == bind_action(rest[k].0) && scope_matches(bind_scope(rest[k].0), focus);
            assert(binds[k + 1] == rest[k]);
        }
    } else if binds.len() > 0 {
        assert(binds[0].1 == chord);
    }
}

/// A command fires only where its scope says: a key press resolves to a
/// sidebar command (new file, new folder, delete entry) only while the
/// sidebar has the focus, and to an editor command only while the editor
/// has it; a global command may fire in any focus.
pub proof fn law_commands_fire_in_their_scope(binds: Seq<(Bindable, Chord)>, chord: Chord, focus: Focus, b: Bindable)
    requires
        resolve_in(binds, chord, focus) == Some(bind_action(b)),
    ensures
        bind_scope(b) == Scope::Sidebar ==> focus == Focus::Sidebar,
        bind_scope(b) == Scope::Editor ==> focus == Focus::Editor,
{
    lemma_resolved_from(binds, chord, focus);
    let k = choose|k: int|
        0 <= k < binds.len() && (#[trigger] binds[k]).1 == chord && bind_action(b) == bind_action(binds[k].0) && scope_matches(
            bind_scope(binds[k].0),
            focus,
        );
    lemma_action_names_command(b);
    lemma_action_names_command(binds[k].0);
}

/// Where each scope fires: a global binding in every focus, a sidebar
/// binding only while the sidebar has the focus, an editor binding only while
/// the editor has it.
pub proof fn law_scopes_of_focus(f: Focus)
    ensures
        scope_matches(Scope::Global, f),
        scope_matches(Scope::Sidebar, f) <==> f == Focus::Sidebar,
        scope_matches(Scope::Editor, f) <==> f == Focus::Editor,
{
}

} // verus!
