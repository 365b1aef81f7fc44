//! What a resolved command does, where that depends on the state it meets:
//! saving, Tab and Shift+Tab, navigation in the Git panel, and the file
//! tree's shortcuts.
use vstd::prelude::*;

use crate::completion::{continues_word, keeps_typing};
use crate::model::{Focus, GitZone, Panel};

verus! {

/// Whether the Git panel holds the focus: it is the open panel and the
/// focus is on it or on its commit box.
pub open spec fn in_git_panel_of(active: Panel, sidebar_open: bool, focus: Focus) -> bool {
    active == Panel::Git && sidebar_open && (focus == Focus::Sidebar || focus == Focus::GitCommit)
}

pub fn in_git_panel(active: Panel, sidebar_open: bool, focus: Focus) -> (b: bool)
    ensures
        b == in_git_panel_of(active, sidebar_open, focus),
{
    let on_git = match active {
        Panel::Git => true,
        _ => false,
    };
    let focused = match focus {
        Focus::Sidebar | Focus::GitCommit => true,
        _ => false,
    };
    on_git && sidebar_open && focused
}

/// The kind of file a save writes, as far as the editor reacts to it.
#[derive(Clone, Copy, Debug, PartialEq, Eq, Structural)]
pub enum SavedFile {
    /// The settings file: applied live once written, and the tools re-probed.
    Config,
    /// The shortcut file: re-read live.
    Keybindings,
    Other,
}

/// What Save does.
#[derive(Clone, Copy, Debug, PartialEq, Eq, Structural)]
pub enum SaveStep {
    /// Nothing: the tab is a notice or read-only.
    Skip,
    /// An untitled buffer: ask for a path for tab `i`.
    AskPath(usize),
    /// Format first; the write follows once the edits are applied.
    Format,
    /// Write the text now.
    Write(SavedFile),
}

pub open spec fn save_step_of(
    protected: bool,
    active: Option<usize>,
    has_path: bool,
    format_on_save: bool,
    formatter: bool,
    kind: SavedFile,
) -> SaveStep {
    if protected {
        SaveStep::Skip
    } else if !has_path {
        match active {
            Some(i) => SaveStep::AskPath(i),
            None => SaveStep::Skip,
        }
    } else if format_on_save && formatter {
        SaveStep::Format
    } else {
        SaveStep::Write(kind)
    }
}

/// What Save does for the active tab: nothing for a notice or read-only tab,
/// ask for a path for an untitled one, format first when format-on-save is
/// on and the language has a formatter, else write (`protected`: the tab is
/// a notice or read-only; `has_path`: its buffer has a file).
pub fn save_step(
    protected: bool,
    active: Option<usize>,
    has_path: bool,
    format_on_save: bool,
    formatter: bool,
    kind: SavedFile,
) -> (r: SaveStep)
    ensures
        r == save_step_of(protected, active, has_path, format_on_save, formatter, kind),
{
    if protected {
        SaveStep::Skip
    } else if !has_path {
        match active {
            Some(i) => SaveStep::AskPath(i),
            None => SaveStep::Skip,
        }
    } else if format_on_save && formatter {
        SaveStep::Format
    } else {
        SaveStep::Write(kind)
    }
}

/// What Tab does in the editor.
#[derive(Clone, Copy, Debug, PartialEq, Eq, Structural)]
pub enum TabKey {
    /// Indent the selected lines.
    Indent,
    /// Insert four spaces.
    Spaces,
}

/// Tab indents a selection spanning lines in the focused editor; otherwise it
/// inserts a soft tab.
pub fn tab_key(focus: Focus, multiline_selection: bool) -> (r: TabKey)
    ensures
        r == (if focus == Focus::Editor && multiline_selection {
            TabKey::Indent
        } else {
            TabKey::Spaces
        }),
{
    match focus {
        Focus::Editor => if multiline_selection {
            TabKey::Indent
        } else {
            TabKey::Spaces
        },
        _ => TabKey::Spaces,
    }
}

/// What Shift+Tab does.
#[derive(Clone, Copy, Debug, PartialEq, Eq, Structural)]
pub enum ShiftTab {
    /// Dedent the selected lines.
    Dedent,
    /// Walk the Git panel's zones backwards.
    ZoneBack,
    /// Switch to the previous tab.
    PrevTab,
}

/// Shift+Tab dedents a selection spanning lines in the focused editor, walks
/// the Git panel's zones backwards while it holds the focus, and otherwise
/// switches to the previous tab.
pub fn shift_tab(focus: Focus, multiline_selection: bool, in_git: bool) -> (r: ShiftTab)
    ensures
        r == (if focus == Focus::Editor && multiline_selection {
            ShiftTab::Dedent
        } else if in_git {
            ShiftTab::ZoneBack
        } else {
            ShiftTab::PrevTab
        }),
{
    let editor = match focus {
        Focus::Editor => true,
        _ => false,
    };
    if editor && multiline_selection {
        ShiftTab::Dedent
    } else if in_git {
        ShiftTab::ZoneBack
    } else {
        ShiftTab::PrevTab
    }
}

/// Whether Up and Down move the sidebar's selection: in the Git panel they
/// drive the change list, so they stay put while a button holds the focus.
pub fn nav_moves(in_git: bool, zone: GitZone) -> (b: bool)
    ensures
        b == !(in_git && zone != GitZone::Files),
{
    match zone {
        GitZone::Files => true,
        _ => !in_git,
    }
}

/// What Enter does in the sidebar.
#[derive(Clone, Copy, Debug, PartialEq, Eq, Structural)]
pub enum EnterKey {
    /// Press the Git panel's focused button (or open its selected change).
    GitZone,
    /// Open the selected row.
    Selection,
}

/// In the Git panel Enter presses whichever zone holds the focus; elsewhere
/// it opens the selected row.
pub fn enter_key(in_git: bool) -> (r: EnterKey)
    ensures
        r == (if in_git {
            EnterKey::GitZone
        } else {
            EnterKey::Selection
        }),
{
    if in_git {
        EnterKey::GitZone
    } else {
        EnterKey::Selection
    }
}

/// Whether a typed character asks for completions (after a pause): one that
/// continues an identifier, or a '.'.
pub fn typing_asks_completion(c: char) -> (b: bool)
    ensures
        b == keeps_typing(c),
{
    continues_word(c)
}

/// Whether the file tree's shortcuts (new file, new folder, rename, delete)
/// act: only while the Files panel is the open one.
pub fn tree_shortcuts_act(active: Panel) -> (b: bool)
    ensures
        b == (active == Panel::Files),
{
    match active {
        Panel::Files => true,
        _ => false,
    }
}

} // verus!
