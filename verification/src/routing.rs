//! Where input goes: which overlay or field a key press, a paste or a mouse
//! event is handed to, in the order the front end offers it.
use vstd::prelude::*;

use crate::model::{FindField, Focus, SearchField};

verus! {

/// The overlays that can be open over the editor.
#[derive(Clone, Copy, Debug, PartialEq, Eq, Structural)]
pub struct Overlays {
    /// The command palette, topmost of all.
    pub quickbar: bool,
    /// A modal dialog.
    pub dialog: bool,
    /// The file tree's context menu.
    pub context_menu: bool,
    /// The completion popup in the editor.
    pub completion: bool,
}

/// A text field that takes keys itself.
#[derive(Clone, Copy, Debug, PartialEq, Eq, Structural)]
pub enum InputField {
    FindQuery,
    FindReplace,
    SearchQuery,
    SearchReplace,
    CommitMessage,
}

pub open spec fn focused_input_of(focus: Focus, find: FindField, search: SearchField) -> Option<(InputField, bool)> {
    match focus {
        Focus::Find => Some(
            (
                match find {
                    FindField::Query => InputField::FindQuery,
                    FindField::Replace => InputField::FindReplace,
                },
                false,
            ),
        ),
        Focus::SearchInput => Some(
            (
                match search {
                    SearchField::Query => InputField::SearchQuery,
                    SearchField::Replace => InputField::SearchReplace,
                },
                false,
            ),
        ),
        Focus::GitCommit => Some((InputField::CommitMessage, true)),
        _ => None,
    }
}

/// The text field the focus routes keys to, and whether it takes several
/// lines (only the commit message does); `None` off a text field.
pub fn focused_input(focus: Focus, find: FindField, search: SearchField) -> (r: Option<(InputField, bool)>)
    ensures
        r == focused_input_of(focus, find, search),
{
    match focus {
        Focus::Find => Some(
            (
                match find {
                    FindField::Query => InputField::FindQuery,
                    FindField::Replace => InputField::FindReplace,
                },
                false,
            ),
        ),
        Focus::SearchInput => Some(
            (
                match search {
                    SearchField::Query => InputField::SearchQuery,
                    SearchField::Replace => InputField::SearchReplace,
                },
                false,
            ),
        ),
        Focus::GitCommit => Some((InputField::CommitMessage, true)),
        _ => None,
    }
}

/// A part of the front end that may take a key press.
#[derive(Clone, Copy, Debug, PartialEq, Eq, Structural)]
pub enum KeyHandler {
    Quickbar,
    Dialog,
    ContextMenu,
    /// The completion popup, which passes on keys it does not use.
    Completion,
    /// A text field (and whether it is multi-line), which passes on keys it
    /// ignores.
    Input(InputField, bool),
    /// The user's shortcuts and the editor's own keys.
    Keymap,
}

pub open spec fn key_handlers_of(o: Overlays, input: Option<(InputField, bool)>) -> Seq<KeyHandler> {
    if o.quickbar {
        seq![KeyHandler::Quickbar]
    } else if o.dialog {
        seq![KeyHandler::Dialog]
    } else if o.context_menu {
        seq![KeyHandler::ContextMenu]
    } else {
        (if o.completion {
            seq![KeyHandler::Completion]
        } else {
            Seq::empty()
        }) + (match input {
            Some((f, multi)) => seq![KeyHandler::Input(f, multi)],
            None => Seq::empty(),
        }) + seq![KeyHandler::Keymap]
    }
}

/// The handlers a key press is offered to, in order, each passing it on to
/// the next only when it does not use it: an open quickbar, dialog or context
/// menu takes every key; otherwise the completion popup gets first refusal,
/// then the focused text field, then the shortcuts.
pub fn key_handlers(o: Overlays, input: Option<(InputField, bool)>) -> (r: Vec<KeyHandler>)
    ensures
        r@ == key_handlers_of(o, input),
{
    if o.quickbar {
        return vec![KeyHandler::Quickbar];
    }
    if o.dialog {
        return vec![KeyHandler::Dialog];
    }
    if o.context_menu {
        return vec![KeyHandler::ContextMenu];
    }
    let mut r: Vec<KeyHandler> = Vec::new();
    if o.completion {
        r.push(KeyHandler::Completion);
    }
    if let Some((f, multi)) = input {
        r.push(KeyHandler::Input(f, multi));
    }
    r.push(KeyHandler::Keymap);
    assert(r@ =~= key_handlers_of(o, input));
    r
}

/// Where a pasted text goes.
#[derive(Clone, Copy, Debug, PartialEq, Eq, Structural)]
pub enum PasteTarget {
    Quickbar,
    Dialog,
    /// Dropped: the context menu takes no text, and a paste must not fire
    /// its one-letter shortcuts.
    Nowhere,
    Input(InputField, bool),
    Terminal,
    /// The active buffer, which takes it only when the editor has focus and
    /// the tab can be edited.
    Editor,
}

pub open spec fn paste_target_of(o: Overlays, input: Option<(InputField, bool)>, focus: Focus) -> PasteTarget {
    if o.quickbar {
        PasteTarget::Quickbar
    } else if o.dialog {
        PasteTarget::Dialog
    } else if o.context_menu {
        PasteTarget::Nowhere
    } else {
        match input {
            Some((f, multi)) => PasteTarget::Input(f, multi),
            None => if focus == Focus::Terminal {
                PasteTarget::Terminal
            } else {
                PasteTarget::Editor
            },
        }
    }
}

/// Where a paste goes: whichever overlay owns input, else the focused text
/// field, else the terminal when it has focus, else the editor.
pub fn paste_target(o: Overlays, input: Option<(InputField, bool)>, focus: Focus) -> (r: PasteTarget)
    ensures
        r == paste_target_of(o, input, focus),
{
    if o.quickbar {
        PasteTarget::Quickbar
    } else if o.dialog {
        PasteTarget::Dialog
    } else if o.context_menu {
        PasteTarget::Nowhere
    } else {
        match input {
            Some((f, multi)) => PasteTarget::Input(f, multi),
            None => match focus {
                Focus::Terminal => PasteTarget::Terminal,
                _ => PasteTarget::Editor,
            },
        }
    }
}

/// Where a mouse event goes.
#[derive(Clone, Copy, Debug, PartialEq, Eq, Structural)]
pub enum MouseTarget {
    Quickbar,
    Dialog,
    ContextMenu,
    /// The screen below the overlays.
    Screen,
}

/// Where a mouse event goes: the topmost open overlay, else the screen.
pub fn mouse_target(o: Overlays) -> (r: MouseTarget)
    ensures
        r == (if o.quickbar {
            MouseTarget::Quickbar
        } else if o.dialog {
            MouseTarget::Dialog
        } else if o.context_menu {
            MouseTarget::ContextMenu
        } else {
            MouseTarget::Screen
        }),
{
    if o.quickbar {
        MouseTarget::Quickbar
    } else if o.dialog {
        MouseTarget::Dialog
    } else if o.context_menu {
        MouseTarget::ContextMenu
    } else {
        MouseTarget::Screen
    }
}

/// Whether a change to a text field re-runs the find: only the find query
/// does, so matches follow what is typed.
pub fn refinds_on_change(focus: Focus, find: FindField) -> (b: bool)
    ensures
        b == (focus == Focus::Find && find == FindField::Query),
{
    match (focus, find) {
        (Focus::Find, FindField::Query) => true,
        _ => false,
    }
}

/// Whether the leader latch stays armed once the shortcuts resolved a
/// command: a command other than the leader itself uses it up.
pub fn leader_after(leader: bool, resolved_leader: bool) -> (b: bool)
    ensures
        b == (leader && resolved_leader),
{
    leader && resolved_leader
}

/// An open overlay takes every key press: nothing below it sees one.
pub proof fn law_overlay_takes_every_key(o: Overlays, input: Option<(InputField, bool)>)
    requires
        o.quickbar || o.dialog || o.context_menu,
    ensures
        key_handlers_of(o, input).len() == 1,
        key_handlers_of(o, input)[0] != KeyHandler::Keymap,
{
}

/// Without an overlay the shortcuts always get a key last, after whatever
/// passes it on.
pub proof fn law_shortcuts_come_last(o: Overlays, input: Option<(InputField, bool)>)
    requires
        !(o.quickbar || o.dialog || o.context_menu),
    ensures
        key_handlers_of(o, input).last() == KeyHandler::Keymap,
        forall|k: int|
            0 <= k < key_handlers_of(o, input).len() - 1 ==> #[trigger] key_handlers_of(o, input)[k] != KeyHandler::Keymap,
{
}

} // verus!
