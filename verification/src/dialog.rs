//! What a key does to the open modal dialog, and what confirming it asks for.
use vstd::prelude::*;

use crate::keybindings::{chord_of_event, resolve_in, Action, Keybindings};
use crate::keys::{KeyCode, KeyEvent};
use crate::model::{Dialog, DialogAction, DialogKind, Focus};
use crate::names::{sanitize_name, sanitized};
use crate::paths::{join, joined_of, parent, parent_of, same_path, same_path_of};
use crate::split::{trim, trim_str};
use crate::text::copy_str;
use crate::text_input::{key_effect, paste_filter, InputOutcome};

verus! {

/// What the dialog made of a key.
#[derive(Clone, Copy, Debug, PartialEq, Eq, Structural)]
pub enum DialogKey {
    /// Run the dialog's action and close it.
    Confirm,
    /// Close the dialog without running its action.
    Cancel,
    /// The dialog used the key itself (typing, caret motion, button choice).
    Handled,
    /// Not a dialog key: it goes on to the global shortcuts.
    Fallback,
}

/// What confirming a dialog asks the application to do.
#[derive(Clone, Debug, PartialEq, Eq)]
pub enum DialogEffect {
    /// Nothing to do.
    Nothing,
    /// The typed name was refused; the trimmed name is reported.
    InvalidName(String),
    /// Revert the working-tree change of a path.
    GitRevert(String),
    /// Create a file or directory at `path`; `dir` is expanded in the tree first.
    CreatePath { dir: String, path: String, is_dir: bool },
    /// Rename `from` to `to`.
    RenamePath { from: String, to: String },
    /// Delete a path.
    DeletePath(String),
    /// Close the tab at an index.
    CloseTab(usize),
    /// Overwrite the keybindings file with the defaults.
    ResetKeybindings,
    /// Overwrite the config file with the seeded defaults.
    ResetConfig,
}

/// The key's verdict for a dialog of `kind` whose button selection is
/// `selected`; for an input dialog, `input_outcome` is what its text field
/// made of the key.
pub open spec fn dialog_verdict(kind: DialogKind, selected: usize, key: KeyEvent, input_outcome: InputOutcome) -> DialogKey {
    match kind {
        DialogKind::Info => match key.code {
            KeyCode::Enter | KeyCode::Esc => DialogKey::Confirm,
            _ => DialogKey::Fallback,
        },
        DialogKind::Ask => match key.code {
            KeyCode::Left | KeyCode::Right | KeyCode::Tab => DialogKey::Handled,
            KeyCode::Char('e') | KeyCode::Char('y') => DialogKey::Confirm,
            KeyCode::Char('h') | KeyCode::Char('n') | KeyCode::Esc => DialogKey::Cancel,
            KeyCode::Enter => if selected == 0 { DialogKey::Confirm } else { DialogKey::Cancel },
            _ => DialogKey::Fallback,
        },
        DialogKind::Input => if input_outcome == InputOutcome::Ignored {
            match key.code {
                KeyCode::Enter => DialogKey::Confirm,
                KeyCode::Esc => DialogKey::Cancel,
                _ => DialogKey::Fallback,
            }
        } else {
            DialogKey::Handled
        },
    }
}

/// Whether a key flips the Yes/No selection of a confirmation dialog.
pub open spec fn toggles_selection(kind: DialogKind, key: KeyEvent) -> bool {
    kind == DialogKind::Ask && (key.code == KeyCode::Left || key.code == KeyCode::Right
        || key.code == KeyCode::Tab)
}

/// A dialog effect as plain values.
pub ghost enum EffectV {
    Nothing,
    InvalidName(Seq<char>),
    GitRevert(Seq<char>),
    CreatePath(Seq<char>, Seq<char>, bool),
    RenamePath(Seq<char>, Seq<char>),
    DeletePath(Seq<char>),
    CloseTab(int),
    ResetKeybindings,
    ResetConfig,
}

impl DialogEffect {
    pub open spec fn view(self) -> EffectV {
        match self {
            DialogEffect::Nothing => EffectV::Nothing,
            DialogEffect::InvalidName(n) => EffectV::InvalidName(n@),
            DialogEffect::GitRevert(r) => EffectV::GitRevert(r@),
            DialogEffect::CreatePath { dir, path, is_dir } => EffectV::CreatePath(dir@, path@, is_dir),
            DialogEffect::RenamePath { from, to } => EffectV::RenamePath(from@, to@),
            DialogEffect::DeletePath(p) => EffectV::DeletePath(p@),
            DialogEffect::CloseTab(i) => EffectV::CloseTab(i as int),
            DialogEffect::ResetKeybindings => EffectV::ResetKeybindings,
            DialogEffect::ResetConfig => EffectV::ResetConfig,
        }
    }
}

/// A refused name: reported (trimmed) when something was typed, dropped
/// silently when not.
pub open spec fn rejected(typed: Seq<char>) -> EffectV {
    if trim(typed).len() == 0 {
        EffectV::Nothing
    } else {
        EffectV::InvalidName(trim(typed))
    }
}

/// Creating the typed name inside `dir`.
pub open spec fn create_effect(dir: Seq<char>, typed: Seq<char>, is_dir: bool) -> EffectV {
    match sanitized(typed) {
        None => rejected(typed),
        Some(name) => EffectV::CreatePath(dir, joined_of(dir, name), is_dir),
    }
}

/// Renaming `path` to the typed name, kept in its own directory; a name that
/// leaves the path as it was asks for nothing.
pub open spec fn rename_effect(path: Seq<char>, typed: Seq<char>) -> EffectV {
    match sanitized(typed) {
        None => rejected(typed),
        Some(name) => match parent_of(path) {
            None => EffectV::Nothing,
            Some(dir) => if same_path_of(joined_of(dir, name), path) {
                EffectV::Nothing
            } else {
                EffectV::RenamePath(path, joined_of(dir, name))
            },
        },
    }
}

/// What confirming a dialog with `action` and typed text `typed` asks for.
pub open spec fn effect_of(action: DialogAction, typed: Seq<char>) -> EffectV {
    match action {
        DialogAction::NoAction => EffectV::Nothing,
        DialogAction::GitRevert(rel) => EffectV::GitRevert(rel@),
        DialogAction::NewFile(dir) => create_effect(dir@, typed, false),
        DialogAction::NewFolder(dir) => create_effect(dir@, typed, true),
        DialogAction::Rename(path) => rename_effect(path@, typed),
        DialogAction::Delete(path) => EffectV::DeletePath(path@),
        DialogAction::CloseTab(i, _) => EffectV::CloseTab(i as int),
        DialogAction::ResetKeybindings => EffectV::ResetKeybindings,
        DialogAction::ResetConfig => EffectV::ResetConfig,
    }
}

fn rejected_name(typed: &str) -> (e: DialogEffect)
    requires
        sanitized(typed@) is None,
    ensures
        e.view() == rejected(typed@),
{
    let t = trim_str(typed);
    if t.as_str().is_empty() {
        DialogEffect::Nothing
    } else {
        DialogEffect::InvalidName(t)
    }
}

fn create_in(dir: &str, typed: &str, is_dir: bool) -> (e: DialogEffect)
    ensures
        e.view() == create_effect(dir@, typed@, is_dir),
{
    match sanitize_name(typed) {
        None => rejected_name(typed),
        Some(name) => DialogEffect::CreatePath { dir: copy_str(dir), path: join(dir, name.as_str()), is_dir },
    }
}

fn rename_to(path: &str, typed: &str) -> (e: DialogEffect)
    ensures
        e.view() == rename_effect(path@, typed@),
{
    match sanitize_name(typed) {
        None => rejected_name(typed),
        Some(name) => match parent(path) {
            None => DialogEffect::Nothing,
            Some(dir) => {
                let to = join(dir.as_str(), name.as_str());
                if same_path(to.as_str(), path) {
                    DialogEffect::Nothing
                } else {
                    DialogEffect::RenamePath { from: copy_str(path), to }
                }
            },
        },
    }
}

impl Dialog {
    /// Handles a key while the dialog is open. A confirmation dialog flips its
    /// button with Left/Right/Tab; an input dialog hands the key to its text
    /// field first, and only a key the field ignores can confirm, cancel or
    /// fall through.
    pub fn handle_key(&mut self, key: KeyEvent) -> (r: DialogKey)
        requires
            old(self).input@.0.len() + 1 < usize::MAX,
        ensures
            final(self).kind == old(self).kind,
            final(self).title == old(self).title,
            final(self).message == old(self).message,
            final(self).action == old(self).action,
            final(self).selected == if toggles_selection(old(self).kind, key) {
                old(self).selected ^ 1usize
            } else {
                old(self).selected
            },
            old(self).kind == DialogKind::Input ==> {
                let (v, o) = key_effect(old(self).input@, key, false);
                &&& final(self).input@ == v
                &&& r == dialog_verdict(old(self).kind, old(self).selected, key, o)
            },
            old(self).kind != DialogKind::Input ==> {
                &&& final(self).input@ == old(self).input@
                &&& r == dialog_verdict(old(self).kind, old(self).selected, key, InputOutcome::Ignored)
            },
    {
        match self.kind {
            DialogKind::Info => match key.code {
                KeyCode::Enter | KeyCode::Esc => DialogKey::Confirm,
                _ => DialogKey::Fallback,
            },
            DialogKind::Ask => match key.code {
                KeyCode::Left | KeyCode::Right | KeyCode::Tab => {
                    self.selected = self.selected ^ 1;
                    DialogKey::Handled
                },
                KeyCode::Char('e') | KeyCode::Char('y') => DialogKey::Confirm,
                KeyCode::Char('h') | KeyCode::Char('n') | KeyCode::Esc => DialogKey::Cancel,
                KeyCode::Enter => if self.selected == 0 {
                    DialogKey::Confirm
                } else {
                    DialogKey::Cancel
                },
                _ => DialogKey::Fallback,
            },
            DialogKind::Input => {
                let outcome = self.input.handle_key(key, false);
                match outcome {
                    InputOutcome::Ignored => match key.code {
                        KeyCode::Enter => DialogKey::Confirm,
                        KeyCode::Esc => DialogKey::Cancel,
                        _ => DialogKey::Fallback,
                    },
                    _ => DialogKey::Handled,
                }
            },
        }
    }

    /// Pastes into the dialog's text field; only an input dialog has one.
    pub fn paste(&mut self, text: &str)
        requires
            old(self).input@.0.len() + text@.len() < usize::MAX,
        ensures
            final(self).kind == old(self).kind,
            final(self).title == old(self).title,
            final(self).message == old(self).message,
            final(self).action == old(self).action,
            final(self).selected == old(self).selected,
            final(self).input@ == if old(self).kind == DialogKind::Input {
                (
                    old(self).input@.0.take(old(self).input@.1 as int) + paste_filter(text@, false)
                        + old(self).input@.0.skip(old(self).input@.1 as int),
                    old(self).input@.1 + paste_filter(text@, false).len(),
                )
            } else {
                old(self).input@
            },
    {
        if self.kind == DialogKind::Input {
            self.input.insert_paste(text, false);
        }
    }

    /// What confirming the dialog asks for: the typed name is checked and
    /// joined to its directory for New File / New Folder / Rename.
    pub fn confirm_effect(&self) -> (e: DialogEffect)
        ensures
            e.view() == effect_of(self.action, self.input@.0),
    {
        match &self.action {
            DialogAction::NoAction => DialogEffect::Nothing,
            DialogAction::GitRevert(rel) => DialogEffect::GitRevert(copy_str(rel.as_str())),
            DialogAction::NewFile(dir) => create_in(dir.as_str(), self.input.content(), false),
            DialogAction::NewFolder(dir) => create_in(dir.as_str(), self.input.content(), true),
            DialogAction::Rename(path) => rename_to(path.as_str(), self.input.content()),
            DialogAction::Delete(path) => DialogEffect::DeletePath(copy_str(path.as_str())),
            DialogAction::CloseTab(i, _) => DialogEffect::CloseTab(*i),
            DialogAction::ResetKeybindings => DialogEffect::ResetKeybindings,
            DialogAction::ResetConfig => DialogEffect::ResetConfig,
        }
    }
}

/// The text field's content and caret after a key, in an input dialog.
pub open spec fn input_after(d: Dialog, key: KeyEvent) -> (Seq<char>, nat) {
    if d.kind == DialogKind::Input {
        key_effect(d.input@, key, false).0
    } else {
        d.input@
    }
}

/// What the open dialog makes of a key.
pub open spec fn verdict_of(d: Dialog, key: KeyEvent) -> DialogKey {
    if d.kind == DialogKind::Input {
        dialog_verdict(d.kind, d.selected, key, key_effect(d.input@, key, false).1)
    } else {
        dialog_verdict(d.kind, d.selected, key, InputOutcome::Ignored)
    }
}

/// What a key does while a dialog may be open.
#[derive(Clone, Debug, PartialEq, Eq)]
pub enum DialogStep {
    /// The dialog was confirmed and closed; its effect is to be carried out.
    Confirmed(DialogEffect),
    /// The dialog was closed without running its action.
    Cancelled,
    /// The dialog used the key (or no dialog was open).
    Handled,
    /// Not a dialog key: the command the user's shortcuts give it (resolved
    /// as in the editor, so a letter types nothing), if any.
    Shortcut(Option<Action>),
}

/// Handles a key while a dialog is open: the dialog's own keys act on it
/// (confirming or cancelling closes it), and every other key goes on to the
/// global shortcuts, so Ctrl+Q still quits with a dialog open.
pub fn dialog_key(dialog: &mut Option<Dialog>, key: KeyEvent, kb: &Keybindings) -> (r: DialogStep)
    requires
        *old(dialog) matches Some(d) ==> d.input@.0.len() + 1 < usize::MAX,
    ensures
        *old(dialog) is None ==> *final(dialog) is None && r == DialogStep::Handled,
        *old(dialog) matches Some(d) ==> match verdict_of(d, key) {
            DialogKey::Confirm => *final(dialog) is None && (r matches DialogStep::Confirmed(e) && e.view() == effect_of(
                d.action,
                input_after(d, key).0,
            )),
            DialogKey::Cancel => *final(dialog) is None && r == DialogStep::Cancelled,
            DialogKey::Handled => r == DialogStep::Handled && (*final(dialog) matches Some(d2) && d2.input@ == input_after(
                d,
                key,
            ) && d2.action == d.action && d2.kind == d.kind),
            DialogKey::Fallback => r == DialogStep::Shortcut(resolve_in(kb@, chord_of_event(key), Focus::Editor)) && (*final(dialog) matches Some(d2) && d2.input@ == input_after(d, key) && d2.action == d.action && d2.kind == d.kind),
        },
{
    let mut d = match dialog.take() {
        Some(d) => d,
        None => return DialogStep::Handled,
    };
    let v = d.handle_key(key);
    match v {
        DialogKey::Confirm => DialogStep::Confirmed(d.confirm_effect()),
        DialogKey::Cancel => DialogStep::Cancelled,
        DialogKey::Handled => {
            *dialog = Some(d);
            DialogStep::Handled
        },
        DialogKey::Fallback => {
            *dialog = Some(d);
            DialogStep::Shortcut(kb.resolve(key, Focus::Editor))
        },
    }
}

} // verus!
