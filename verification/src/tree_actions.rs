//! What the file tree does on Enter or a click, and the dialogs it opens for
//! creating, renaming and deleting entries.
use vstd::prelude::*;

use crate::filetree::{find_v, flatten_v, top, upd_v, view_opt, set_expanded_fn, FileTree, RowV};
use crate::keys::{KeyCode, KeyEvent};
use crate::model::{ContextMenu, Dialog, DialogAction, DialogKind, MenuItem};
use crate::paths::{file_name, file_name_of, parent, parent_of, same_path, same_path_of};
use crate::text::copy_str;

verus! {

/// What activating the selected tree row did or asks for.
#[derive(Clone, Debug, PartialEq, Eq)]
pub enum RowAction {
    /// No row is selected.
    Nothing,
    /// An expanded directory was collapsed.
    Collapsed(String),
    /// A loaded directory was expanded.
    Expanded(String),
    /// A directory not scanned yet: scan it.
    Scan(String),
    /// A file: open it.
    Open(String),
}

impl FileTree {
    /// Enter (or a click) on the selected row: a directory toggles open or
    /// shut, or asks to be scanned first; a file asks to be opened.
    pub fn activate_selected(&mut self) -> (a: RowAction)
        ensures
            final(self).root == old(self).root,
            final(self).selected == old(self).selected,
            ({
                let rows = flatten_v(top(&*old(self)), 0);
                let row = rows[old(self).selected as int];
                let node = find_v(top(&*old(self)), row.path);
                if old(self).selected >= rows.len() {
                    &&& a is Nothing
                    &&& view_opt(final(self).children) == view_opt(old(self).children)
                } else if !row.is_dir {
                    &&& a matches RowAction::Open(p) && p@ == row.path
                    &&& view_opt(final(self).children) == view_opt(old(self).children)
                } else if node matches Some(n) && n.expanded {
                    &&& a matches RowAction::Collapsed(p) && p@ == row.path
                    &&& view_opt(final(self).children) == match view_opt(old(self).children) {
                        Some(c) => Some(upd_v(c, row.path, set_expanded_fn(false))),
                        None => None,
                    }
                } else if node matches Some(n) && n.children is Some {
                    &&& a matches RowAction::Expanded(p) && p@ == row.path
                    &&& view_opt(final(self).children) == match view_opt(old(self).children) {
                        Some(c) => Some(upd_v(c, row.path, set_expanded_fn(true))),
                        None => None,
                    }
                } else {
                    &&& a matches RowAction::Scan(p) && p@ == row.path
                    &&& view_opt(final(self).children) == view_opt(old(self).children)
                }
            }),
    {
        let rows = self.visible_rows();
        if self.selected >= rows.len() {
            return RowAction::Nothing;
        }
        let row = &rows[self.selected];
        proof {
            assert(crate::filetree::row_view(rows@[self.selected as int]) == flatten_v(top(&*self), 0)[self.selected as int]);
        }
        let path = copy_str(row.path.as_str());
        if !row.is_dir {
            return RowAction::Open(path);
        }
        if self.is_expanded(path.as_str()) {
            self.collapse(path.as_str());
            RowAction::Collapsed(path)
        } else if self.is_loaded(path.as_str()) {
            self.expand(path.as_str());
            RowAction::Expanded(path)
        } else {
            RowAction::Scan(path)
        }
    }
}

/// What a directory is called in a dialog: "workspace" for the root, else
/// its file name (or the whole path without one).
pub open spec fn dir_label_of(dir: Seq<char>, root: Seq<char>) -> Seq<char> {
    if same_path_of(dir, root) {
        "workspace"@
    } else {
        match file_name_of(dir) {
            Some(n) => n,
            None => dir,
        }
    }
}

fn dir_label(dir: &str, root: &str) -> (r: String)
    ensures
        r@ == dir_label_of(dir@, root@),
{
    if same_path(dir, root) {
        return String::from_str("workspace");
    }
    match file_name(dir) {
        Some(n) => n,
        None => copy_str(dir),
    }
}

/// Where a new entry goes from a tree row, and what that place is called:
/// inside a directory row, next to a file row.
pub open spec fn entry_place(row: RowV, root: Seq<char>) -> (Seq<char>, Seq<char>) {
    if row.is_dir {
        (row.path, row.name)
    } else {
        let dir = match parent_of(row.path) {
            Some(d) => d,
            None => root,
        };
        (dir, dir_label_of(dir, root))
    }
}

/// "file" or "folder".
pub open spec fn kind_word(is_dir: bool) -> Seq<char> {
    if is_dir { "folder"@ } else { "file"@ }
}

pub open spec fn new_title(is_dir: bool) -> Seq<char> {
    if is_dir { "New Folder"@ } else { "New File"@ }
}

/// The action a new-entry dialog carries.
pub open spec fn creates_in(a: DialogAction, dir: Seq<char>, is_dir: bool) -> bool {
    if is_dir {
        a matches DialogAction::NewFolder(p) && p@ == dir
    } else {
        a matches DialogAction::NewFile(p) && p@ == dir
    }
}

/// A fresh text-input dialog with an empty field.
pub open spec fn empty_input(d: Dialog) -> bool {
    &&& d.kind == DialogKind::Input
    &&& d.input@ == (Seq::<char>::empty(), 0nat)
    &&& d.selected == 0
}

fn new_entry(dir: String, label: &str, is_dir: bool) -> (d: Dialog)
    ensures
        empty_input(d),
        d.title@ == new_title(is_dir),
        d.message@ == "Name of the new "@ + kind_word(is_dir) + " in '"@ + label@ + "':"@,
        creates_in(d.action, dir@, is_dir),
{
    let mut message = String::from_str("Name of the new ");
    message.append(if is_dir { "folder" } else { "file" });
    message.append(" in '");
    message.append(label);
    message.append("':");
    let title = String::from_str(if is_dir { "New Folder" } else { "New File" });
    let action = if is_dir { DialogAction::NewFolder(dir) } else { DialogAction::NewFile(dir) };
    Dialog::input(title, message, String::new(), action)
}

impl FileTree {
    /// The name dialog for a new file or folder from the row at `idx`; the row
    /// becomes the selection. `None` past the last row.
    pub fn new_entry_dialog(&mut self, idx: usize, is_dir: bool) -> (d: Option<Dialog>)
        ensures
            final(self).root == old(self).root,
            final(self).children == old(self).children,
            ({
                let rows = flatten_v(top(&*old(self)), 0);
                let (dir, label) = entry_place(rows[idx as int], old(self).root@);
                if idx >= rows.len() {
                    &&& d is None
                    &&& final(self).selected == old(self).selected
                } else {
                    &&& final(self).selected == idx
                    &&& d matches Some(dl) && {
                        &&& empty_input(dl)
                        &&& dl.title@ == new_title(is_dir)
                        &&& dl.message@ == "Name of the new "@ + kind_word(is_dir) + " in '"@ + label + "':"@
                        &&& creates_in(dl.action, dir, is_dir)
                    }
                }
            }),
    {
        let rows = self.visible_rows();
        if idx >= rows.len() {
            return None;
        }
        let row = &rows[idx];
        proof {
            assert(crate::filetree::row_view(rows@[idx as int]) == flatten_v(top(&*self), 0)[idx as int]);
        }
        let d = if row.is_dir {
            new_entry(copy_str(row.path.as_str()), row.name.as_str(), is_dir)
        } else {
            let dir = match parent(row.path.as_str()) {
                Some(p) => p,
                None => copy_str(self.root.as_str()),
            };
            let label = dir_label(dir.as_str(), self.root.as_str());
            new_entry(dir, label.as_str(), is_dir)
        };
        self.selected = idx;
        Some(d)
    }

    /// The name dialog for a new file or folder in the workspace root.
    pub fn new_root_entry_dialog(&self, is_dir: bool) -> (d: Dialog)
        ensures
            empty_input(d),
            d.title@ == new_title(is_dir),
            d.message@ == "Name of the new "@ + kind_word(is_dir) + " in the workspace root:"@,
            creates_in(d.action, self.root@, is_dir),
    {
        let mut message = String::from_str("Name of the new ");
        message.append(if is_dir { "folder" } else { "file" });
        message.append(" in the workspace root:");
        let title = String::from_str(if is_dir { "New Folder" } else { "New File" });
        let dir = copy_str(self.root.as_str());
        let action = if is_dir { DialogAction::NewFolder(dir) } else { DialogAction::NewFile(dir) };
        Dialog::input(title, message, String::new(), action)
    }

    /// The rename dialog for the row at `idx`, prefilled with its name; the
    /// row becomes the selection. `None` past the last row.
    pub fn rename_dialog(&mut self, idx: usize) -> (d: Option<Dialog>)
        ensures
            final(self).root == old(self).root,
            final(self).children == old(self).children,
            ({
                let rows = flatten_v(top(&*old(self)), 0);
                let row = rows[idx as int];
                if idx >= rows.len() {
                    &&& d is None
                    &&& final(self).selected == old(self).selected
                } else {
                    &&& final(self).selected == idx
                    &&& d matches Some(dl) && {
                        &&& dl.kind == DialogKind::Input
                        &&& dl.input@ == (row.name, row.name.len())
                        &&& dl.selected == 0
                        &&& dl.title@ == "Rename"@
                        &&& dl.message@ == "New name for '"@ + row.name + "':"@
                        &&& dl.action matches DialogAction::Rename(p) && p@ == row.path
                    }
                }
            }),
    {
        let rows = self.visible_rows();
        if idx >= rows.len() {
            return None;
        }
        let row = &rows[idx];
        proof {
            assert(crate::filetree::row_view(rows@[idx as int]) == flatten_v(top(&*self), 0)[idx as int]);
        }
        let mut message = String::from_str("New name for '");
        message.append(row.name.as_str());
        message.append("':");
        let d = Dialog::input(
            String::from_str("Rename"),
            message,
            copy_str(row.name.as_str()),
            DialogAction::Rename(copy_str(row.path.as_str())),
        );
        self.selected = idx;
        Some(d)
    }

    /// The delete confirmation for the row at `idx`; the row becomes the
    /// selection. `None` past the last row.
    pub fn delete_dialog(&mut self, idx: usize) -> (d: Option<Dialog>)
        ensures
            final(self).root == old(self).root,
            final(self).children == old(self).children,
            ({
                let rows = flatten_v(top(&*old(self)), 0);
                let row = rows[idx as int];
                if idx >= rows.len() {
                    &&& d is None
                    &&& final(self).selected == old(self).selected
                } else {
                    &&& final(self).selected == idx
                    &&& d matches Some(dl) && {
                        &&& dl.kind == DialogKind::Ask
                        &&& dl.selected == 0
                        &&& dl.title@ == "Delete"@
                        &&& dl.message@ == delete_question(row.name, row.is_dir)
                        &&& dl.action matches DialogAction::Delete(p) && p@ == row.path
                    }
                }
            }),
    {
        let rows = self.visible_rows();
        if idx >= rows.len() {
            return None;
        }
        let row = &rows[idx];
        proof {
            assert(crate::filetree::row_view(rows@[idx as int]) == flatten_v(top(&*self), 0)[idx as int]);
        }
        let mut message = String::from_str(if row.is_dir { "Folder '" } else { "File '" });
        message.append(row.name.as_str());
        message.append(
            if row.is_dir {
                "' and everything in it will be deleted. This cannot be undone. Are you sure?"
            } else {
                "' will be deleted. This cannot be undone. Are you sure?"
            },
        );
        let d = Dialog::ask(String::from_str("Delete"), message, DialogAction::Delete(copy_str(row.path.as_str())));
        self.selected = idx;
        Some(d)
    }
}

/// The delete confirmation's question.
pub open spec fn delete_question(name: Seq<char>, is_dir: bool) -> Seq<char> {
    if is_dir {
        "Folder '"@ + name + "' and everything in it will be deleted. This cannot be undone. Are you sure?"@
    } else {
        "File '"@ + name + "' will be deleted. This cannot be undone. Are you sure?"@
    }
}

/// What a key does while the context menu is open (it takes every key).
#[derive(Clone, Copy, Debug, PartialEq, Eq, Structural)]
pub enum MenuKey {
    /// Run this item (and close the menu).
    Run(MenuItem),
    /// Close the menu.
    Close,
    /// Moved the selection, or ignored the key.
    Handled,
}

/// The menu's items, top to bottom.
pub open spec fn menu_items() -> Seq<MenuItem> {
    seq![MenuItem::NewFile, MenuItem::NewFolder, MenuItem::Rename, MenuItem::Delete]
}

impl ContextMenu {
    /// Up/Down move the selection round the four items, Home/End jump to the
    /// ends, Enter runs the selected item and Esc closes the menu.
    pub fn handle_key(&mut self, key: KeyEvent) -> (r: MenuKey)
        requires
            old(self).selected < 4,
        ensures
            final(self).row == old(self).row,
            final(self).x == old(self).x,
            final(self).y == old(self).y,
            final(self).selected < 4,
            final(self).selected == match key.code {
                KeyCode::Up => if old(self).selected == 0 { 3 } else { (old(self).selected - 1) as usize },
                KeyCode::Down => if old(self).selected == 3 { 0 } else { (old(self).selected + 1) as usize },
                KeyCode::Home => 0,
                KeyCode::End => 3,
                _ => old(self).selected,
            },
            r == match key.code {
                KeyCode::Enter => MenuKey::Run(menu_items()[old(self).selected as int]),
                KeyCode::Esc => MenuKey::Close,
                _ => MenuKey::Handled,
            },
    {
        let last: usize = 3;
        match key.code {
            KeyCode::Up => {
                self.selected = if self.selected == 0 { last } else { self.selected - 1 };
                MenuKey::Handled
            },
            KeyCode::Down => {
                self.selected = if self.selected == last { 0 } else { self.selected + 1 };
                MenuKey::Handled
            },
            KeyCode::Home => {
                self.selected = 0;
                MenuKey::Handled
            },
            KeyCode::End => {
                self.selected = last;
                MenuKey::Handled
            },
            KeyCode::Enter => {
                let items = MenuItem::all();
                MenuKey::Run(items[self.selected])
            },
            KeyCode::Esc => MenuKey::Close,
            _ => MenuKey::Handled,
        }
    }
}

impl FileTree {
    /// Right-click on row `idx` at (x, y): the row is selected and the menu
    /// opens one cell right of and below the click.
    pub fn open_menu(&mut self, idx: usize, x: u16, y: u16) -> (m: ContextMenu)
        requires
            x < u16::MAX,
            y < u16::MAX,
        ensures
            final(self).root == old(self).root,
            final(self).children == old(self).children,
            final(self).selected == idx,
            m.row == idx && m.selected == 0 && m.x == x + 1 && m.y == y + 1,
    {
        self.selected = idx;
        ContextMenu::new(idx, x + 1, y + 1)
    }

    /// The dialog a context-menu item opens for row `row`.
    pub fn menu_dialog(&mut self, row: usize, item: MenuItem) -> (d: Option<Dialog>)
        ensures
            final(self).root == old(self).root,
            final(self).children == old(self).children,
            ({
                let rows = flatten_v(top(&*old(self)), 0);
                row >= rows.len() ==> d is None && final(self).selected == old(self).selected
            }),
            ({
                let rows = flatten_v(top(&*old(self)), 0);
                row < rows.len() ==> final(self).selected == row && d is Some && match item {
                    MenuItem::NewFile => d.unwrap().kind == DialogKind::Input && creates_in(d.unwrap().action, entry_place(rows[row as int], old(self).root@).0, false),
                    MenuItem::NewFolder => d.unwrap().kind == DialogKind::Input && creates_in(d.unwrap().action, entry_place(rows[row as int], old(self).root@).0, true),
                    MenuItem::Rename => d.unwrap().kind == DialogKind::Input && (d.unwrap().action matches DialogAction::Rename(p) && p@ == rows[row as int].path),
                    MenuItem::Delete => d.unwrap().kind == DialogKind::Ask && (d.unwrap().action matches DialogAction::Delete(p) && p@ == rows[row as int].path),
                }
            }),
    {
        match item {
            MenuItem::NewFile => self.new_entry_dialog(row, false),
            MenuItem::NewFolder => self.new_entry_dialog(row, true),
            MenuItem::Rename => self.rename_dialog(row),
            MenuItem::Delete => self.delete_dialog(row),
        }
    }
}

} // verus!
