use coder::filetree::FileTree;
use coder::model::{DialogAction, DialogKind};
use coder::keys::{KeyCode, KeyEvent};
use coder::model::MenuItem;
use coder::tree_actions::{MenuKey, RowAction};

fn tree() -> FileTree {
    let mut t = FileTree::new("/w".to_string());
    t.set_children("/w", vec![("/w/src".to_string(), true), ("/w/main.rs".to_string(), false)]);
    t
}

#[test]
fn enter_scans_expands_collapses_or_opens() {
    let mut t = tree();
    t.selected = 0;
    assert_eq!(t.activate_selected(), RowAction::Scan("/w/src".to_string()));
    // A scan opens the directory.
    t.set_children("/w/src", vec![("/w/src/lib.rs".to_string(), false)]);
    assert!(t.is_expanded("/w/src"));
    assert_eq!(t.visible_rows().len(), 3);
    assert_eq!(t.activate_selected(), RowAction::Collapsed("/w/src".to_string()));
    assert!(!t.is_expanded("/w/src"));
    assert_eq!(t.visible_rows().len(), 2);
    assert_eq!(t.activate_selected(), RowAction::Expanded("/w/src".to_string()));
    assert!(t.is_expanded("/w/src"));
    t.selected = 1;
    assert_eq!(t.activate_selected(), RowAction::Open("/w/src/lib.rs".to_string()));
    t.selected = 2;
    assert_eq!(t.activate_selected(), RowAction::Open("/w/main.rs".to_string()));
    t.selected = 9;
    assert_eq!(t.activate_selected(), RowAction::Nothing);
}

#[test]
fn new_entries_go_inside_a_directory_or_next_to_a_file() {
    let mut t = tree();
    let d = t.new_entry_dialog(0, false).unwrap();
    assert_eq!(t.selected, 0);
    assert!(d.kind == DialogKind::Input);
    assert_eq!(d.title, "New File");
    assert_eq!(d.message, "Name of the new file in 'src':");
    assert!(matches!(d.action, DialogAction::NewFile(ref p) if p == "/w/src"));
    let d = t.new_entry_dialog(1, true).unwrap();
    assert_eq!(t.selected, 1);
    assert_eq!(d.title, "New Folder");
    assert_eq!(d.message, "Name of the new folder in 'workspace':");
    assert!(matches!(d.action, DialogAction::NewFolder(ref p) if p == "/w"));
    assert!(t.new_entry_dialog(5, true).is_none());
    assert_eq!(t.selected, 1);
    let r = t.new_root_entry_dialog(true);
    assert_eq!(r.message, "Name of the new folder in the workspace root:");
    assert!(matches!(r.action, DialogAction::NewFolder(ref p) if p == "/w"));
}

#[test]
fn rename_and_delete_dialogs_name_the_row() {
    let mut t = tree();
    let d = t.rename_dialog(1).unwrap();
    assert_eq!(d.title, "Rename");
    assert_eq!(d.message, "New name for 'main.rs':");
    assert_eq!(d.input.content(), "main.rs");
    assert!(matches!(d.action, DialogAction::Rename(ref p) if p == "/w/main.rs"));
    let d = t.delete_dialog(0).unwrap();
    assert!(d.kind == DialogKind::Ask);
    assert_eq!(
        d.message,
        "Folder 'src' and everything in it will be deleted. This cannot be undone. Are you sure?"
    );
    let d = t.delete_dialog(1).unwrap();
    assert_eq!(d.message, "File 'main.rs' will be deleted. This cannot be undone. Are you sure?");
    assert!(t.delete_dialog(2).is_none());
}

#[test]
fn context_menu_keys_wrap_and_run_items() {
    let mut t = tree();
    let mut m = t.open_menu(1, 10, 4);
    assert_eq!(t.selected, 1);
    assert_eq!((m.row, m.selected, m.x, m.y), (1, 0, 11, 5));
    let k = |c| KeyEvent::new(c, false, false, false);
    assert_eq!(m.handle_key(k(KeyCode::Up)), MenuKey::Handled);
    assert_eq!(m.selected, 3);
    assert_eq!(m.handle_key(k(KeyCode::Down)), MenuKey::Handled);
    assert_eq!(m.selected, 0);
    assert_eq!(m.handle_key(k(KeyCode::End)), MenuKey::Handled);
    assert_eq!(m.handle_key(k(KeyCode::Enter)), MenuKey::Run(MenuItem::Delete));
    assert_eq!(m.handle_key(k(KeyCode::Home)), MenuKey::Handled);
    assert_eq!(m.handle_key(k(KeyCode::Down)), MenuKey::Handled);
    assert_eq!(m.handle_key(k(KeyCode::Enter)), MenuKey::Run(MenuItem::NewFolder));
    assert_eq!(m.handle_key(k(KeyCode::Char('x'))), MenuKey::Handled);
    assert_eq!(m.handle_key(k(KeyCode::Esc)), MenuKey::Close);
    let d = t.menu_dialog(1, MenuItem::Rename).unwrap();
    assert!(matches!(d.action, DialogAction::Rename(ref p) if p == "/w/main.rs"));
    assert!(t.menu_dialog(7, MenuItem::Delete).is_none());
}
