use coder::filetree::FileTree;

fn dir(p: &str) -> (String, bool) {
    (p.to_string(), true)
}
fn file(p: &str) -> (String, bool) {
    (p.to_string(), false)
}

#[test]
fn rescan_preserves_expanded_subdir_and_shows_new_entry() {
    let mut t = FileTree::new("/root".to_string());
    t.set_children("/root", vec![dir("/root/sub")]);
    t.set_children("/root/sub", vec![file("/root/sub/a.rs")]);
    assert!(t.is_expanded("/root/sub"));
    t.set_children("/root", vec![dir("/root/sub"), file("/root/new.rs")]);
    assert!(t.is_expanded("/root/sub"));
    assert!(t.is_loaded("/root/sub"));
    let paths: Vec<String> = t.visible_rows().into_iter().map(|r| r.path).collect();
    assert!(paths.contains(&"/root/sub/a.rs".to_string()));
    assert!(paths.contains(&"/root/new.rs".to_string()));
}

#[test]
fn rescan_drops_removed_entry() {
    let mut t = FileTree::new("/root".to_string());
    t.set_children("/root", vec![file("/root/gone.rs")]);
    t.set_children("/root", vec![]);
    assert!(t.visible_rows().is_empty());
}

#[test]
fn collapse_hides_children_and_expand_shows_them() {
    let mut t = FileTree::new("/r".to_string());
    t.set_children("/r", vec![dir("/r/d"), file("/r/f")]);
    t.set_children("/r/d", vec![file("/r/d/x")]);
    assert_eq!(t.visible_rows().len(), 3);
    t.collapse("/r/d");
    assert!(!t.is_expanded("/r/d"));
    assert_eq!(t.visible_rows().len(), 2);
    t.expand("/r/d");
    assert!(t.is_expanded("/r/d"));
    let rows = t.visible_rows();
    assert_eq!(rows.len(), 3);
    assert_eq!(rows[1].path, "/r/d/x");
    assert_eq!(rows[1].depth, 1);
}
