use coder::keys::{KeyCode, KeyEvent};
use coder::model::{QuickbarItem, QuickbarState};
use coder::quickbar::QuickKey;

fn key(code: KeyCode) -> KeyEvent {
    KeyEvent::new(code, false, false, false)
}

fn labels(q: &QuickbarState) -> Vec<String> {
    q.items.iter().map(|i| i.label()).collect()
}

#[test]
fn listed_files_are_sorted_and_filtered_by_the_query() {
    let mut q = QuickbarState::new();
    q.files_listed(vec!["/w/src/z.rs".to_string(), "/w/b.rs".to_string(), "/w/src/a.rs".to_string()], "/w");
    assert!(q.files_loaded);
    assert_eq!(q.files, vec!["/w/b.rs".to_string(), "/w/src/a.rs".to_string(), "/w/src/z.rs".to_string()]);
    for c in "src/".chars() {
        assert!(matches!(q.handle_key(key(KeyCode::Char(c)), "/w"), QuickKey::Handled));
    }
    assert_eq!(labels(&q), vec!["src/a.rs".to_string(), "src/z.rs".to_string()]);
    assert!(matches!(q.handle_key(key(KeyCode::Left), "/w"), QuickKey::Handled));
    assert_eq!(q.input.cursor(), 3);
}

#[test]
fn arrows_enter_and_escape() {
    let mut q = QuickbarState::new();
    q.files_listed(vec!["/w/a.rs".to_string(), "/w/b.rs".to_string()], "/w");
    q.paste("\n.rs", "/w");
    assert_eq!(q.input.content(), " .rs");
    assert_eq!(labels(&q), vec!["a.rs".to_string(), "b.rs".to_string()]);
    assert!(matches!(q.handle_key(key(KeyCode::Down), "/w"), QuickKey::Handled));
    assert_eq!(q.selected, 1);
    assert!(matches!(q.handle_key(key(KeyCode::Down), "/w"), QuickKey::Handled));
    assert_eq!(q.selected, 1);
    match q.handle_key(key(KeyCode::Enter), "/w") {
        QuickKey::Execute(QuickbarItem::File { path, rel }) => {
            assert_eq!(path, "/w/b.rs");
            assert_eq!(rel, "b.rs");
        }
        _ => panic!("Enter runs the highlighted file"),
    }
    assert!(matches!(q.handle_key(key(KeyCode::Up), "/w"), QuickKey::Handled));
    assert_eq!(q.selected, 0);
    assert!(matches!(q.handle_key(key(KeyCode::Esc), "/w"), QuickKey::Close));
    assert!(matches!(q.handle_key(KeyEvent::new(KeyCode::Char('q'), true, false, false), "/w"), QuickKey::Fallback));
    // Nothing matches: Enter has nothing to run.
    q.paste("zzz", "/w");
    assert!(q.items.is_empty());
    assert!(matches!(q.handle_key(key(KeyCode::Enter), "/w"), QuickKey::Handled));
}
