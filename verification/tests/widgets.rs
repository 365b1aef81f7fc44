use coder::buffer::Buffer;
use coder::find_bar::{find_hit, find_layout, FindHit};
use coder::model::{FindState, Tab};
use coder::tab_bar::{tab_at, TabHit};
use coder::ui::Rect;

const EDITOR: Rect = Rect { x: 0, y: 1, width: 80, height: 20 };

fn open_find(replace_mode: bool) -> FindState {
    let mut f = FindState::default();
    f.open = true;
    f.replace_mode = replace_mode;
    f
}

#[test]
fn find_widget_sits_top_right() {
    assert!(find_layout(&FindState::default(), EDITOR).is_none());
    let l = find_layout(&open_find(false), EDITOR).unwrap();
    assert_eq!(l.area, Rect { x: 34, y: 1, width: 46, height: 3 });
    assert_eq!(l.find_y, 2);
    assert_eq!(l.replace_y, None);
    assert_eq!((l.prev_x, l.next_x, l.close_x), (74, 76, 78));
    assert_eq!(l.count, Rect { x: 70, y: 2, width: 3, height: 1 });
    assert_eq!(l.query, Rect { x: 35, y: 2, width: 34, height: 1 });
    assert_eq!(l.replace_btn, (55, 64));
    assert_eq!(l.replace_all_btn, (66, 79));
    let r = find_layout(&open_find(true), EDITOR).unwrap();
    assert_eq!(r.area.height, 5);
    assert_eq!(r.replace_y, Some(4));
    assert_eq!(r.replace, Rect { x: 35, y: 4, width: 19, height: 1 });
    // Too narrow: no room for the widget.
    assert!(find_layout(&open_find(false), Rect { x: 0, y: 0, width: 26, height: 10 }).is_none());
}

#[test]
fn find_widget_clicks() {
    let f = open_find(false);
    assert_eq!(find_hit(&f, EDITOR, 78, 2), Some(FindHit::Close));
    assert_eq!(find_hit(&f, EDITOR, 76, 2), Some(FindHit::Next));
    assert_eq!(find_hit(&f, EDITOR, 74, 2), Some(FindHit::Prev));
    assert_eq!(find_hit(&f, EDITOR, 40, 2), Some(FindHit::QueryField));
    assert_eq!(find_hit(&f, EDITOR, 40, 1), Some(FindHit::QueryField));
    assert_eq!(find_hit(&f, EDITOR, 33, 2), None);
    assert_eq!(find_hit(&f, EDITOR, 40, 4), None);
    let r = open_find(true);
    assert_eq!(find_hit(&r, EDITOR, 56, 4), Some(FindHit::ReplaceOne));
    assert_eq!(find_hit(&r, EDITOR, 70, 4), Some(FindHit::ReplaceAll));
    assert_eq!(find_hit(&r, EDITOR, 65, 4), Some(FindHit::ReplaceField));
    assert_eq!(find_hit(&r, EDITOR, 40, 4), Some(FindHit::ReplaceField));
}

#[test]
fn tab_bar_clicks_select_or_close() {
    let tabs = vec![
        Tab::new(Buffer::new(Some("/w/a.rs".to_string()), "")),
        Tab::new(Buffer::new(Some("/w/main.rs".to_string()), "")),
    ];
    let bar = Rect { x: 0, y: 0, width: 80, height: 1 };
    assert_eq!(tab_at(&tabs, bar, 0), Some(TabHit::Select(0)));
    assert_eq!(tab_at(&tabs, bar, 7), Some(TabHit::Select(0)));
    assert_eq!(tab_at(&tabs, bar, 8), Some(TabHit::Close(0)));
    assert_eq!(tab_at(&tabs, bar, 9), Some(TabHit::Close(0)));
    assert_eq!(tab_at(&tabs, bar, 10), Some(TabHit::Select(0)));
    assert_eq!(tab_at(&tabs, bar, 11), Some(TabHit::Select(1)));
    assert_eq!(tab_at(&tabs, bar, 22), Some(TabHit::Close(1)));
    assert_eq!(tab_at(&tabs, bar, 23), Some(TabHit::Close(1)));
    assert_eq!(tab_at(&tabs, bar, 24), Some(TabHit::Select(1)));
    assert_eq!(tab_at(&tabs, bar, 25), None);
    assert_eq!(tab_at(&Vec::new(), bar, 0), None);
}
