use coder::model::LayoutState;
use coder::screen::{compute_areas, gutter_width};
use coder::ui::Rect;

fn r(x: u16, y: u16, width: u16, height: u16) -> Rect {
    Rect { x, y, width, height }
}

#[test]
fn gutter_fits_the_largest_line_number() {
    assert_eq!(gutter_width(9, false), 4);
    assert_eq!(gutter_width(120, false), 5);
    assert_eq!(gutter_width(120, true), 6);
    assert_eq!(gutter_width(123_456, true), 9);
}

#[test]
fn default_layout_regions() {
    let l = LayoutState::default();
    let a = compute_areas(&l, 6, r(0, 0, 100, 30));
    assert_eq!(a.statusbar, r(0, 29, 100, 1));
    assert_eq!(a.activity, r(0, 0, 4, 29));
    assert_eq!(a.sidebar, r(4, 0, 30, 29));
    assert!(a.sidebar_open);
    assert_eq!(a.sidebar_border_x, 34);
    assert_eq!(a.tabs, r(34, 0, 66, 1));
    assert_eq!(a.editor, r(34, 1, 65, 28));
    assert_eq!(a.scrollbar, r(99, 1, 1, 28));
    assert_eq!(a.terminal.height, 0);
    assert_eq!(a.editor_text_x, 40);
    assert_eq!(a.gutter_w, 6);
}

#[test]
fn terminal_and_collapsed_sidebar() {
    let mut l = LayoutState::default();
    l.sidebar_open = false;
    l.terminal_open = true;
    let a = compute_areas(&l, 5, r(0, 0, 100, 30));
    assert_eq!(a.sidebar.width, 0);
    assert_eq!(a.tabs, r(4, 0, 96, 1));
    assert_eq!(a.terminal, r(4, 17, 96, 12));
    assert_eq!(a.terminal_border_y, 17);
    assert_eq!(a.editor, r(4, 1, 95, 16));
    // A very short screen still leaves the editor a row.
    let a = compute_areas(&l, 5, r(0, 0, 100, 6));
    assert_eq!(a.terminal.height, 2);
    // No room for a scrollbar next to a wide gutter.
    let narrow = compute_areas(&l, 9, r(0, 0, 13, 10));
    assert_eq!(narrow.scrollbar.width, 0);
    assert_eq!(narrow.editor.width, 9);
}

#[test]
fn editor_viewport_leaves_out_the_gutter() {
    let l = LayoutState::default();
    assert_eq!(coder::screen::editor_viewport(&l, 6, 100, 30), (28, 59));
}
