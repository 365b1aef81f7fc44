use coder::model::{ContextMenu, Dialog, DialogAction, MenuItem, Panel, QuickbarItem, QuickbarState};
use coder::ui::{
    action_at_col, action_segments, header_rows, hit, hit_on, inner_width, layout, menu_hit,
    menu_rect, panel_at, quickbar_area, search_hit, settings_row_at, two_button_hit, GitAction, Rect,
    Row, SearchHit, LIST_OFFSET,
};

const TERM: Rect = Rect { x: 0, y: 0, width: 80, height: 24 };

#[test]
fn header_is_compact_without_replace_mode() {
    let off = header_rows(false);
    let on = header_rows(true);
    assert!(!off.contains(&Row::ReplaceInput));
    assert!(!off.contains(&Row::ReplaceButtons));
    assert!(on.contains(&Row::ReplaceInput));
    assert!(on.contains(&Row::ReplaceButtons));
    assert!(on.len() > off.len(), "replace mode adds rows, never removes any");
}

#[test]
fn every_row_kind_appears_exactly_once_per_mode() {
    for replace_mode in [false, true] {
        let rows = header_rows(replace_mode);
        for kind in [Row::Query, Row::ReplaceToggle, Row::Regex, Row::MatchCase, Row::SearchHidden, Row::Count] {
            assert_eq!(rows.iter().filter(|r| **r == kind).count(), 1, "mode={replace_mode}");
        }
    }
}

#[test]
fn search_clicks_map_to_header_rows_and_results() {
    let side = Rect { x: 0, y: 0, width: 30, height: 40 };
    // body starts at (1, 3)
    assert_eq!(search_hit(side, false, 0, 10, 5, 3), Some(SearchHit::QueryField));
    assert_eq!(search_hit(side, false, 0, 10, 5, 4), None);
    assert_eq!(search_hit(side, false, 0, 10, 5, 5), Some(SearchHit::ReplaceModeToggle));
    assert_eq!(search_hit(side, true, 0, 10, 2, 9), Some(SearchHit::ReplaceOne));
    assert_eq!(search_hit(side, true, 0, 10, 28, 9), Some(SearchHit::ReplaceAll));
    assert_eq!(search_hit(side, true, 0, 10, 14, 9), None);
    // compact header: 8 rows, results from y = 11, two rows each
    assert_eq!(search_hit(side, false, 0, 10, 5, 11), Some(SearchHit::Result(0)));
    assert_eq!(search_hit(side, false, 0, 10, 5, 14), Some(SearchHit::Result(1)));
    assert_eq!(search_hit(side, false, 0, 1, 5, 14), None);
    assert_eq!(two_button_hit(1, 28, 0), None);
}

#[test]
fn git_action_row_splits_in_three() {
    assert_eq!(action_segments(4), (4, 0, 0));
    assert_eq!(action_segments(29), (9, 9, 9));
    let area = Rect { x: 10, y: 0, width: 29, height: 1 };
    assert_eq!(action_at_col(area, 10), Some(GitAction::Fetch));
    assert_eq!(action_at_col(area, 19), None);
    assert_eq!(action_at_col(area, 20), Some(GitAction::Pull));
    assert_eq!(action_at_col(area, 29), None);
    assert_eq!(action_at_col(area, 30), Some(GitAction::Push));
    assert_eq!(action_at_col(area, 9), None);
}

#[test]
fn dialog_buttons_and_clicks() {
    let d = Dialog::ask("t".to_string(), "m".to_string(), DialogAction::ResetConfig);
    let l = layout(&d, TERM);
    assert_eq!(l.area, Rect { x: 13, y: 8, width: 54, height: 8 });
    let cancel = l.cancel.unwrap();
    assert_eq!(cancel, Rect { x: 61, y: 14, width: 4, height: 1 });
    assert_eq!(l.confirm, Rect { x: 55, y: 14, width: 5, height: 1 });
    assert_eq!(hit(&d, TERM, 56, 14), Some(true));
    assert_eq!(hit(&d, TERM, 62, 14), Some(false));
    assert_eq!(hit(&d, TERM, 60, 14), None);
    let i = Dialog::input("t".to_string(), "m".to_string(), String::new(), DialogAction::ResetConfig);
    let li = layout(&i, TERM);
    assert_eq!(li.input, Some(Rect { x: 15, y: 12, width: 50, height: 1 }));
}

#[test]
fn menu_stays_on_screen_when_opened_at_the_edge() {
    let m = ContextMenu::new(0, 78, 23);
    let r = menu_rect(&m, TERM);
    assert!(r.x + r.width <= TERM.width);
    assert!(r.y + r.height <= TERM.height);
}

#[test]
fn clicks_map_to_items_and_miss_on_the_border() {
    let m = ContextMenu::new(0, 10, 5);
    let r = menu_rect(&m, TERM);
    assert_eq!(menu_hit(&m, TERM, r.x + 1, r.y + 1), Some(MenuItem::NewFile));
    assert_eq!(menu_hit(&m, TERM, r.x + 1, r.y + 4), Some(MenuItem::Delete));
    assert_eq!(menu_hit(&m, TERM, r.x + 1, r.y), None);
    assert_eq!(menu_hit(&m, TERM, r.x + 1, r.y + r.height - 1), None);
    assert_eq!(menu_hit(&m, TERM, r.x + r.width + 2, r.y + 1), None);
    assert_eq!(inner_width(), 25);
}

fn qb() -> QuickbarState {
    let mut s = QuickbarState::new();
    s.items = vec![
        QuickbarItem::Panel(Panel::Files),
        QuickbarItem::NewFile,
        QuickbarItem::NewFolder,
        QuickbarItem::File { path: "a.rs".into(), rel: "a.rs".into() },
    ];
    s
}

#[test]
fn popup_fits_inside_the_terminal() {
    let a = quickbar_area(TERM);
    assert!(a.x + a.width <= TERM.width);
    assert!(a.y + a.height <= TERM.height);
}

#[test]
fn clicks_map_to_rows_and_miss_on_border_input_and_outside() {
    let s = qb();
    let a = quickbar_area(TERM);
    assert_eq!(hit_on(&s, TERM, a.x + 1, a.y + LIST_OFFSET), Some(0));
    assert_eq!(hit_on(&s, TERM, a.x + 1, a.y + LIST_OFFSET + 3), Some(3));
    assert_eq!(hit_on(&s, TERM, a.x + 1, a.y), None);
    assert_eq!(hit_on(&s, TERM, a.x + 1, a.y + 1), None);
    assert_eq!(hit_on(&s, TERM, a.x + a.width + 5, a.y + LIST_OFFSET), None);
}

#[test]
fn settings_rows_skip_the_spacer() {
    let side = Rect { x: 0, y: 0, width: 30, height: 20 };
    assert_eq!(settings_row_at(side, 2), None);
    assert_eq!(settings_row_at(side, 3), Some(0));
    assert_eq!(settings_row_at(side, 6), None);
    assert_eq!(settings_row_at(side, 8), Some(4));
    assert_eq!(settings_row_at(side, 9), None);
}

#[test]
fn activity_bar_rows() {
    let bar = Rect { x: 0, y: 1, width: 4, height: 20 };
    assert_eq!(panel_at(bar, 1), None);
    assert_eq!(panel_at(bar, 2), Some(Panel::Files));
    assert_eq!(panel_at(bar, 5), Some(Panel::Search));
    assert_eq!(panel_at(bar, 13), Some(Panel::Settings));
    assert_eq!(panel_at(bar, 14), None);
}
