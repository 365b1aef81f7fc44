//! Geometry of the in-editor find / replace widget, which floats over the
//! top-right of the editor:
//!
//! ```text
//! [ query...................  1/3  < > x ]
//! [ replace................ Replace  Replace All ]   (replace mode only)
//! ```
//! Drawing and hit-testing share one layout, so they agree.
use vstd::prelude::*;

use crate::model::{count_label_of, FindState};
use crate::num::lemma_dec_len_u64;
use crate::ui::{sat_sub, Rect};

verus! {

/// Target of a mouse click inside the find widget.
#[derive(Clone, Copy, Debug, PartialEq, Eq, Structural)]
pub enum FindHit {
    QueryField,
    ReplaceField,
    Prev,
    Next,
    Close,
    ReplaceOne,
    ReplaceAll,
}

/// Geometry of the find widget (absolute coordinates).
#[derive(Clone, Copy, Debug)]
pub struct FindLayout {
    pub area: Rect,
    pub find_y: u16,
    pub replace_y: Option<u16>,
    /// Query input cells.
    pub query: Rect,
    /// The match count text (e.g. "1/3").
    pub count: Rect,
    pub prev_x: u16,
    pub next_x: u16,
    pub close_x: u16,
    /// Replace input cells (replace mode).
    pub replace: Rect,
    /// "Replace" button columns [start, end).
    pub replace_btn: (u16, u16),
    /// "Replace All" button columns [start, end).
    pub replace_all_btn: (u16, u16),
}

/// Widest the widget gets.
pub const TARGET_WIDTH: u16 = 46;

pub open spec fn max1(a: int) -> int {
    if a >= 1 { a } else { 1 }
}

/// The widget's layout in `editor`, for a count text of `cnt` characters;
/// `None` when it is closed or there is no room (fewer than 26 columns).
pub open spec fn find_layout_of(open: bool, replace_mode: bool, cnt: int, editor: Rect) -> Option<FindLayout> {
    let outer_w = if TARGET_WIDTH <= sat_sub(editor.width as int, 1) { TARGET_WIDTH as int } else { sat_sub(editor.width as int, 1) };
    if !open || editor.height == 0 || outer_w < 26 {
        None
    } else {
        let cw = outer_w - 2;
        let rows: int = if replace_mode { 3 } else { 1 };
        let ax = editor.x + editor.width - outer_w;
        let ix = ax + 1;
        let find_y = editor.y + 1;
        let count_start = sat_sub(cw - 6, cnt);
        let ral_start = sat_sub(cw, 13);
        let rep_end = sat_sub(ral_start, 2);
        let rep_start = sat_sub(rep_end, 9);
        let replace_row_y = find_y + 2;
        Some(FindLayout {
            area: Rect { x: ax as u16, y: editor.y, width: outer_w as u16, height: (rows + 2) as u16 },
            find_y: find_y as u16,
            replace_y: if replace_mode { Some(replace_row_y as u16) } else { None },
            query: Rect { x: ix as u16, y: find_y as u16, width: max1(sat_sub(count_start, 1)) as u16, height: 1 },
            count: Rect { x: (ix + count_start) as u16, y: find_y as u16, width: cnt as u16, height: 1 },
            prev_x: (ix + cw - 5) as u16,
            next_x: (ix + cw - 3) as u16,
            close_x: (ix + cw - 1) as u16,
            replace: Rect { x: ix as u16, y: replace_row_y as u16, width: max1(sat_sub(rep_start, 1)) as u16, height: 1 },
            replace_btn: ((ix + rep_start) as u16, (ix + rep_end) as u16),
            replace_all_btn: ((ix + ral_start) as u16, (ix + cw) as u16),
        })
    }
}

/// The widget's layout for the find state.
pub open spec fn layout_for(find: FindState, editor: Rect) -> Option<FindLayout> {
    find_layout_of(find.open, find.replace_mode, count_label_of(find.current, find.matches@.len()).len() as int, editor)
}

/// Computes the widget layout, or `None` when closed or without room.
pub fn find_layout(find: &FindState, editor: Rect) -> (l: Option<FindLayout>)
    requires
        editor.x + editor.width <= u16::MAX,
        editor.y + 5 <= u16::MAX,
        find.current matches Some(i) ==> i < usize::MAX,
    ensures
        l == layout_for(*find, editor),
{
    if !find.open || editor.height == 0 {
        return None;
    }
    let avail: u16 = if editor.width > 1 { editor.width - 1 } else { 0 };
    let outer_w: u16 = if TARGET_WIDTH <= avail { TARGET_WIDTH } else { avail };
    if outer_w < 26 {
        return None;
    }
    let cw = outer_w - 2;
    let rows: u16 = if find.replace_mode { 3 } else { 1 };
    let ax = editor.x + editor.width - outer_w;
    let ix = ax + 1;
    let find_y = editor.y + 1;
    let label = find.count_label();
    let cnt_len = label.as_str().unicode_len();
    let total = find.matches.len();
    proof {
        let cur: nat = match find.current {
            Some(i) => (i + 1) as nat,
            None => 0,
        };
        lemma_dec_len_u64(cur);
        lemma_dec_len_u64(total as nat);
        assert(cnt_len as int == count_label_of(find.current, find.matches@.len()).len());
        reveal_strlit("/");
        assert(cnt_len <= 41);
    }
    let cnt = cnt_len as u16;
    let count_end = cw - 6;
    let count_start: u16 = if count_end > cnt { count_end - cnt } else { 0 };
    let ral_start: u16 = if cw > 13 { cw - 13 } else { 0 };
    let rep_end: u16 = if ral_start > 2 { ral_start - 2 } else { 0 };
    let rep_start: u16 = if rep_end > 9 { rep_end - 9 } else { 0 };
    let replace_row_y = find_y + 2;
    let qw: u16 = if count_start > 1 { count_start - 1 } else { 0 };
    let rw: u16 = if rep_start > 1 { rep_start - 1 } else { 0 };
    Some(FindLayout {
        area: Rect { x: ax, y: editor.y, width: outer_w, height: rows + 2 },
        find_y,
        replace_y: if find.replace_mode { Some(replace_row_y) } else { None },
        query: Rect { x: ix, y: find_y, width: if qw >= 1 { qw } else { 1 }, height: 1 },
        count: Rect { x: ix + count_start, y: find_y, width: cnt, height: 1 },
        prev_x: ix + cw - 5,
        next_x: ix + cw - 3,
        close_x: ix + cw - 1,
        replace: Rect { x: ix, y: replace_row_y, width: if rw >= 1 { rw } else { 1 }, height: 1 },
        replace_btn: (ix + rep_start, ix + rep_end),
        replace_all_btn: (ix + ral_start, ix + cw),
    })
}

/// What a click at (x, y) hits in a laid-out widget.
pub open spec fn find_hit_of(l: FindLayout, x: int, y: int) -> Option<FindHit> {
    if x < l.area.x || x >= l.area.x + l.area.width || y < l.area.y || y >= l.area.y + l.area.height {
        None
    } else if y == l.find_y {
        if x == l.close_x {
            Some(FindHit::Close)
        } else if x == l.next_x {
            Some(FindHit::Next)
        } else if x == l.prev_x {
            Some(FindHit::Prev)
        } else {
            Some(FindHit::QueryField)
        }
    } else if l.replace_y == Some(y as u16) {
        if l.replace_btn.0 <= x < l.replace_btn.1 {
            Some(FindHit::ReplaceOne)
        } else if l.replace_all_btn.0 <= x < l.replace_all_btn.1 {
            Some(FindHit::ReplaceAll)
        } else {
            Some(FindHit::ReplaceField)
        }
    } else {
        Some(FindHit::QueryField)
    }
}

/// Maps a mouse click to a widget target, or `None` outside the widget.
pub fn find_hit(find: &FindState, editor: Rect, x: u16, y: u16) -> (h: Option<FindHit>)
    requires
        editor.x + editor.width <= u16::MAX,
        editor.y + 5 <= u16::MAX,
        find.current matches Some(i) ==> i < usize::MAX,
    ensures
        h == match layout_for(*find, editor) {
            Some(l) => find_hit_of(l, x as int, y as int),
            None => None,
        },
{
    let l = match find_layout(find, editor) {
        Some(l) => l,
        None => return None,
    };
    if x < l.area.x || x - l.area.x >= l.area.width || y < l.area.y || y - l.area.y >= l.area.height {
        return None;
    }
    if y == l.find_y {
        if x == l.close_x {
            return Some(FindHit::Close);
        }
        if x == l.next_x {
            return Some(FindHit::Next);
        }
        if x == l.prev_x {
            return Some(FindHit::Prev);
        }
        return Some(FindHit::QueryField);
    }
    if l.replace_y == Some(y) {
        let (rs, re) = l.replace_btn;
        let (as_, ae) = l.replace_all_btn;
        if x >= rs && x < re {
            return Some(FindHit::ReplaceOne);
        }
        if x >= as_ && x < ae {
            return Some(FindHit::ReplaceAll);
        }
        return Some(FindHit::ReplaceField);
    }
    Some(FindHit::QueryField)
}

} // verus!
