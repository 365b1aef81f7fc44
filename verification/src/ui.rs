//! Screen geometry: where the widgets of the sidebar panels, dialogs, menus,
//! the find widget, the quickbar and the tab bar sit, and what a click at a
//! cell lands on.
use vstd::prelude::*;

use crate::layout::list_scroll;
use crate::model::{ContextMenu, Dialog, DialogKind, FindState, MenuItem, Panel, QuickbarState, Tab};
use crate::text::chars_of;

verus! {

/// A rectangle of terminal cells.
#[derive(Clone, Copy, Debug, PartialEq, Eq, Structural)]
pub struct Rect {
    pub x: u16,
    pub y: u16,
    pub width: u16,
    pub height: u16,
}

/// Whether the rectangle's right and bottom edges are on the coordinate range.
pub open spec fn fits(r: Rect) -> bool {
    r.x + r.width <= u16::MAX && r.y + r.height <= u16::MAX
}

pub open spec fn sat_sub(a: int, b: int) -> int {
    if a > b { a - b } else { 0 }
}

pub open spec fn inside(r: Rect, x: int, y: int) -> bool {
    r.x <= x < r.x + r.width && r.y <= y < r.y + r.height
}

/// Whether a cell lies inside a rectangle.
pub fn rect_contains(r: Rect, x: u16, y: u16) -> (b: bool)
    requires
        fits(r),
    ensures
        b == inside(r, x as int, y as int),
{
    x >= r.x && x < r.x + r.width && y >= r.y && y < r.y + r.height
}

/// A rectangle inset by one cell on every side (the sidebar's inner padding).
pub fn content_rect(area: Rect) -> (r: Rect)
    requires
        area.x < u16::MAX,
        area.y < u16::MAX,
    ensures
        r == (Rect {
            x: (area.x + 1) as u16,
            y: (area.y + 1) as u16,
            width: sat_sub(area.width as int, 2) as u16,
            height: sat_sub(area.height as int, 2) as u16,
        }),
{
    Rect {
        x: area.x + 1,
        y: area.y + 1,
        width: if area.width > 2 { area.width - 2 } else { 0 },
        height: if area.height > 2 { area.height - 2 } else { 0 },
    }
}

/// Rows above a panel's body: the title row and the header-actions row.
pub const HEADER_ROWS: u16 = 2;

/// Where a sidebar panel's body is drawn: the inner area below the header rows.
pub fn panel_area(sidebar: Rect) -> (r: Rect)
    requires
        sidebar.x < u16::MAX,
        sidebar.y + 3 <= u16::MAX,
    ensures
        r == (Rect {
            x: (sidebar.x + 1) as u16,
            y: (sidebar.y + 3) as u16,
            width: sat_sub(sidebar.width as int, 2) as u16,
            height: sat_sub(sat_sub(sidebar.height as int, 2), 2) as u16,
        }),
{
    let inner = content_rect(sidebar);
    Rect {
        x: inner.x,
        y: inner.y + HEADER_ROWS,
        width: inner.width,
        height: if inner.height > HEADER_ROWS { inner.height - HEADER_ROWS } else { 0 },
    }
}

// ----- the search panel -----

/// One header row of the search panel, top to bottom.
#[derive(Clone, Copy, Debug, PartialEq, Eq, Structural)]
pub enum Row {
    Query,
    Blank,
    /// The "[ ] Replace" checkbox that shows/hides the replace rows.
    ReplaceToggle,
    ReplaceInput,
    ReplaceButtons,
    Regex,
    MatchCase,
    SearchHidden,
    Count,
}

pub open spec fn header_rows_of(replace_mode: bool) -> Seq<Row> {
    if replace_mode {
        seq![Row::Query, Row::Blank, Row::ReplaceToggle, Row::Blank, Row::ReplaceInput, Row::Blank,
            Row::ReplaceButtons, Row::Blank, Row::Regex, Row::MatchCase, Row::SearchHidden, Row::Count]
    } else {
        seq![Row::Query, Row::Blank, Row::ReplaceToggle, Row::Blank, Row::Regex, Row::MatchCase,
            Row::SearchHidden, Row::Count]
    }
}

/// The header rows for the current mode: the replace input and its buttons
/// only appear once "Replace" is toggled on.
pub fn header_rows(replace_mode: bool) -> (r: Vec<Row>)
    ensures
        r@ == header_rows_of(replace_mode),
{
    let mut rows = vec![Row::Query, Row::Blank, Row::ReplaceToggle];
    if replace_mode {
        rows.push(Row::Blank);
        rows.push(Row::ReplaceInput);
        rows.push(Row::Blank);
        rows.push(Row::ReplaceButtons);
    }
    rows.push(Row::Blank);
    rows.push(Row::Regex);
    rows.push(Row::MatchCase);
    rows.push(Row::SearchHidden);
    rows.push(Row::Count);
    assert(rows@ =~= header_rows_of(replace_mode));
    rows
}

/// Which half of a two-button row column `x` falls into: `Some(false)` left,
/// `Some(true)` right, `None` the one-column gap (or left of the row).
pub fn two_button_hit(area_x: u16, width: u16, x: u16) -> (r: Option<bool>)
    ensures
        r == (if x < area_x {
            None
        } else if x - area_x < sat_sub(width as int, 1) / 2 {
            Some(false)
        } else if x - area_x == sat_sub(width as int, 1) / 2 {
            None
        } else {
            Some(true)
        }),
{
    if x < area_x {
        return None;
    }
    let rel = x - area_x;
    let lw = (if width > 1 { width - 1 } else { 0 }) / 2;
    if rel < lw {
        Some(false)
    } else if rel == lw {
        None
    } else {
        Some(true)
    }
}

/// Target of a mouse click in the search panel.
#[derive(Clone, Copy, Debug, PartialEq, Eq, Structural)]
pub enum SearchHit {
    QueryField,
    ReplaceModeToggle,
    ReplaceField,
    RegexToggle,
    MatchCaseToggle,
    SearchHiddenToggle,
    ReplaceOne,
    ReplaceAll,
    Result(usize),
}

/// What a click on header row `row` of the search panel hits.
pub open spec fn row_hit(row: Row, body: Rect, x: u16) -> Option<SearchHit> {
    match row {
        Row::Query => Some(SearchHit::QueryField),
        Row::ReplaceToggle => Some(SearchHit::ReplaceModeToggle),
        Row::ReplaceInput => Some(SearchHit::ReplaceField),
        Row::ReplaceButtons => if x < body.x {
            None
        } else if x - body.x < sat_sub(body.width as int, 1) / 2 {
            Some(SearchHit::ReplaceOne)
        } else if x - body.x == sat_sub(body.width as int, 1) / 2 {
            None
        } else {
            Some(SearchHit::ReplaceAll)
        },
        Row::Regex => Some(SearchHit::RegexToggle),
        Row::MatchCase => Some(SearchHit::MatchCaseToggle),
        Row::SearchHidden => Some(SearchHit::SearchHiddenToggle),
        Row::Blank | Row::Count => None,
    }
}

/// What a click at (x, y) in the search panel of the sidebar `area` hits: a
/// header row, or a result (two rows each, in the scrolled list below).
pub open spec fn search_hit_of(area: Rect, replace_mode: bool, selected: usize, results: usize, x: u16, y: u16) -> Option<SearchHit> {
    let body = Rect {
        x: (area.x + 1) as u16,
        y: (area.y + 3) as u16,
        width: sat_sub(area.width as int, 2) as u16,
        height: sat_sub(sat_sub(area.height as int, 2), 2) as u16,
    };
    let rows = header_rows_of(replace_mode);
    if y < body.y {
        None
    } else if y - body.y < rows.len() {
        row_hit(rows[y - body.y], body, x)
    } else {
        let start = body.y + rows.len();
        let list_h = sat_sub(body.height as int, rows.len() as int);
        let per_page = if list_h / 2 > 1 { list_h / 2 } else { 1 };
        let offset = crate::layout::scroll_of(selected as int, results as int, per_page);
        let idx = offset + (y - start) / 2;
        if idx < results { Some(SearchHit::Result(idx as usize)) } else { None }
    }
}

/// Maps a click at (x, y) to a search-panel target; `area` is the sidebar.
pub fn search_hit(area: Rect, replace_mode: bool, selected: usize, results: usize, x: u16, y: u16) -> (r: Option<SearchHit>)
    requires
        area.x < u16::MAX,
        area.y + 3 + 12 <= u16::MAX,
    ensures
        r == search_hit_of(area, replace_mode, selected, results, x, y),
{
    let body = panel_area(area);
    let rows = header_rows(replace_mode);
    if y < body.y {
        return None;
    }
    let rel = (y - body.y) as usize;
    if rel < rows.len() {
        let row = rows[rel];
        return match row {
            Row::Query => Some(SearchHit::QueryField),
            Row::ReplaceToggle => Some(SearchHit::ReplaceModeToggle),
            Row::ReplaceInput => Some(SearchHit::ReplaceField),
            Row::ReplaceButtons => match two_button_hit(body.x, body.width, x) {
                Some(right) => if right { Some(SearchHit::ReplaceAll) } else { Some(SearchHit::ReplaceOne) },
                None => None,
            },
            Row::Regex => Some(SearchHit::RegexToggle),
            Row::MatchCase => Some(SearchHit::MatchCaseToggle),
            Row::SearchHidden => Some(SearchHit::SearchHiddenToggle),
            Row::Blank | Row::Count => None,
        };
    }
    let n = rows.len() as u16;
    let start = body.y + n;
    let list_h = (if body.height > n { body.height - n } else { 0 }) as usize;
    let per_page = if list_h / 2 > 1 { list_h / 2 } else { 1 };
    let offset = list_scroll(selected, results, per_page);
    match offset.checked_add(((y - start) / 2) as usize) {
        Some(idx) => if idx < results { Some(SearchHit::Result(idx)) } else { None },
        None => None,
    }
}

/// How many times `k` occurs in `s`.
pub open spec fn count_rows(s: Seq<Row>, k: Row) -> nat
    decreases s.len(),
{
    if s.len() == 0 {
        0
    } else {
        count_rows(s.drop_last(), k) + if s.last() == k { 1nat } else { 0nat }
    }
}

/// In either mode, every header row kind but the blank spacer occurs exactly
/// once (clicks and drawing both walk this list); the replace rows occur
/// exactly when replace mode is on, which only adds rows.
pub proof fn law_header_rows(replace_mode: bool, k: Row)
    ensures
        k != Row::Blank && k != Row::ReplaceInput && k != Row::ReplaceButtons ==> count_rows(header_rows_of(replace_mode), k) == 1,
        k == Row::ReplaceInput || k == Row::ReplaceButtons ==> count_rows(header_rows_of(replace_mode), k) == (if replace_mode { 1nat } else { 0nat }),
        header_rows_of(false).len() < header_rows_of(true).len(),
{
    reveal_with_fuel(count_rows, 13);
}

// ----- the git panel's action row -----

/// The three git action buttons, left to right.
#[derive(Clone, Copy, Debug, PartialEq, Eq, Structural)]
pub enum GitAction {
    Fetch,
    Pull,
    Push,
}

pub open spec fn segments_of(width: int) -> (int, int, int) {
    if width < 5 {
        (width, 0, 0)
    } else {
        let inner = width - 2;
        let seg = inner / 3;
        (seg, seg, inner - 2 * seg)
    }
}

/// Cell widths of the three action buttons, a one-column gap between them
/// (no gaps below five columns).
pub fn action_segments(width: usize) -> (r: (usize, usize, usize))
    ensures
        (r.0 as int, r.1 as int, r.2 as int) == segments_of(width as int),
{
    if width < 5 {
        return (width, 0, 0);
    }
    let inner = width - 2;
    let seg = inner / 3;
    (seg, seg, inner - 2 * seg)
}

/// Which action button covers column `x` of the row `area` (gaps map to `None`).
pub fn action_at_col(area: Rect, x: u16) -> (r: Option<GitAction>)
    ensures
        r == (if x < area.x {
            None
        } else {
            let rel = x - area.x;
            let (w0, w1, _) = segments_of(area.width as int);
            if rel < w0 {
                Some(GitAction::Fetch)
            } else if rel < w0 + 1 {
                None
            } else if rel < w0 + 1 + w1 {
                Some(GitAction::Pull)
            } else if rel < w0 + 2 + w1 {
                None
            } else {
                Some(GitAction::Push)
            }
        }),
{
    if x < area.x {
        return None;
    }
    let rel = (x - area.x) as usize;
    let (w0, w1, _) = action_segments(area.width as usize);
    if rel < w0 {
        Some(GitAction::Fetch)
    } else if rel < w0 + 1 {
        None
    } else if rel < w0 + 1 + w1 {
        Some(GitAction::Pull)
    } else if rel < w0 + 2 + w1 {
        None
    } else {
        Some(GitAction::Push)
    }
}

// ----- the modal dialog -----

/// The dialog's rectangles, shared by drawing and hit-testing.
#[derive(Clone, Copy, Debug, PartialEq, Eq, Structural)]
pub struct DialogLayout {
    pub area: Rect,
    pub message: Rect,
    pub input: Option<Rect>,
    pub confirm: Rect,
    pub cancel: Option<Rect>,
}

/// (confirm label, cancel label); no cancel for an information dialog.
pub fn button_labels(kind: DialogKind) -> (r: (&'static str, Option<&'static str>))
    ensures
        r.0@ == (match kind {
            DialogKind::Ask => "Yes"@,
            _ => "OK"@,
        }),
        match kind {
            DialogKind::Ask => r.1 is Some && r.1.unwrap()@ == "No"@,
            DialogKind::Info => r.1 is None,
            DialogKind::Input => r.1 is Some && r.1.unwrap()@ == "Cancel"@,
        },
{
    match kind {
        DialogKind::Ask => ("Yes", Some("No")),
        DialogKind::Info => ("OK", None),
        DialogKind::Input => ("OK", Some("Cancel")),
    }
}

/// A button's width: its label plus one cell of padding each side.
pub fn btn_w(label: &str) -> (w: u16)
    requires
        label@.len() + 2 <= u16::MAX,
    ensures
        w == label@.len() + 2,
{
    chars_of(label).len() as u16 + 2
}

pub open spec fn min_int(a: int, b: int) -> int {
    if a < b { a } else { b }
}

pub open spec fn max_int(a: int, b: int) -> int {
    if a > b { a } else { b }
}

/// The centered dialog rectangle: 54 wide (within the terminal less 4, at
/// least 24), 9 rows for an input dialog and 8 otherwise (within the
/// terminal less 2).
pub open spec fn dialog_area_of(kind: DialogKind, term: Rect) -> Rect {
    let w = max_int(min_int(54, sat_sub(term.width as int, 4)), 24);
    let h = min_int(if kind == DialogKind::Input { 9 } else { 8 }, sat_sub(term.height as int, 2));
    Rect {
        x: (term.x + sat_sub(term.width as int, w) / 2) as u16,
        y: (term.y + sat_sub(term.height as int, h) / 2) as u16,
        width: w as u16,
        height: h as u16,
    }
}

pub fn dialog_area(d: &Dialog, term: Rect) -> (r: Rect)
    requires
        roomy(term),
    ensures
        r == dialog_area_of(d.kind, term),
{
    let tw = if term.width > 4 { term.width - 4 } else { 0 };
    let w0: u16 = if 54 < tw { 54 } else { tw };
    let w: u16 = if w0 > 24 { w0 } else { 24 };
    let h0: u16 = match d.kind {
        DialogKind::Input => 9,
        _ => 8,
    };
    let th = if term.height > 2 { term.height - 2 } else { 0 };
    let h: u16 = if h0 < th { h0 } else { th };
    let x = term.x + (if term.width > w { term.width - w } else { 0 }) / 2;
    let y = term.y + (if term.height > h { term.height - h } else { 0 }) / 2;
    Rect { x, y, width: w, height: h }
}

/// The dialog's cells stay within the `u16` coordinates: its right edge (the
/// dialog is at least 24 wide) and the row below the terminal's bottom.
pub open spec fn roomy(term: Rect) -> bool {
    term.x + max_int(term.width as int, 24) <= u16::MAX && term.y + term.height + 1 <= u16::MAX
}

/// The dialog's layout inside the terminal: message, input row (for an input
/// dialog), and the buttons right-aligned on the second row from the bottom,
/// cancel right of confirm with one cell between.
pub open spec fn layout_spec(kind: DialogKind, term: Rect) -> DialogLayout {
    let a = dialog_area_of(kind, term);
    let tx = a.x + 2;
    let tw = sat_sub(a.width as int, 4);
    let by = a.y + sat_sub(a.height as int, 2);
    let msg_bottom = if kind == DialogKind::Input { sat_sub(by, 2) } else { sat_sub(by, 1) };
    let right = a.x + sat_sub(a.width as int, 2);
    let cw = if kind == DialogKind::Ask { 5int } else { 4int };
    let xw = if kind == DialogKind::Ask { 4int } else { 8int };
    let cancel = Rect { x: sat_sub(right, xw) as u16, y: by as u16, width: xw as u16, height: 1 };
    DialogLayout {
        area: a,
        message: Rect { x: tx as u16, y: (a.y + 1) as u16, width: tw as u16, height: sat_sub(msg_bottom, a.y + 1) as u16 },
        input: if kind == DialogKind::Input {
            Some(Rect { x: tx as u16, y: sat_sub(by, 2) as u16, width: tw as u16, height: 1 })
        } else {
            None
        },
        confirm: if kind == DialogKind::Info {
            Rect { x: sat_sub(right, cw) as u16, y: by as u16, width: cw as u16, height: 1 }
        } else {
            Rect { x: sat_sub(cancel.x as int, 1 + cw) as u16, y: by as u16, width: cw as u16, height: 1 }
        },
        cancel: if kind == DialogKind::Info { None } else { Some(cancel) },
    }
}

pub fn layout(d: &Dialog, term: Rect) -> (l: DialogLayout)
    requires
        roomy(term),
    ensures
        l == layout_spec(d.kind, term),
{
    proof {
        reveal_strlit("Yes");
        reveal_strlit("No");
        reveal_strlit("OK");
        reveal_strlit("Cancel");
    }
    let area = dialog_area(d, term);
    let tx = area.x + 2;
    let tw = if area.width > 4 { area.width - 4 } else { 0 };
    let buttons_y = area.y + (if area.height > 2 { area.height - 2 } else { 0 });
    let (input, msg_bottom) = match d.kind {
        DialogKind::Input => {
            let iy = if buttons_y > 2 { buttons_y - 2 } else { 0 };
            (Some(Rect { x: tx, y: iy, width: tw, height: 1 }), iy)
        },
        _ => (None, if buttons_y > 1 { buttons_y - 1 } else { 0 }),
    };
    let msg_y = area.y + 1;
    let message = Rect { x: tx, y: msg_y, width: tw, height: if msg_bottom > msg_y { msg_bottom - msg_y } else { 0 } };
    let (c_label, x_label) = button_labels(d.kind);
    let cw = btn_w(c_label);
    let right = area.x + (if area.width > 2 { area.width - 2 } else { 0 });
    let (confirm, cancel) = match x_label {
        Some(xl) => {
            let xw = btn_w(xl);
            let cancel_rect = Rect { x: if right > xw { right - xw } else { 0 }, y: buttons_y, width: xw, height: 1 };
            let confirm_rect = Rect {
                x: if cancel_rect.x > 1 + cw { cancel_rect.x - (1 + cw) } else { 0 },
                y: buttons_y,
                width: cw,
                height: 1,
            };
            (confirm_rect, Some(cancel_rect))
        },
        None => (Rect { x: if right > cw { right - cw } else { 0 }, y: buttons_y, width: cw, height: 1 }, None),
    };
    DialogLayout { area, message, input, confirm, cancel }
}

/// A click on the dialog's buttons: `Some(true)` confirm, `Some(false)` cancel.
pub fn hit(d: &Dialog, term: Rect, x: u16, y: u16) -> (r: Option<bool>)
    requires
        roomy(term),
    ensures
        ({
            let l = layout_spec(d.kind, term);
            r == (if inside(l.confirm, x as int, y as int) {
                Some(true)
            } else if l.cancel is Some && inside(l.cancel.unwrap(), x as int, y as int) {
                Some(false)
            } else {
                None
            })
        }),
{
    let l = layout(d, term);
    if rect_contains(l.confirm, x, y) {
        return Some(true);
    }
    match l.cancel {
        Some(rect) => if rect_contains(rect, x, y) { Some(false) } else { None },
        None => None,
    }
}
// ----- the file-tree context menu -----

pub open spec fn menu_label_len(i: MenuItem) -> int {
    match i {
        MenuItem::NewFile => 8,
        MenuItem::NewFolder => 10,
        MenuItem::Rename => 6,
        MenuItem::Delete => 6,
    }
}

pub open spec fn menu_shortcut_len(i: MenuItem) -> int {
    match i {
        MenuItem::NewFile => 6,
        MenuItem::NewFolder => 11,
        MenuItem::Rename => 2,
        MenuItem::Delete => 3,
    }
}

/// The menu's inner width: the longest "label + gap + shortcut" pair.
pub fn inner_width() -> (w: u16)
    ensures
        forall|i: MenuItem| w >= menu_label_len(i) + menu_shortcut_len(i) + 4,
        exists|i: MenuItem| w == menu_label_len(i) + menu_shortcut_len(i) + 4,
{
    proof {
        reveal_strlit("New File");
        reveal_strlit("New Folder");
        reveal_strlit("Rename");
        reveal_strlit("Delete");
        reveal_strlit("Ctrl+N");
        reveal_strlit("Alt+Shift+N");
        reveal_strlit("F2");
        reveal_strlit("Del");
    }
    let items = MenuItem::all();
    let mut best: u16 = 0;
    let n = items.len();
    for k in 0..n
        invariant
            n == items@.len(),
            items@ == seq![MenuItem::NewFile, MenuItem::NewFolder, MenuItem::Rename, MenuItem::Delete],
            forall|j: int| 0 <= j < k ==> best >= menu_label_len(#[trigger] items@[j]) + menu_shortcut_len(items@[j]) + 4,
            k == 0 ==> best == 0,
            k > 0 ==> exists|j: int| 0 <= j < k && best == menu_label_len(#[trigger] items@[j]) + menu_shortcut_len(items@[j]) + 4,
    {
        proof {
            reveal_strlit("New File");
            reveal_strlit("New Folder");
            reveal_strlit("Rename");
            reveal_strlit("Delete");
            reveal_strlit("Ctrl+N");
            reveal_strlit("Alt+Shift+N");
            reveal_strlit("F2");
            reveal_strlit("Del");
        }
        let it = items[k];
        let w = (chars_of(it.label()).len() + chars_of(it.shortcut()).len() + 4) as u16;
        assert(w == menu_label_len(it) + menu_shortcut_len(it) + 4);
        if k == 0 || w > best {
            best = w;
        }
    }
    assert forall|i: MenuItem| best >= menu_label_len(i) + menu_shortcut_len(i) + 4 by {
        match i {
            MenuItem::NewFile => assert(items@[0] == i),
            MenuItem::NewFolder => assert(items@[1] == i),
            MenuItem::Rename => assert(items@[2] == i),
            MenuItem::Delete => assert(items@[3] == i),
        }
    }
    best
}

/// The menu rectangle: anchored at the click, shifted back to stay on screen.
pub open spec fn menu_rect_of(m: ContextMenu, term: Rect) -> Rect {
    let width = min_int(27int, term.width as int);
    let height = min_int(6int, term.height as int);
    Rect {
        x: min_int(m.x as int, sat_sub(term.width as int, width)) as u16,
        y: min_int(m.y as int, sat_sub(term.height as int, height)) as u16,
        width: width as u16,
        height: height as u16,
    }
}

pub fn menu_rect(m: &ContextMenu, term: Rect) -> (r: Rect)
    ensures
        r == menu_rect_of(*m, term),
{
    let iw = inner_width();
    assert(iw == 25) by {
        assert(iw >= menu_label_len(MenuItem::NewFolder) + menu_shortcut_len(MenuItem::NewFolder) + 4);
    }
    let width = if iw + 2 < term.width { iw + 2 } else { term.width };
    let height = if 6 < term.height { 6 } else { term.height };
    let mx = term.width - width;
    let my = term.height - height;
    Rect { x: if m.x < mx { m.x } else { mx }, y: if m.y < my { m.y } else { my }, width, height }
}

/// What a click lands on: an item inside the list, `None` on the border rows
/// or outside.
pub fn menu_hit(m: &ContextMenu, term: Rect, x: u16, y: u16) -> (r: Option<MenuItem>)
    ensures
        ({
            let a = menu_rect_of(*m, term);
            if !inside(a, x as int, y as int) || y == a.y || y == a.y + a.height - 1 {
                r is None
            } else {
                let idx = y - a.y - 1;
                r == (if idx == 0 {
                    Some(MenuItem::NewFile)
                } else if idx == 1 {
                    Some(MenuItem::NewFolder)
                } else if idx == 2 {
                    Some(MenuItem::Rename)
                } else if idx == 3 {
                    Some(MenuItem::Delete)
                } else {
                    None
                })
            }
        }),
{
    let area = menu_rect(m, term);
    let in_x = x >= area.x && (x as u32) < area.x as u32 + area.width as u32;
    let in_y = y >= area.y && (y as u32) < area.y as u32 + area.height as u32;
    if !in_x || !in_y || y == area.y || (y as u32) == area.y as u32 + area.height as u32 - 1 {
        return None;
    }
    let idx = (y - area.y - 1) as usize;
    let items = MenuItem::all();
    if idx < items.len() {
        Some(items[idx])
    } else {
        None
    }
}

// ----- the settings panel -----

/// A clickable row in the Settings panel.
#[derive(Clone, Copy, Debug, PartialEq, Eq, Structural)]
pub enum SettingsItem {
    EditKeybindings,
    EditConfig,
    /// Toggle: plain ASCII glyphs instead of icon-font ones.
    AsciiIcons,
    ResetKeybindings,
    ResetConfig,
}

/// The actionable rows, in selection order.
pub fn settings_items() -> (v: Vec<SettingsItem>)
    ensures
        v@ == seq![SettingsItem::EditKeybindings, SettingsItem::EditConfig, SettingsItem::AsciiIcons,
            SettingsItem::ResetKeybindings, SettingsItem::ResetConfig],
{
    vec![SettingsItem::EditKeybindings, SettingsItem::EditConfig, SettingsItem::AsciiIcons,
        SettingsItem::ResetKeybindings, SettingsItem::ResetConfig]
}

pub fn is_reset(item: SettingsItem) -> (b: bool)
    ensures
        b == (item == SettingsItem::ResetKeybindings || item == SettingsItem::ResetConfig),
{
    match item {
        SettingsItem::ResetKeybindings | SettingsItem::ResetConfig => true,
        _ => false,
    }
}

/// The visual rows: the two edit rows, the toggle, a blank spacer, the two
/// reset rows (each an index into `settings_items`).
pub open spec fn settings_layout() -> Seq<Option<usize>> {
    seq![Some(0usize), Some(1usize), Some(2usize), None, Some(3usize), Some(4usize)]
}

/// The actionable settings row under the mouse y, or `None` (outside the
/// panel body, or on the spacer).
pub fn settings_row_at(area: Rect, y: u16) -> (r: Option<usize>)
    requires
        area.x < u16::MAX,
        area.y + 3 <= u16::MAX,
    ensures
        ({
            let body = panel_area_of(area);
            if y < body.y || y >= body.y + body.height {
                r is None
            } else {
                let v = y - body.y;
                r == (if v < 6 { settings_layout()[v] } else { None })
            }
        }),
{
    let body = panel_area(area);
    if y < body.y || (y as u32) >= body.y as u32 + body.height as u32 {
        return None;
    }
    let visual = (y - body.y) as usize;
    let layout: Vec<Option<usize>> = vec![Some(0), Some(1), Some(2), None, Some(3), Some(4)];
    assert(layout@ =~= settings_layout());
    if visual < layout.len() {
        layout[visual]
    } else {
        None
    }
}

pub open spec fn panel_area_of(sidebar: Rect) -> Rect {
    Rect {
        x: (sidebar.x + 1) as u16,
        y: (sidebar.y + 3) as u16,
        width: sat_sub(sidebar.width as int, 2) as u16,
        height: sat_sub(sat_sub(sidebar.height as int, 2), 2) as u16,
    }
}

// ----- the activity bar -----

/// The panel whose icon row a click at height `y` falls on: after one blank
/// row, each panel takes two rows.
pub fn panel_at(area: Rect, y: u16) -> (r: Option<Panel>)
    requires
        area.y < u16::MAX,
    ensures
        r == (if y < area.y + 1 {
            None
        } else {
            let idx = (y - area.y - 1) / 2;
            if idx == 0 {
                Some(Panel::Files)
            } else if idx == 1 {
                Some(Panel::Search)
            } else if idx == 2 {
                Some(Panel::Git)
            } else if idx == 3 {
                Some(Panel::Extensions)
            } else if idx == 4 {
                Some(Panel::Themes)
            } else if idx == 5 {
                Some(Panel::Settings)
            } else {
                None
            }
        }),
{
    if y < area.y + 1 {
        return None;
    }
    let idx = ((y - area.y - 1) / 2) as usize;
    let all = Panel::all();
    if idx < all.len() {
        Some(all[idx])
    } else {
        None
    }
}

// ----- the quickbar -----

/// Rows above the quickbar's list: border, input row and gap.
pub const LIST_OFFSET: u16 = 3;

/// The quickbar's visible rows.
pub const MAX_ROWS: u16 = 12;

/// The quickbar rectangle: two thirds of the terminal wide (at least 30,
/// at most all of it), centered, a little above the middle.
pub open spec fn quickbar_area_of(term: Rect) -> Rect {
    let width = min_int(max_int(term.width as int * 2 / 3, 30), term.width as int);
    let height = min_int(LIST_OFFSET + MAX_ROWS, term.height as int);
    Rect {
        x: (term.x + sat_sub(term.width as int, width) / 2) as u16,
        y: (term.y + sat_sub(term.height as int, height) / 2 / 2) as u16,
        width: width as u16,
        height: height as u16,
    }
}

pub fn quickbar_area(term: Rect) -> (r: Rect)
    requires
        fits(term),
    ensures
        r == quickbar_area_of(term),
{
    let w0 = term.width as usize * 2 / 3;
    let w1 = if w0 > 30 { w0 } else { 30 };
    let width = (if w1 < term.width as usize { w1 } else { term.width as usize }) as u16;
    let height = if LIST_OFFSET + MAX_ROWS < term.height { LIST_OFFSET + MAX_ROWS } else { term.height };
    let x = term.x + (term.width - width) / 2;
    let y = term.y + (term.height - height) / 2 / 2;
    Rect { x, y, width, height }
}

/// Which list row a click lands on; `None` on the border, the input row or outside.
pub fn hit_on(qb: &QuickbarState, term: Rect, x: u16, y: u16) -> (r: Option<usize>)
    requires
        fits(term),
    ensures
        ({
            let a = quickbar_area_of(term);
            if !inside(a, x as int, y as int) || y < a.y + LIST_OFFSET {
                r is None
            } else {
                let row = y - a.y - LIST_OFFSET;
                r == (if row < qb.items@.len() { Some(row as usize) } else { None })
            }
        }),
{
    let area = quickbar_area(term);
    let inside_now = x >= area.x && x < area.x + area.width && y >= area.y && y < area.y + area.height;
    if !inside_now || y - area.y < LIST_OFFSET {
        return None;
    }
    let row = (y - area.y - LIST_OFFSET) as usize;
    if row < qb.items.len() {
        Some(row)
    } else {
        None
    }
}

} // verus!
