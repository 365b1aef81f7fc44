//! The screen's regions: activity bar, sidebar, tabs, editor, scrollbar,
//! terminal and status bar. Drawing and mouse routing share this layout.
use vstd::prelude::*;

use ratatui::layout::Layout;

use crate::model::LayoutState;
use crate::num::{dec, lemma_dec_len_u64, u64_to_string};
use crate::ui::{sat_sub, Rect};

verus! {

/// A size constraint on one region of a split.
#[derive(Clone, Copy, Debug, PartialEq, Eq, Structural)]
pub enum Constraint {
    /// Exactly this many cells.
    Length(u16),
    /// At least this many cells.
    Min(u16),
}

/// The direction of a split.
#[derive(Clone, Copy, Debug, PartialEq, Eq, Structural)]
pub enum Direction {
    /// Regions stacked top to bottom.
    Vertical,
    /// Regions side by side, left to right.
    Horizontal,
}

/// What ratatui's layout solver gives for an area split in a direction under
/// a list of constraints.
pub uninterp spec fn split_of(area: Rect, dir: Direction, cs: Seq<Constraint>) -> Seq<Rect>;

/// `ratatui::layout::Layout::new(..).split(..)`, with the rectangles, the
/// direction and the constraints converted. The result is named, not stated;
/// it holds one rectangle per constraint.
#[verifier::external_body]
fn split(area: Rect, dir: Direction, cs: Vec<Constraint>) -> (r: Vec<Rect>)
    ensures
        r@ == split_of(area, dir, cs@),
        r@.len() == cs@.len(),
{
    let cons = cs.into_iter().map(|c| match c {
        Constraint::Length(n) => ratatui::layout::Constraint::Length(n),
        Constraint::Min(n) => ratatui::layout::Constraint::Min(n),
    });
    let d = match dir {
        Direction::Vertical => ratatui::layout::Direction::Vertical,
        Direction::Horizontal => ratatui::layout::Direction::Horizontal,
    };
    let whole = ratatui::layout::Rect { x: area.x, y: area.y, width: area.width, height: area.height };
    Layout::new(d, cons).split(whole).iter().map(|r| Rect { x: r.x, y: r.y, width: r.width, height: r.height }).collect()
}

/// Region rectangles; drawing and mouse routing use the same ones.
#[derive(Clone, Copy, Debug, PartialEq, Eq, Structural)]
pub struct Areas {
    pub activity: Rect,
    pub sidebar: Rect,
    pub sidebar_open: bool,
    /// x of the sidebar/editor border (the drag handle).
    pub sidebar_border_x: u16,
    pub tabs: Rect,
    pub editor: Rect,
    /// The editor's scrollbar column; zero wide when there is no room.
    pub scrollbar: Rect,
    pub terminal: Rect,
    pub terminal_open: bool,
    /// y of the terminal's top edge (the drag handle).
    pub terminal_border_y: u16,
    pub statusbar: Rect,
    /// x where the editor text begins, after the gutter.
    pub editor_text_x: u16,
    pub gutter_w: u16,
}

/// Width of the activity bar.
pub const ACTIVITY_WIDTH: u16 = 4;

/// The gutter's width: the digits of the largest line number plus two, at
/// least four, and one more for the change marker when the file is tracked.
pub open spec fn gutter_width_of(max_number: nat, git: bool) -> int {
    let d = dec(max_number).len() + 2;
    (if d >= 4 { d } else { 4 }) + if git { 1int } else { 0int }
}

pub fn gutter_width(max_number: u64, git: bool) -> (w: u16)
    ensures
        w == gutter_width_of(max_number as nat, git),
{
    let digits = u64_to_string(max_number);
    proof {
        lemma_dec_len_u64(max_number as nat);
    }
    let d = digits.as_str().unicode_len() as u16 + 2;
    (if d >= 4 { d } else { 4 }) + if git { 1 } else { 0 }
}

/// The first two parts of a split.
pub open spec fn two(s: Seq<Rect>) -> (Rect, Rect) {
    (s[0], s[1])
}

/// The regions of the screen `area`.
pub open spec fn areas_of(layout: LayoutState, gutter_w: u16, area: Rect) -> Areas {
    let (main, statusbar) = two(split_of(area, Direction::Vertical, seq![Constraint::Min(1), Constraint::Length(1)]));
    let (activity, rest) = two(split_of(main, Direction::Horizontal, seq![Constraint::Length(ACTIVITY_WIDTH), Constraint::Min(0)]));
    let (sidebar, editor_col) = if layout.sidebar_open {
        two(split_of(rest, Direction::Horizontal, seq![Constraint::Length(layout.sidebar_width), Constraint::Min(0)]))
    } else {
        (Rect { width: 0, ..rest }, rest)
    };
    let (editor_body, terminal) = if layout.terminal_open {
        let th = if layout.terminal_height <= sat_sub(editor_col.height as int, 3) {
            layout.terminal_height as int
        } else {
            sat_sub(editor_col.height as int, 3)
        };
        two(split_of(editor_col, Direction::Vertical, seq![Constraint::Min(1), Constraint::Length((if th >= 1 { th } else { 1 }) as u16)]))
    } else {
        (editor_col, Rect { height: 0, ..editor_col })
    };
    let (tabs, editor_full) = two(split_of(editor_body, Direction::Vertical, seq![Constraint::Length(1), Constraint::Min(0)]));
    let (editor, scrollbar) = if editor_full.width > gutter_w + 1 {
        two(split_of(editor_full, Direction::Horizontal, seq![Constraint::Min(1), Constraint::Length(1)]))
    } else {
        (editor_full, Rect { width: 0, ..editor_full })
    };
    Areas {
        activity,
        sidebar,
        sidebar_open: layout.sidebar_open,
        sidebar_border_x: editor_col.x,
        tabs,
        editor,
        scrollbar,
        terminal,
        terminal_open: layout.terminal_open,
        terminal_border_y: terminal.y,
        statusbar,
        editor_text_x: ((editor.x + gutter_w) % 0x10000) as u16,
        gutter_w,
    }
}

fn split2(area: Rect, dir: Direction, a: Constraint, b: Constraint) -> (r: (Rect, Rect))
    ensures
        r == two(split_of(area, dir, seq![a, b])),
{
    let v = split(area, dir, vec![a, b]);
    (v[0], v[1])
}

/// Computes the screen's regions for the layout settings and gutter width.
pub fn compute_areas(layout: &LayoutState, gutter_w: u16, area: Rect) -> (a: Areas)
    ensures
        a == areas_of(*layout, gutter_w, area),
{
    let (main, statusbar) = split2(area, Direction::Vertical, Constraint::Min(1), Constraint::Length(1));
    let (activity, rest) = split2(main, Direction::Horizontal, Constraint::Length(ACTIVITY_WIDTH), Constraint::Min(0));
    let (sidebar, editor_col) = if layout.sidebar_open {
        split2(rest, Direction::Horizontal, Constraint::Length(layout.sidebar_width), Constraint::Min(0))
    } else {
        (Rect { width: 0, ..rest }, rest)
    };
    let (editor_body, terminal) = if layout.terminal_open {
        let room: u16 = if editor_col.height > 3 { editor_col.height - 3 } else { 0 };
        let th = if layout.terminal_height <= room { layout.terminal_height } else { room };
        split2(editor_col, Direction::Vertical, Constraint::Min(1), Constraint::Length(if th >= 1 { th } else { 1 }))
    } else {
        (editor_col, Rect { height: 0, ..editor_col })
    };
    let (tabs, editor_full) = split2(editor_body, Direction::Vertical, Constraint::Length(1), Constraint::Min(0));
    let (editor, scrollbar) = if editor_full.width as u32 > gutter_w as u32 + 1 {
        split2(editor_full, Direction::Horizontal, Constraint::Min(1), Constraint::Length(1))
    } else {
        (editor_full, Rect { width: 0, ..editor_full })
    };
    Areas {
        activity,
        sidebar,
        sidebar_open: layout.sidebar_open,
        sidebar_border_x: editor_col.x,
        tabs,
        editor,
        scrollbar,
        terminal,
        terminal_open: layout.terminal_open,
        terminal_border_y: terminal.y,
        statusbar,
        editor_text_x: editor.x.wrapping_add(gutter_w),
        gutter_w,
    }
}

/// The editor's text viewport on a terminal of `width` × `height` cells:
/// its height in rows and its width in columns after the gutter.
pub fn editor_viewport(layout: &LayoutState, gutter_w: u16, width: u16, height: u16) -> (r: (usize, usize))
    ensures
        ({
            let a = areas_of(*layout, gutter_w, Rect { x: 0, y: 0, width, height });
            r == (a.editor.height as usize, if a.editor.width >= a.gutter_w {
                (a.editor.width - a.gutter_w) as usize
            } else {
                0usize
            })
        }),
{
    let a = compute_areas(layout, gutter_w, Rect { x: 0, y: 0, width, height });
    let w = if a.editor.width >= a.gutter_w { a.editor.width - a.gutter_w } else { 0 };
    (a.editor.height as usize, w as usize)
}

} // verus!
