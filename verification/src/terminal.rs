//! The embedded terminal's screen: pty output fed to a vt100 parser, and the
//! scrollback view kept anchored while output arrives.
use vstd::prelude::*;

use crate::focus::toggle_terminal;
use crate::model::{Focus, LayoutState};
use crate::screen::{areas_of, compute_areas};
use crate::ui::{sat_sub, Rect};

verus! {

/// A `vt100::Parser`. Verus cannot be told of the type itself (it is generic
/// over a callbacks trait of vt100), so it is held here, opaque: what Verus
/// knows of it comes from the names and wrappers below.
#[verifier::external_body]
pub struct VtParser {
    inner: vt100::Parser,
}

/// The parser `Parser::new` gives for a size and a scrollback capacity.
pub uninterp spec fn vt_start(rows: u16, cols: u16, capacity: usize) -> VtParser;

/// The parser after `Parser::process` has read some bytes.
pub uninterp spec fn vt_after(p: VtParser, bytes: Seq<u8>) -> VtParser;

/// The parser after `Screen::set_scrollback` with a row count.
pub uninterp spec fn vt_scrolled(p: VtParser, rows: usize) -> VtParser;

/// The parser after `Parser::set_size`.
pub uninterp spec fn vt_resized(p: VtParser, rows: u16, cols: u16) -> VtParser;

/// The number of scrollback rows the active screen holds.
pub uninterp spec fn sb_len(p: VtParser) -> nat;

/// The active screen's scrollback position: how many rows back from the live
/// bottom the view is.
pub uninterp spec fn sb_offset(p: VtParser) -> nat;

/// The screen's number of rows.
pub uninterp spec fn vt_rows(p: VtParser) -> u16;

/// The screen's number of columns.
pub uninterp spec fn vt_cols(p: VtParser) -> u16;

/// The text `Screen::contents_between` gives for two cells of the visible
/// grid.
pub uninterp spec fn vt_between(p: VtParser, start_row: u16, start_col: u16, end_row: u16, end_col: u16) -> Seq<char>;

/// `Parser::new` with a size and a scrollback capacity: an empty scrollback,
/// viewed from the live bottom, and the screen of that size.
#[verifier::external_body]
fn vt_new(rows: u16, cols: u16, capacity: usize) -> (r: VtParser)
    requires
        rows > 0,
        cols > 0,
    ensures
        r == vt_start(rows, cols, capacity),
        sb_len(r) == 0,
        sb_offset(r) == 0,
        vt_rows(r) == rows,
        vt_cols(r) == cols,
{
    VtParser { inner: vt100::Parser::new(std::num::NonZeroU16::new(rows).unwrap(), std::num::NonZeroU16::new(cols).unwrap(), capacity) }
}

/// `Parser::process`: the parser reads the bytes. Only `set_size` changes
/// the screen's size, so it stays; what the bytes do to the screen and the
/// scrollback is named, not stated.
#[verifier::external_body]
fn vt_process(p: &mut VtParser, bytes: &[u8])
    ensures
        *final(p) == vt_after(*old(p), bytes@),
        vt_rows(*final(p)) == vt_rows(*old(p)),
        vt_cols(*final(p)) == vt_cols(*old(p)),
{
    p.inner.process(bytes)
}

/// `Screen::set_scrollback`: the scrollback position becomes the row count,
/// clamped to the scrollback's length (a `VecDeque`'s, so within `usize`);
/// the scrollback and the size stay.
#[verifier::external_body]
fn vt_set_scrollback(p: &mut VtParser, rows: usize)
    ensures
        *final(p) == vt_scrolled(*old(p), rows),
        sb_len(*final(p)) == sb_len(*old(p)),
        sb_len(*final(p)) <= usize::MAX,
        sb_offset(*final(p)) == if rows < sb_len(*old(p)) { rows as nat } else { sb_len(*old(p)) },
        vt_rows(*final(p)) == vt_rows(*old(p)),
        vt_cols(*final(p)) == vt_cols(*old(p)),
{
    p.inner.screen_mut().set_scrollback(rows)
}

/// `Screen::scrollback`: the scrollback position.
#[verifier::external_body]
fn vt_scrollback(p: &VtParser) -> (r: usize)
    ensures
        r == sb_offset(*p),
{
    p.inner.screen().scrollback()
}

/// `Screen::size`: the screen's rows and columns.
#[verifier::external_body]
fn vt_size(p: &VtParser) -> (r: (u16, u16))
    ensures
        r == (vt_rows(*p), vt_cols(*p)),
{
    let (rows, cols) = p.inner.screen().size();
    (rows.get(), cols.get())
}

/// `Parser::set_size`: the screen takes the new size; what that does to the
/// rows and the scrollback is named, not stated.
#[verifier::external_body]
fn vt_set_size(p: &mut VtParser, rows: u16, cols: u16)
    requires
        rows > 0,
        cols > 0,
    ensures
        *final(p) == vt_resized(*old(p), rows, cols),
        vt_rows(*final(p)) == rows,
        vt_cols(*final(p)) == cols,
{
    p.inner.set_size(std::num::NonZeroU16::new(rows).unwrap(), std::num::NonZeroU16::new(cols).unwrap())
}

/// `Screen::contents_between`: the text between two cells of the visible grid.
/// Across rows it takes the first row from `start_col` to the screen's width,
/// so `start_col` must not pass that width.
#[verifier::external_body]
fn vt_contents_between(p: &VtParser, start_row: u16, start_col: u16, end_row: u16, end_col: u16) -> (r: String)
    requires
        start_row < end_row ==> start_col <= vt_cols(*p),
    ensures
        r@ == vt_between(*p, start_row, start_col, end_row, end_col),
{
    p.inner.screen().contents_between(start_row, start_col, end_row, end_col)
}

/// The position that keeps the same history in view: scrolled back by
/// `offset` rows over `prev` scrollback rows, with `total` rows now, the view
/// moves back by the rows added; at the live bottom it stays there.
pub open spec fn anchored(offset: usize, prev: usize, total: nat) -> int {
    if offset > 0 {
        offset + sat_sub(total as int, prev as int)
    } else {
        0
    }
}

/// The smaller of two integers.
pub open spec fn min_of(a: int, b: int) -> int {
    if a <= b { a } else { b }
}

/// The terminal's screen as the editor keeps it: the vt100 parser, its size,
/// the scrollback view, and the selection.
pub struct TerminalView {
    parser: VtParser,
    scroll_offset: usize,
    scrollback_lines: usize,
    selection: Option<(u16, u16, u16, u16)>,
}

/// The corners of a selection in reading order: by row, then by column.
pub open spec fn reading_order(s: (u16, u16, u16, u16)) -> (u16, u16, u16, u16) {
    if s.0 < s.2 || (s.0 == s.2 && s.1 <= s.3) {
        s
    } else {
        (s.2, s.3, s.0, s.1)
    }
}

/// `v` is `w` after its scroll bounds were re-read over parser `p`, starting
/// from view position `offset` over `prev` scrollback rows.
pub open spec fn synced(v: TerminalView, w: TerminalView, p: VtParser, offset: usize, prev: usize) -> bool {
    let total = sb_len(p);
    &&& v.parser() == vt_scrolled(vt_scrolled(p, usize::MAX), min_of(anchored(offset, prev, total), usize::MAX as int) as usize)
    &&& v.scrollback_lines() == total
    &&& v.scroll_offset() == min_of(anchored(offset, prev, total), total as int)
    &&& v.rows() == w.rows()
    &&& v.cols() == w.cols()
    &&& v.selection() == w.selection()
}

impl TerminalView {
    /// The parser.
    pub closed spec fn parser(self) -> VtParser {
        self.parser
    }

    /// The number of rows.
    pub closed spec fn rows(self) -> u16 {
        vt_rows(self.parser)
    }

    /// The number of columns.
    pub closed spec fn cols(self) -> u16 {
        vt_cols(self.parser)
    }

    /// How far back from the live bottom the view is (0: following it).
    pub closed spec fn scroll_offset(self) -> usize {
        self.scroll_offset
    }

    /// The scrollback rows the parser held when last counted.
    pub closed spec fn scrollback_lines(self) -> usize {
        self.scrollback_lines
    }

    /// The selection in visible-grid cells: (start row, start column, end
    /// row, end column).
    pub closed spec fn selection(self) -> Option<(u16, u16, u16, u16)> {
        self.selection
    }

    /// A 24 by 80 screen with room for 2000 rows of scrollback, empty, at the
    /// live bottom, nothing selected.
    pub fn new() -> (t: TerminalView)
        ensures
            t.parser() == vt_start(24, 80, 2000),
            t.rows() == 24,
            t.cols() == 80,
            t.scroll_offset() == 0,
            t.scrollback_lines() == 0,
            t.selection() is None,
    {
        TerminalView { parser: vt_new(24, 80, 2000), scroll_offset: 0, scrollback_lines: 0, selection: None }
    }

    /// The number of rows.
    pub fn rows_count(&self) -> (r: u16)
        ensures
            r == self.rows(),
    {
        vt_size(&self.parser).0
    }

    /// The number of columns.
    pub fn cols_count(&self) -> (r: u16)
        ensures
            r == self.cols(),
    {
        vt_size(&self.parser).1
    }

    /// How far back from the live bottom the view is.
    pub fn offset(&self) -> (r: usize)
        ensures
            r == self.scroll_offset(),
    {
        self.scroll_offset
    }

    /// The scrollback rows when last counted (the largest position).
    pub fn scrollback_len(&self) -> (r: usize)
        ensures
            r == self.scrollback_lines(),
    {
        self.scrollback_lines
    }

    /// The selection.
    pub fn selected(&self) -> (r: Option<(u16, u16, u16, u16)>)
        ensures
            r == self.selection(),
    {
        self.selection
    }

    /// Sets or clears the selection.
    pub fn set_selection(&mut self, s: Option<(u16, u16, u16, u16)>)
        ensures
            final(self).selection() == s,
            final(self).parser() == old(self).parser(),
            final(self).rows() == old(self).rows(),
            final(self).cols() == old(self).cols(),
            final(self).scroll_offset() == old(self).scroll_offset(),
            final(self).scrollback_lines() == old(self).scrollback_lines(),
    {
        self.selection = s;
    }

    /// Re-reads how many scrollback rows the parser holds and puts the view
    /// back in place: scrolled back into history, it stays on the same rows
    /// as new output pushes older ones up; at the live bottom it keeps
    /// following. vt100 clamps the position, and the position read back is
    /// kept.
    pub fn sync_scroll_bounds(&mut self)
        ensures
            synced(*final(self), *old(self), old(self).parser(), old(self).scroll_offset(), old(self).scrollback_lines()),
    {
        let prev_total = self.scrollback_lines;
        vt_set_scrollback(&mut self.parser, usize::MAX);
        self.scrollback_lines = vt_scrollback(&self.parser);
        let mut target = self.scroll_offset;
        if target > 0 {
            let grown = if self.scrollback_lines > prev_total { self.scrollback_lines - prev_total } else { 0 };
            target = target.saturating_add(grown);
        }
        vt_set_scrollback(&mut self.parser, target);
        self.scroll_offset = vt_scrollback(&self.parser);
    }

    /// Feeds pty output to the parser, then re-reads the scroll bounds so the
    /// view stays anchored.
    pub fn on_pty_output(&mut self, bytes: &[u8])
        ensures
            synced(
                *final(self),
                *old(self),
                vt_after(old(self).parser(), bytes@),
                old(self).scroll_offset(),
                old(self).scrollback_lines(),
            ),
    {
        vt_process(&mut self.parser, bytes);
        self.sync_scroll_bounds();
    }

    /// Resizes the screen; a zero size is ignored. When the size changes the
    /// parser takes it, and either way the scroll bounds are re-read. Returns
    /// whether the size changed (the pty is then to be told).
    pub fn resize(&mut self, rows: u16, cols: u16) -> (changed: bool)
        ensures
            rows == 0 || cols == 0 ==> *final(self) == *old(self) && !changed,
            rows > 0 && cols > 0 ==> {
                &&& changed == (rows != old(self).rows() || cols != old(self).cols())
                &&& final(self).rows() == rows
                &&& final(self).cols() == cols
                &&& synced(
                    *final(self),
                    *final(self),
                    if changed { vt_resized(old(self).parser(), rows, cols) } else { old(self).parser() },
                    old(self).scroll_offset(),
                    old(self).scrollback_lines(),
                )
                &&& final(self).selection() == old(self).selection()
            },
    {
        if rows == 0 || cols == 0 {
            return false;
        }
        let (now_rows, now_cols) = vt_size(&self.parser);
        let changed = rows != now_rows || cols != now_cols;
        if changed {
            vt_set_size(&mut self.parser, rows, cols);
        }
        self.sync_scroll_bounds();
        changed
    }

    /// Scrolls the view by `delta` rows (positive: back into history), kept
    /// at or above the live bottom and clamped by vt100.
    pub fn scroll_by(&mut self, delta: isize)
        requires
            old(self).scroll_offset() <= isize::MAX,
            old(self).scroll_offset() + delta <= isize::MAX,
        ensures
            ({
                let want: int = if old(self).scroll_offset() + delta > 0 { old(self).scroll_offset() + delta } else { 0 };
                &&& final(self).parser() == vt_scrolled(old(self).parser(), want as usize)
                &&& final(self).scroll_offset() == min_of(want, sb_len(old(self).parser()) as int)
            }),
            final(self).scrollback_lines() == old(self).scrollback_lines(),
            final(self).rows() == old(self).rows(),
            final(self).cols() == old(self).cols(),
            final(self).selection() == old(self).selection(),
    {
        let sum = self.scroll_offset as isize + delta;
        let new: usize = if sum > 0 { sum as usize } else { 0 };
        vt_set_scrollback(&mut self.parser, new);
        self.scroll_offset = vt_scrollback(&self.parser);
    }

    /// Moves the view to a scrollback position (0: the live bottom), clamped
    /// by vt100.
    pub fn scroll_to(&mut self, offset: usize)
        ensures
            final(self).parser() == vt_scrolled(old(self).parser(), offset),
            final(self).scroll_offset() == min_of(offset as int, sb_len(old(self).parser()) as int),
            final(self).scrollback_lines() == old(self).scrollback_lines(),
            final(self).rows() == old(self).rows(),
            final(self).cols() == old(self).cols(),
            final(self).selection() == old(self).selection(),
    {
        vt_set_scrollback(&mut self.parser, offset);
        self.scroll_offset = vt_scrollback(&self.parser);
    }

    /// The selected text of the visible grid, its corners taken in reading
    /// order (so a drag upwards copies the same text); empty without a
    /// selection. Across rows the first corner's column must be within the
    /// screen's width.
    pub fn selected_text(&self) -> (r: String)
        requires
            self.selection() matches Some(s) ==> (reading_order(s).0 < reading_order(s).2 ==> reading_order(s).1
                <= self.cols()),
        ensures
            match self.selection() {
                None => r@ == Seq::<char>::empty(),
                Some(s) => {
                    let o = reading_order(s);
                    r@ == vt_between(self.parser(), o.0, o.1, o.2, o.3)
                },
            },
    {
        match self.selection {
            None => String::new(),
            Some((r1, c1, r2, c2)) => {
                let (a, b, c, d) = if r1 < r2 || (r1 == r2 && c1 <= c2) {
                    (r1, c1, r2, c2)
                } else {
                    (r2, c2, r1, c1)
                };
                vt_contents_between(&self.parser, a, b, c, d)
            },
        }
    }
}

/// The screen size for the terminal pane: its height less the top border
/// row and its width less the scrollbar column, each at least 1.
pub open spec fn pane_size(pane: Rect) -> (u16, u16) {
    (
        if pane.height > 1 { (pane.height - 1) as u16 } else { 1 },
        if pane.width > 1 { (pane.width - 1) as u16 } else { 1 },
    )
}

/// `v` is `w` sized to its pane in the layout of `area`: unchanged when the
/// terminal is closed; else resized (the parser too, when the size differs)
/// and its scroll bounds re-read.
pub open spec fn size_synced(v: TerminalView, w: TerminalView, layout: LayoutState, gutter_w: u16, area: Rect) -> bool {
    if !layout.terminal_open {
        v == w
    } else {
        let (rows, cols) = pane_size(areas_of(layout, gutter_w, area).terminal);
        let changed = rows != w.rows() || cols != w.cols();
        &&& v.rows() == rows
        &&& v.cols() == cols
        &&& synced(
            v,
            v,
            if changed { vt_resized(w.parser(), rows, cols) } else { w.parser() },
            w.scroll_offset(),
            w.scrollback_lines(),
        )
        &&& v.selection() == w.selection()
    }
}

/// Sizes the terminal's screen to its pane in the layout of `area`, when the
/// terminal is open; returns whether the size changed (the pty is then to be
/// told the new size).
pub fn sync_size(view: &mut TerminalView, layout: &LayoutState, gutter_w: u16, area: Rect) -> (changed: bool)
    ensures
        size_synced(*final(view), *old(view), *layout, gutter_w, area),
        changed == (final(view).rows() != old(view).rows() || final(view).cols() != old(view).cols()),
{
    if !layout.terminal_open {
        return false;
    }
    let a = compute_areas(layout, gutter_w, area);
    let rows: u16 = if a.terminal.height > 1 { a.terminal.height - 1 } else { 1 };
    let cols: u16 = if a.terminal.width > 1 { a.terminal.width - 1 } else { 1 };
    view.resize(rows, cols)
}

/// The editor's terminal: its screen, whether a shell runs in it, and
/// whether one is being started.
pub struct TerminalState {
    pub view: TerminalView,
    pub has_session: bool,
    pub spawn_requested: bool,
}

/// What happens to the terminal.
pub enum TermEvent {
    /// The shell asked for has started.
    Ready,
    /// The shell wrote these bytes.
    Output(Vec<u8>),
    /// The shell ended.
    Exited,
    /// Key presses for the shell, as bytes.
    Input(Vec<u8>),
    /// Pasted text for the shell.
    Paste(String),
    /// The terminal panel is shown or hidden.
    Toggle,
    /// Esc in the terminal: the selection goes.
    ClearSelection,
}

/// What the front end is to do for the terminal.
pub enum TermAction {
    /// Tell the shell's pty its new size.
    ResizePty(u16, u16),
    /// Start a shell with a pty of this size.
    SpawnPty(u16, u16),
    /// Write these bytes to the shell.
    Write(Vec<u8>),
    /// Write this text to the shell.
    WriteText(String),
    /// Show this notice.
    Notify(String),
}

/// The resize the pty is told of when a shell runs and the size changed.
pub open spec fn resize_acts(has_session: bool, v: TerminalView, w: TerminalView) -> Seq<TermAction> {
    if has_session && (v.rows() != w.rows() || v.cols() != w.cols()) {
        seq![TermAction::ResizePty(v.rows(), v.cols())]
    } else {
        Seq::empty()
    }
}

/// The terminal's step: the next state, the focus and the panel layout, and
/// the actions, for one event.
/// - `Ready`: a shell runs and none is being started; the screen takes its
///   pane's size, and a changed size goes to the pty.
/// - `Output`: the bytes go to the screen, the view kept anchored.
/// - `Exited`: no shell runs; "Terminal closed" is shown.
/// - `Input`, `Paste`: with a shell, the bytes or text go to it and the view
///   returns to the live bottom; without one, nothing happens.
/// - `Toggle`: the panel is shown or hidden; shown, it takes the focus and its
///   size, and a shell is started when none runs or is being started; hidden,
///   a terminal focus goes back to the editor.
/// - `ClearSelection`: the selection goes.
pub fn terminal_step(
    t: &mut TerminalState,
    layout: &mut LayoutState,
    focus: &mut Focus,
    ev: TermEvent,
    gutter_w: u16,
    area: Rect,
) -> (acts: Vec<TermAction>)
    ensures
        match ev {
            TermEvent::Ready => {
                &&& final(t).has_session && !final(t).spawn_requested
                &&& size_synced(final(t).view, old(t).view, *old(layout), gutter_w, area)
                &&& acts@ == resize_acts(true, final(t).view, old(t).view)
                &&& *final(layout) == *old(layout) && *final(focus) == *old(focus)
            },
            TermEvent::Output(bytes) => {
                &&& synced(final(t).view, old(t).view, vt_after(old(t).view.parser(), bytes@), old(t).view.scroll_offset(), old(t).view.scrollback_lines())
                &&& final(t).has_session == old(t).has_session && final(t).spawn_requested == old(t).spawn_requested
                &&& acts@.len() == 0
                &&& *final(layout) == *old(layout) && *final(focus) == *old(focus)
            },
            TermEvent::Exited => {
                &&& !final(t).has_session && !final(t).spawn_requested
                &&& final(t).view == old(t).view
                &&& acts@.len() == 1
                &&& acts@[0] matches TermAction::Notify(m) && m@ == "Terminal closed"@
                &&& *final(layout) == *old(layout) && *final(focus) == *old(focus)
            },
            TermEvent::Input(bytes) => {
                &&& old(t).has_session ==> acts@ == seq![TermAction::Write(bytes)] && final(t).view.parser() == vt_scrolled(old(t).view.parser(), 0)
                    && final(t).view.scroll_offset() == 0
                &&& !old(t).has_session ==> acts@.len() == 0 && final(t).view == old(t).view
                &&& final(t).view.scrollback_lines() == old(t).view.scrollback_lines()
                &&& final(t).view.selection() == old(t).view.selection()
                &&& final(t).has_session == old(t).has_session && final(t).spawn_requested == old(t).spawn_requested
                &&& *final(layout) == *old(layout) && *final(focus) == *old(focus)
            },
            TermEvent::Paste(text) => {
                &&& old(t).has_session ==> acts@ == seq![TermAction::WriteText(text)] && final(t).view.parser() == vt_scrolled(old(t).view.parser(), 0)
                    && final(t).view.scroll_offset() == 0
                &&& !old(t).has_session ==> acts@.len() == 0 && final(t).view == old(t).view
                &&& final(t).view.scrollback_lines() == old(t).view.scrollback_lines()
                &&& final(t).view.selection() == old(t).view.selection()
                &&& final(t).has_session == old(t).has_session && final(t).spawn_requested == old(t).spawn_requested
                &&& *final(layout) == *old(layout) && *final(focus) == *old(focus)
            },
            TermEvent::Toggle => {
                &&& final(layout).terminal_open == !old(layout).terminal_open
                &&& final(layout).sidebar_open == old(layout).sidebar_open
                &&& final(layout).sidebar_width == old(layout).sidebar_width
                &&& final(layout).terminal_height == old(layout).terminal_height
                &&& final(t).has_session == old(t).has_session
                &&& if final(layout).terminal_open {
                    let spawn = !old(t).has_session && !old(t).spawn_requested;
                    &&& *final(focus) == Focus::Terminal
                    &&& size_synced(final(t).view, old(t).view, *final(layout), gutter_w, area)
                    &&& final(t).spawn_requested == (old(t).spawn_requested || spawn)
                    &&& acts@ == resize_acts(old(t).has_session, final(t).view, old(t).view) + if spawn {
                        seq![TermAction::SpawnPty(final(t).view.rows(), final(t).view.cols())]
                    } else {
                        Seq::empty()
                    }
                } else {
                    &&& *final(focus) == if *old(focus) == Focus::Terminal { Focus::Editor } else { *old(focus) }
                    &&& final(t).view == old(t).view
                    &&& final(t).spawn_requested == old(t).spawn_requested
                    &&& acts@.len() == 0
                }
            },
            TermEvent::ClearSelection => {
                &&& final(t).view.selection() is None
                &&& final(t).view.parser() == old(t).view.parser()
                &&& final(t).view.scroll_offset() == old(t).view.scroll_offset()
                &&& final(t).view.scrollback_lines() == old(t).view.scrollback_lines()
                &&& final(t).has_session == old(t).has_session && final(t).spawn_requested == old(t).spawn_requested
                &&& acts@.len() == 0
                &&& *final(layout) == *old(layout) && *final(focus) == *old(focus)
            },
        },
{
    match ev {
        TermEvent::Ready => {
            t.has_session = true;
            t.spawn_requested = false;
            let changed = sync_size(&mut t.view, layout, gutter_w, area);
            if changed {
                vec![TermAction::ResizePty(t.view.rows_count(), t.view.cols_count())]
            } else {
                Vec::new()
            }
        },
        TermEvent::Output(bytes) => {
            t.view.on_pty_output(bytes.as_slice());
            Vec::new()
        },
        TermEvent::Exited => {
            t.has_session = false;
            t.spawn_requested = false;
            vec![TermAction::Notify(String::from_str("Terminal closed"))]
        },
        TermEvent::Input(bytes) => {
            if t.has_session {
                t.view.scroll_to(0);
                vec![TermAction::Write(bytes)]
            } else {
                Vec::new()
            }
        },
        TermEvent::Paste(text) => {
            if t.has_session {
                t.view.scroll_to(0);
                vec![TermAction::WriteText(text)]
            } else {
                Vec::new()
            }
        },
        TermEvent::Toggle => {
            let (f, spawn) = toggle_terminal(layout, *focus, t.has_session, t.spawn_requested);
            *focus = f;
            if !layout.terminal_open {
                return Vec::new();
            }
            let changed = sync_size(&mut t.view, layout, gutter_w, area);
            let mut acts: Vec<TermAction> = Vec::new();
            if changed && t.has_session {
                acts.push(TermAction::ResizePty(t.view.rows_count(), t.view.cols_count()));
            }
            if spawn {
                t.spawn_requested = true;
                acts.push(TermAction::SpawnPty(t.view.rows_count(), t.view.cols_count()));
            }
            acts
        },
        TermEvent::ClearSelection => {
            t.view.set_selection(None);
            Vec::new()
        },
    }
}

} // verus!
