use coder::model::LayoutState;
use coder::screen::compute_areas;
use coder::model::Focus;
use coder::terminal::{sync_size, terminal_step, TermAction, TermEvent, TerminalState, TerminalView};
use coder::ui::Rect;

fn lines(n: usize) -> Vec<u8> {
    let mut out = Vec::new();
    for i in 0..n {
        out.extend_from_slice(format!("line {}\r\n", i).as_bytes());
    }
    out
}

#[test]
fn a_new_terminal_is_empty_at_the_bottom() {
    let t = TerminalView::new();
    assert_eq!(t.rows_count(), 24);
    assert_eq!(t.cols_count(), 80);
    assert_eq!(t.offset(), 0);
    assert_eq!(t.scrollback_len(), 0);
    assert_eq!(t.selected(), None);
    assert_eq!(t.selected_text(), "");
}

#[test]
fn following_the_bottom_keeps_following() {
    let mut t = TerminalView::new();
    t.on_pty_output(&lines(100));
    assert_eq!(t.scrollback_len(), 77);
    assert_eq!(t.offset(), 0);
    t.on_pty_output(&lines(10));
    assert_eq!(t.scrollback_len(), 87);
    assert_eq!(t.offset(), 0);
}

#[test]
fn scrolled_back_the_view_stays_on_the_same_rows() {
    let mut t = TerminalView::new();
    t.on_pty_output(&lines(100));
    t.scroll_to(10);
    assert_eq!(t.offset(), 10);
    t.on_pty_output(&lines(5));
    assert_eq!(t.scrollback_len(), 82);
    assert_eq!(t.offset(), 15);
}

#[test]
fn scrolling_is_clamped_to_the_history() {
    let mut t = TerminalView::new();
    t.on_pty_output(&lines(30));
    assert_eq!(t.scrollback_len(), 7);
    t.scroll_by(3);
    assert_eq!(t.offset(), 3);
    t.scroll_by(-1);
    assert_eq!(t.offset(), 2);
    t.scroll_by(-100);
    assert_eq!(t.offset(), 0);
    t.scroll_by(100);
    assert_eq!(t.offset(), 7);
    t.scroll_to(usize::MAX);
    assert_eq!(t.offset(), 7);
    t.scroll_to(0);
    assert_eq!(t.offset(), 0);
}

#[test]
fn a_selection_is_read_in_reading_order() {
    let mut t = TerminalView::new();
    t.on_pty_output(b"hello\r\nworld\r\n");
    t.set_selection(Some((1, 3, 0, 1)));
    assert_eq!(t.selected_text(), "ello\nwor");
    t.set_selection(Some((0, 1, 1, 3)));
    assert_eq!(t.selected_text(), "ello\nwor");
    t.set_selection(Some((0, 2, 0, 4)));
    assert_eq!(t.selected_text(), "ll");
    t.set_selection(None);
    assert_eq!(t.selected_text(), "");
}

#[test]
fn a_zero_size_is_ignored_and_a_new_size_is_taken() {
    let mut t = TerminalView::new();
    assert!(!t.resize(0, 10));
    assert_eq!(t.rows_count(), 24);
    assert!(t.resize(30, 100));
    assert_eq!((t.rows_count(), t.cols_count()), (30, 100));
    assert!(!t.resize(30, 100));
}

#[test]
fn the_screen_takes_the_size_of_its_pane() {
    let area = Rect { x: 0, y: 0, width: 120, height: 40 };
    let mut t = TerminalView::new();
    let closed = LayoutState { sidebar_width: 30, terminal_height: 12, sidebar_open: true, terminal_open: false };
    assert!(!sync_size(&mut t, &closed, 4, area));
    assert_eq!((t.rows_count(), t.cols_count()), (24, 80));
    let open = LayoutState { terminal_open: true, ..closed };
    let pane = compute_areas(&open, 4, area).terminal;
    assert!(sync_size(&mut t, &open, 4, area));
    assert_eq!((t.rows_count(), t.cols_count()), (pane.height - 1, pane.width - 1));
    assert!(!sync_size(&mut t, &open, 4, area));
}

#[test]
fn the_terminal_panel_starts_a_shell_and_runs_it() {
    let area = Rect { x: 0, y: 0, width: 120, height: 40 };
    let mut layout = LayoutState { sidebar_width: 30, terminal_height: 12, sidebar_open: true, terminal_open: false };
    let mut focus = Focus::Editor;
    let mut t = TerminalState { view: TerminalView::new(), has_session: false, spawn_requested: false };

    let acts = terminal_step(&mut t, &mut layout, &mut focus, TermEvent::Toggle, 4, area);
    assert!(layout.terminal_open);
    assert_eq!(focus, Focus::Terminal);
    assert!(t.spawn_requested);
    let size = (t.view.rows_count(), t.view.cols_count());
    assert_ne!(size, (24, 80));
    assert_eq!(acts.len(), 1);
    assert!(matches!(acts[0], TermAction::SpawnPty(r, c) if (r, c) == size));

    let acts = terminal_step(&mut t, &mut layout, &mut focus, TermEvent::Ready, 4, area);
    assert!(t.has_session && !t.spawn_requested);
    assert!(acts.is_empty());

    let mut out = Vec::new();
    for i in 0..100 {
        out.extend_from_slice(format!("row {}\r\n", i).as_bytes());
    }
    terminal_step(&mut t, &mut layout, &mut focus, TermEvent::Output(out), 4, area);
    assert!(t.view.scrollback_len() > 0);
    t.view.scroll_to(5);
    let acts = terminal_step(&mut t, &mut layout, &mut focus, TermEvent::Input(b"ls\r".to_vec()), 4, area);
    assert!(matches!(&acts[..], [TermAction::Write(b)] if b == b"ls\r"));
    assert_eq!(t.view.offset(), 0);

    let acts = terminal_step(&mut t, &mut layout, &mut focus, TermEvent::Exited, 4, area);
    assert!(!t.has_session);
    assert!(matches!(&acts[..], [TermAction::Notify(m)] if m == "Terminal closed"));
    let acts = terminal_step(&mut t, &mut layout, &mut focus, TermEvent::Paste("x".to_string()), 4, area);
    assert!(acts.is_empty());

    let acts = terminal_step(&mut t, &mut layout, &mut focus, TermEvent::Toggle, 4, area);
    assert!(!layout.terminal_open);
    assert_eq!(focus, Focus::Editor);
    assert!(acts.is_empty());
}
