//! Where the keyboard focus goes when panels, the sidebar and the terminal
//! open and close, and what Esc does in each place.
use vstd::prelude::*;

use crate::model::{Focus, LayoutState, Panel};

verus! {

/// Whether the focus is somewhere in the sidebar.
pub open spec fn in_sidebar(f: Focus) -> bool {
    f == Focus::Sidebar || f == Focus::SearchInput || f == Focus::GitCommit
}

fn focus_in_sidebar(f: Focus) -> (b: bool)
    ensures
        b == in_sidebar(f),
{
    f == Focus::Sidebar || f == Focus::SearchInput || f == Focus::GitCommit
}

/// Where the focus lands in a panel: the search panel's query input, or the
/// panel's list.
pub open spec fn panel_focus(p: Panel) -> Focus {
    if p == Panel::Search { Focus::SearchInput } else { Focus::Sidebar }
}

/// Show or hide the sidebar. Hiding it moves a focus that was in the list or
/// the search input to the editor; showing it moves the focus to the panel.
pub fn toggle_sidebar(layout: &mut LayoutState, focus: Focus, active: Panel) -> (f: Focus)
    ensures
        final(layout).sidebar_open == !old(layout).sidebar_open,
        final(layout).terminal_open == old(layout).terminal_open,
        final(layout).sidebar_width == old(layout).sidebar_width,
        final(layout).terminal_height == old(layout).terminal_height,
        f == if !final(layout).sidebar_open {
            if focus == Focus::Sidebar || focus == Focus::SearchInput { Focus::Editor } else { focus }
        } else {
            panel_focus(active)
        },
{
    layout.sidebar_open = !layout.sidebar_open;
    if !layout.sidebar_open {
        if focus == Focus::Sidebar || focus == Focus::SearchInput {
            Focus::Editor
        } else {
            focus
        }
    } else {
        if active == Panel::Search { Focus::SearchInput } else { Focus::Sidebar }
    }
}

/// What opening a panel asks for besides the focus.
#[derive(Clone, Copy, Debug, PartialEq, Eq, Structural)]
pub enum PanelRequest {
    Nothing,
    /// Reload the git status.
    LoadGitStatus,
    /// Scan the workspace root (the tree is not loaded yet).
    ScanRoot,
    /// Probe which tools are installed.
    CheckTools,
}

/// The outcome of selecting a panel.
#[derive(Clone, Copy, Debug, PartialEq, Eq, Structural)]
pub struct PanelSwitch {
    pub focus: Focus,
    /// The search panel starts in its query field, caret at the end.
    pub search_query_field: bool,
    /// The Git panel starts on its change list.
    pub git_files_zone: bool,
    pub request: PanelRequest,
}

/// Selecting panel `p`: re-selecting the panel that is open collapses the
/// sidebar when `collapse_if_active` (a second keyboard press while it has
/// the focus, or any click on its icon); otherwise the sidebar opens on `p`
/// with the focus in it.
pub fn open_panel(
    layout: &mut LayoutState,
    active: &mut Panel,
    focus: Focus,
    p: Panel,
    collapse_if_active: bool,
    tree_loaded: bool,
) -> (s: PanelSwitch)
    ensures
        final(layout).terminal_open == old(layout).terminal_open,
        final(layout).sidebar_width == old(layout).sidebar_width,
        final(layout).terminal_height == old(layout).terminal_height,
        (old(layout).sidebar_open && *old(active) == p && collapse_if_active) ==> {
            &&& !final(layout).sidebar_open
            &&& *final(active) == *old(active)
            &&& s.focus == if in_sidebar(focus) { Focus::Editor } else { focus }
            &&& !s.search_query_field && !s.git_files_zone
            &&& s.request == PanelRequest::Nothing
        },
        !(old(layout).sidebar_open && *old(active) == p && collapse_if_active) ==> {
            &&& final(layout).sidebar_open
            &&& *final(active) == p
            &&& s.focus == panel_focus(p)
            &&& s.search_query_field == (p == Panel::Search)
            &&& s.git_files_zone == (p == Panel::Git)
            &&& s.request == match p {
                Panel::Git => PanelRequest::LoadGitStatus,
                Panel::Files => if tree_loaded { PanelRequest::Nothing } else { PanelRequest::ScanRoot },
                Panel::Extensions => PanelRequest::CheckTools,
                _ => PanelRequest::Nothing,
            }
        },
{
    if layout.sidebar_open && *active == p && collapse_if_active {
        layout.sidebar_open = false;
        let f = if focus_in_sidebar(focus) { Focus::Editor } else { focus };
        return PanelSwitch { focus: f, search_query_field: false, git_files_zone: false, request: PanelRequest::Nothing };
    }
    *active = p;
    layout.sidebar_open = true;
    let request = match p {
        Panel::Git => PanelRequest::LoadGitStatus,
        Panel::Files => if tree_loaded { PanelRequest::Nothing } else { PanelRequest::ScanRoot },
        Panel::Extensions => PanelRequest::CheckTools,
        _ => PanelRequest::Nothing,
    };
    PanelSwitch {
        focus: if p == Panel::Search { Focus::SearchInput } else { Focus::Sidebar },
        search_query_field: p == Panel::Search,
        git_files_zone: p == Panel::Git,
        request,
    }
}

/// A panel shortcut always goes to the panel; only when the panel is open
/// and already has the focus does a second press collapse the sidebar.
pub fn select_panel(layout: &mut LayoutState, active: &mut Panel, focus: Focus, p: Panel, tree_loaded: bool) -> (s: PanelSwitch)
    ensures
        ({
            let collapse = old(layout).sidebar_open && *old(active) == p && in_sidebar(focus);
            &&& collapse ==> !final(layout).sidebar_open && *final(active) == *old(active)
                && s.focus == Focus::Editor && s.request == PanelRequest::Nothing
            &&& !collapse ==> final(layout).sidebar_open && *final(active) == p && s.focus == panel_focus(p)
        }),
        final(layout).terminal_open == old(layout).terminal_open,
{
    open_panel(layout, active, focus, p, focus_in_sidebar(focus), tree_loaded)
}

/// A click on a panel's icon: clicking the open panel's icon collapses the
/// sidebar wherever the focus is.
pub fn toggle_panel(layout: &mut LayoutState, active: &mut Panel, focus: Focus, p: Panel, tree_loaded: bool) -> (s: PanelSwitch)
    ensures
        ({
            let collapse = old(layout).sidebar_open && *old(active) == p;
            &&& collapse ==> !final(layout).sidebar_open && *final(active) == *old(active)
                && s.focus == (if in_sidebar(focus) { Focus::Editor } else { focus })
            &&& !collapse ==> final(layout).sidebar_open && *final(active) == p && s.focus == panel_focus(p)
        }),
        final(layout).terminal_open == old(layout).terminal_open,
{
    open_panel(layout, active, focus, p, true, tree_loaded)
}

/// Show or hide the terminal panel: showing it focuses it and, when no shell
/// runs and none is being started, asks for one; hiding it hands a terminal
/// focus back to the editor.
pub fn toggle_terminal(layout: &mut LayoutState, focus: Focus, has_session: bool, spawn_requested: bool) -> (r: (Focus, bool))
    ensures
        final(layout).terminal_open == !old(layout).terminal_open,
        final(layout).sidebar_open == old(layout).sidebar_open,
        final(layout).sidebar_width == old(layout).sidebar_width,
        final(layout).terminal_height == old(layout).terminal_height,
        final(layout).terminal_open ==> r == (Focus::Terminal, !has_session && !spawn_requested),
        !final(layout).terminal_open ==> r == (if focus == Focus::Terminal { Focus::Editor } else { focus }, false),
{
    layout.terminal_open = !layout.terminal_open;
    if layout.terminal_open {
        (Focus::Terminal, !has_session && !spawn_requested)
    } else {
        (if focus == Focus::Terminal { Focus::Editor } else { focus }, false)
    }
}

/// What Esc does where the focus is.
#[derive(Clone, Copy, Debug, PartialEq, Eq, Structural)]
pub enum EscapeEffect {
    /// Close the find widget.
    CloseFind,
    /// Drop the editor's selection.
    ClearSelection,
    /// Move the focus.
    FocusTo(Focus),
    /// Leave the commit box for the Git panel's change list.
    CommitBoxToList,
    /// Drop the terminal's selection.
    ClearTerminalSelection,
    Nothing,
}

pub fn escape(focus: Focus, active: Panel) -> (e: EscapeEffect)
    ensures
        e == match focus {
            Focus::Find => EscapeEffect::CloseFind,
            Focus::Editor => EscapeEffect::ClearSelection,
            Focus::Sidebar => if active == Panel::Search {
                EscapeEffect::FocusTo(Focus::SearchInput)
            } else {
                EscapeEffect::Nothing
            },
            Focus::SearchInput => EscapeEffect::FocusTo(Focus::Editor),
            Focus::GitCommit => EscapeEffect::CommitBoxToList,
            Focus::Terminal => EscapeEffect::ClearTerminalSelection,
        },
{
    match focus {
        Focus::Find => EscapeEffect::CloseFind,
        Focus::Editor => EscapeEffect::ClearSelection,
        Focus::Sidebar => if active == Panel::Search {
            EscapeEffect::FocusTo(Focus::SearchInput)
        } else {
            EscapeEffect::Nothing
        },
        Focus::SearchInput => EscapeEffect::FocusTo(Focus::Editor),
        Focus::GitCommit => EscapeEffect::CommitBoxToList,
        Focus::Terminal => EscapeEffect::ClearTerminalSelection,
    }
}

} // verus!
