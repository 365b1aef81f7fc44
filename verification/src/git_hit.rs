//! Mapping a mouse click in the Git panel to what it targets.
use vstd::prelude::*;

use crate::git_panel::{git_layout, laid_out, row_view, rows_view, GitLayout, GitRowKind, RowV};
use crate::model::GitStatus;
use crate::text::copy_str;
use crate::ui::{action_at_col, panel_area, sat_sub, segments_of, GitAction, Rect};

verus! {

/// Target of a mouse click in the Git panel.
#[derive(Clone, Debug, PartialEq, Eq)]
pub enum GitHit {
    /// Open the change or history row at this combined index.
    Entry(usize),
    Stage(String),
    Unstage(String),
    Revert(String),
    StageAll,
    UnstageAll,
    CommitInput,
    CommitButton,
    UndoLastCommit,
    Fetch,
    Pull,
    Push,
    /// Reload the git status (the button at the right end of the branch row).
    Refresh,
    /// Open the plain file (not its diff): the icon at the left of a change row.
    OpenFile(String),
}

/// A click target as plain values.
pub ghost enum GitHitV {
    Entry(int),
    Stage(Seq<char>),
    Unstage(Seq<char>),
    Revert(Seq<char>),
    StageAll,
    UnstageAll,
    CommitInput,
    CommitButton,
    UndoLastCommit,
    Fetch,
    Pull,
    Push,
    Refresh,
    OpenFile(Seq<char>),
}

impl GitHit {
    pub open spec fn view(self) -> GitHitV {
        match self {
            GitHit::Entry(i) => GitHitV::Entry(i as int),
            GitHit::Stage(r) => GitHitV::Stage(r@),
            GitHit::Unstage(r) => GitHitV::Unstage(r@),
            GitHit::Revert(r) => GitHitV::Revert(r@),
            GitHit::StageAll => GitHitV::StageAll,
            GitHit::UnstageAll => GitHitV::UnstageAll,
            GitHit::CommitInput => GitHitV::CommitInput,
            GitHit::CommitButton => GitHitV::CommitButton,
            GitHit::UndoLastCommit => GitHitV::UndoLastCommit,
            GitHit::Fetch => GitHitV::Fetch,
            GitHit::Pull => GitHitV::Pull,
            GitHit::Push => GitHitV::Push,
            GitHit::Refresh => GitHitV::Refresh,
            GitHit::OpenFile(r) => GitHitV::OpenFile(r@),
        }
    }
}

pub open spec fn hit_view(h: Option<GitHit>) -> Option<GitHitV> {
    match h {
        Some(x) => Some(x.view()),
        None => None,
    }
}

/// Width of the Refresh button at the right end of the branch row.
pub const REFRESH_W: u16 = 3;
/// Width of the " Uncommit " button at the left of the button row.
pub const UNCOMMIT_W: u16 = 10;
/// Width of the " Commit " button at the right of the button row.
pub const COMMIT_W: u16 = 8;
/// Columns the file icon takes at the left of a change row.
pub const FILE_ICON_W: u16 = 2;

/// The action button under column `x` of the fetch/pull/push row.
pub open spec fn action_hit(area: Rect, x: int) -> Option<GitHitV> {
    if x < area.x {
        None
    } else {
        let rel = x - area.x;
        let (w0, w1, _) = segments_of(area.width as int);
        if rel < w0 {
            Some(GitHitV::Fetch)
        } else if rel < w0 + 1 {
            None
        } else if rel < w0 + 1 + w1 {
            Some(GitHitV::Pull)
        } else if rel < w0 + 2 + w1 {
            None
        } else {
            Some(GitHitV::Push)
        }
    }
}

/// What a click at column `col` (relative to the panel) of list row `row`
/// targets. A change row's icon opens the file; its right-hand controls
/// (shown from 8 columns on) stage, unstage or revert; the rest opens its diff.
pub open spec fn row_hit(g: GitStatus, row: RowV, col: int, width: int) -> Option<GitHitV> {
    let wide = width >= 8;
    match row {
        RowV::Staged(idx, _) => if idx < 0 || idx >= g.staged@.len() {
            None
        } else if col < FILE_ICON_W {
            Some(GitHitV::OpenFile(g.staged@[idx].rel@))
        } else if wide && col == width - 2 {
            Some(GitHitV::Unstage(g.staged@[idx].rel@))
        } else {
            Some(GitHitV::Entry(idx))
        },
        RowV::Unstaged(idx, _) => if idx < 0 || idx >= g.unstaged@.len() {
            None
        } else if col < FILE_ICON_W {
            Some(GitHitV::OpenFile(g.unstaged@[idx].rel@))
        } else if wide && col == width - 2 {
            Some(GitHitV::Stage(g.unstaged@[idx].rel@))
        } else if wide && (col == width - 5 || col == width - 4) {
            Some(GitHitV::Revert(g.unstaged@[idx].rel@))
        } else {
            Some(GitHitV::Entry(g.staged@.len() + idx))
        },
        RowV::StageAll => Some(GitHitV::StageAll),
        RowV::UnstageAll => Some(GitHitV::UnstageAll),
        RowV::Commit(idx) => if g.staged@.len() + g.unstaged@.len() + idx <= usize::MAX {
            Some(GitHitV::Entry(g.staged@.len() + g.unstaged@.len() + idx))
        } else {
            None
        },
        _ => None,
    }
}

/// What a click at (x, y) targets, for the panel body `area` laid out as `l`.
pub open spec fn git_hit_of(g: GitStatus, l: GitLayout, area: Rect, x: int, y: int) -> Option<GitHitV> {
    let rel = sat_sub(x, area.x as int);
    if l.branch_shown && y == l.branch_y {
        if rel >= sat_sub(area.width as int, REFRESH_W as int) { Some(GitHitV::Refresh) } else { None }
    } else if l.has_box && y == l.actions_y {
        action_hit(area, x)
    } else if l.has_box && y == l.button_y {
        if rel < UNCOMMIT_W {
            Some(GitHitV::UndoLastCommit)
        } else if rel >= sat_sub(area.width as int, COMMIT_W as int) {
            Some(GitHitV::CommitButton)
        } else {
            None
        }
    } else if l.has_box && l.input_top <= y < l.input_top + 4 {
        Some(GitHitV::CommitInput)
    } else if y < l.content_y || y >= l.content_y + l.list_h {
        None
    } else {
        let k = l.offset + (y - l.content_y);
        if k >= l.rows@.len() {
            None
        } else {
            row_hit(g, rows_view(l.rows@)[k], rel, area.width as int)
        }
    }
}

fn row_target(g: &GitStatus, row: &GitRowKind, col: u16, width: u16) -> (r: Option<GitHit>)
    requires
        g.fits(),
    ensures
        hit_view(r) == row_hit(*g, row_view(*row), col as int, width as int),
{
    let wide = width >= 8;
    match row {
        GitRowKind::Staged { idx, .. } => {
            if *idx >= g.staged.len() {
                None
            } else {
                let e = &g.staged[*idx];
                if col < FILE_ICON_W {
                    Some(GitHit::OpenFile(copy_str(e.rel.as_str())))
                } else if wide && col == width - 2 {
                    Some(GitHit::Unstage(copy_str(e.rel.as_str())))
                } else {
                    Some(GitHit::Entry(*idx))
                }
            }
        },
        GitRowKind::Unstaged { idx, .. } => {
            if *idx >= g.unstaged.len() {
                None
            } else {
                let e = &g.unstaged[*idx];
                if col < FILE_ICON_W {
                    Some(GitHit::OpenFile(copy_str(e.rel.as_str())))
                } else if wide && col == width - 2 {
                    Some(GitHit::Stage(copy_str(e.rel.as_str())))
                } else if wide && (col == width - 5 || col == width - 4) {
                    Some(GitHit::Revert(copy_str(e.rel.as_str())))
                } else {
                    Some(GitHit::Entry(g.staged.len() + *idx))
                }
            }
        },
        GitRowKind::StageAll => Some(GitHit::StageAll),
        GitRowKind::UnstageAll => Some(GitHit::UnstageAll),
        GitRowKind::Commit { idx } => {
            let n = g.staged.len() + g.unstaged.len();
            if *idx > usize::MAX - n {
                None
            } else {
                Some(GitHit::Entry(n + *idx))
            }
        },
        _ => None,
    }
}

/// The click target at (x, y) for the panel body `area` laid out as `l`.
pub fn git_hit_in(g: &GitStatus, l: &GitLayout, area: Rect, x: u16, y: u16) -> (r: Option<GitHit>)
    requires
        g.fits(),
        l.input_top + 4 <= u16::MAX,
        l.content_y + l.list_h <= u16::MAX,
    ensures
        hit_view(r) == git_hit_of(*g, *l, area, x as int, y as int),
{
    let rel: u16 = if x > area.x { x - area.x } else { 0 };
    if l.branch_shown && y == l.branch_y {
        let edge: u16 = if area.width > REFRESH_W { area.width - REFRESH_W } else { 0 };
        return if rel >= edge { Some(GitHit::Refresh) } else { None };
    }
    if l.has_box && y == l.actions_y {
        return match action_at_col(area, x) {
            Some(GitAction::Fetch) => Some(GitHit::Fetch),
            Some(GitAction::Pull) => Some(GitHit::Pull),
            Some(GitAction::Push) => Some(GitHit::Push),
            None => None,
        };
    }
    if l.has_box && y == l.button_y {
        let edge: u16 = if area.width > COMMIT_W { area.width - COMMIT_W } else { 0 };
        return if rel < UNCOMMIT_W {
            Some(GitHit::UndoLastCommit)
        } else if rel >= edge {
            Some(GitHit::CommitButton)
        } else {
            None
        };
    }
    if l.has_box && l.input_top <= y && y < l.input_top + 4 {
        return Some(GitHit::CommitInput);
    }
    if y < l.content_y || y >= l.content_y + l.list_h {
        return None;
    }
    let d = (y - l.content_y) as usize;
    let n = l.rows.len();
    if l.offset >= n || d >= n - l.offset {
        return None;
    }
    let k = l.offset + d;
    proof {
        assert(rows_view(l.rows@)[k as int] == row_view(l.rows@[k as int]));
    }
    row_target(g, &l.rows[k], rel, area.width)
}

/// Where the panel body lies in the sidebar: inside the border, below the
/// title and header-actions rows.
pub open spec fn body_area(sidebar: Rect) -> Rect {
    Rect {
        x: (sidebar.x + 1) as u16,
        y: (sidebar.y + 3) as u16,
        width: sat_sub(sidebar.width as int, 2) as u16,
        height: sat_sub(sat_sub(sidebar.height as int, 2), 2) as u16,
    }
}

/// The click target at (x, y) in the Git panel drawn in `sidebar`.
pub fn git_hit(g: &GitStatus, sidebar: Rect, x: u16, y: u16) -> (r: Option<GitHit>)
    requires
        g.fits(),
        sidebar.x < u16::MAX,
        sidebar.y + sidebar.height + 16 <= u16::MAX,
    ensures
        exists|l: GitLayout| {
            &&& #[trigger] laid_out(*g, body_area(sidebar), l)
            &&& hit_view(r) == git_hit_of(*g, l, body_area(sidebar), x as int, y as int)
        },
{
    let area = panel_area(sidebar);
    let l = git_layout(g, area);
    assert(area == body_area(sidebar));
    assert(laid_out(*g, body_area(sidebar), l));
    let r = git_hit_in(g, &l, area, x, y);
    assert(hit_view(r) == git_hit_of(*g, l, body_area(sidebar), x as int, y as int));
    r
}

} // verus!
