//! The Git panel's layout: the change tree grouped by directory, the history
//! list, and where the fixed rows (branch, actions, commit box) sit.
use vstd::prelude::*;

use crate::extensions::{lemma_lex_irreflexive, lemma_lex_total, lemma_lex_transitive, lex_lt, str_lt};
use crate::git::GitEntry;
use crate::layout::{list_scroll, scroll_of};
use crate::model::GitStatus;
use crate::split::{split_chars, split_on};
use crate::text::{copy_str, str_eq};
use crate::ui::{sat_sub, Rect};

verus! {

/// Type of a scrollable content row in the Git panel.
#[derive(Clone, Debug, PartialEq, Eq)]
pub enum GitRowKind {
    StagedHeader,
    ChangesHeader,
    /// "Unstage All -" row (under the staged header).
    UnstageAll,
    /// "Stage All +" row (under the unstaged header).
    StageAll,
    /// Separator line.
    Separator,
    /// A directory node in the change tree (display only).
    Dir { name: String, depth: usize },
    /// A staged file: `idx` into `staged`, `depth` in the tree.
    Staged { idx: usize, depth: usize },
    /// An unstaged file: `idx` into `unstaged`, `depth` in the tree.
    Unstaged { idx: usize, depth: usize },
    /// Keyboard hint under the change list.
    Hint,
    /// The "HISTORY" heading.
    HistoryHeader,
    /// Keyboard hint under the HISTORY heading.
    HistoryHint,
    /// A previous commit: `idx` into `history`.
    Commit { idx: usize },
    Info(&'static str),
}

/// A row as plain values.
pub ghost enum RowV {
    StagedHeader,
    ChangesHeader,
    UnstageAll,
    StageAll,
    Separator,
    Dir(Seq<char>, int),
    Staged(int, int),
    Unstaged(int, int),
    Hint,
    HistoryHeader,
    HistoryHint,
    Commit(int),
    Info(Seq<char>),
}

pub open spec fn row_view(r: GitRowKind) -> RowV {
    match r {
        GitRowKind::StagedHeader => RowV::StagedHeader,
        GitRowKind::ChangesHeader => RowV::ChangesHeader,
        GitRowKind::UnstageAll => RowV::UnstageAll,
        GitRowKind::StageAll => RowV::StageAll,
        GitRowKind::Separator => RowV::Separator,
        GitRowKind::Dir { name, depth } => RowV::Dir(name@, depth as int),
        GitRowKind::Staged { idx, depth } => RowV::Staged(idx as int, depth as int),
        GitRowKind::Unstaged { idx, depth } => RowV::Unstaged(idx as int, depth as int),
        GitRowKind::Hint => RowV::Hint,
        GitRowKind::HistoryHeader => RowV::HistoryHeader,
        GitRowKind::HistoryHint => RowV::HistoryHint,
        GitRowKind::Commit { idx } => RowV::Commit(idx as int),
        GitRowKind::Info(s) => RowV::Info(s@),
    }
}

pub open spec fn rows_view(rs: Seq<GitRowKind>) -> Seq<RowV> {
    rs.map_values(|r: GitRowKind| row_view(r))
}

/// The directories of a relative path: its '/'-separated parts but the last.
pub open spec fn dirs_of(rel: Seq<char>) -> Seq<Seq<char>> {
    split_on(rel, '/').drop_last()
}

/// How many leading parts two lists share.
pub open spec fn common_prefix(a: Seq<Seq<char>>, b: Seq<Seq<char>>) -> nat
    decreases a.len(),
{
    if a.len() > 0 && b.len() > 0 && a[0] == b[0] { 1 + common_prefix(a.drop_first(), b.drop_first()) } else { 0 }
}

/// Directory rows for `dirs[from..]`, each at its depth.
pub open spec fn dir_rows(dirs: Seq<Seq<char>>, from: nat) -> Seq<RowV> {
    Seq::new((dirs.len() - from) as nat, |k: int| RowV::Dir(dirs[from + k], from + k))
}

pub open spec fn file_row(staged: bool, idx: int, depth: int) -> RowV {
    if staged { RowV::Staged(idx, depth) } else { RowV::Unstaged(idx, depth) }
}

/// The tree rows of the entries visited in `order`: before each file, the
/// directory rows it does not share with the previous file, then the file at
/// its directory depth.
pub open spec fn tree_rows_of(rels: Seq<Seq<char>>, order: Seq<int>, staged: bool) -> Seq<RowV>
    decreases order.len(),
{
    if order.len() == 0 {
        Seq::empty()
    } else {
        let prev = tree_rows_of(rels, order.drop_last(), staged);
        let i = order.last();
        let d = dirs_of(rels[i]);
        let pd = if order.len() >= 2 { dirs_of(rels[order[order.len() - 2]]) } else { Seq::empty() };
        prev + dir_rows(d, common_prefix(d, pd)) + seq![file_row(staged, i, d.len() as int)]
    }
}

/// `order` lists the positions of `rels` sorted by path (stably).
pub open spec fn sorted_by_path(rels: Seq<Seq<char>>, order: Seq<int>) -> bool {
    &&& order.len() == rels.len()
    &&& forall|k: int| 0 <= k < order.len() ==> 0 <= #[trigger] order[k] < rels.len()
    &&& forall|k: int, l: int| 0 <= k < l < order.len() ==> order[k] != order[l]
    &&& forall|k: int, l: int| 0 <= k < l < order.len() ==> path_before(rels, #[trigger] order[k], #[trigger] order[l])
}

pub open spec fn path_before(rels: Seq<Seq<char>>, i: int, j: int) -> bool {
    lex_lt(rels[i], rels[j]) || (rels[i] == rels[j] && i < j)
}

pub open spec fn rels_of(es: Seq<GitEntry>) -> Seq<Seq<char>> {
    es.map_values(|e: GitEntry| e.rel@)
}

/// The positions of the entries in path order (stable).
fn path_order(entries: &Vec<GitEntry>) -> (order: Vec<usize>)
    ensures
        sorted_by_path(rels_of(entries@), order@.map_values(|i: usize| i as int)),
{
    let ghost rels = rels_of(entries@);
    let mut order: Vec<usize> = Vec::new();
    let n = entries.len();
    for j in 0..n
        invariant
            n == entries@.len(),
            rels == rels_of(entries@),
            order@.len() == j,
            forall|k: int| 0 <= k < order@.len() ==> 0 <= #[trigger] order@[k] < j,
            forall|k: int, l: int| 0 <= k < l < order@.len() ==> order@[k] != order@[l],
            forall|k: int, l: int| 0 <= k < l < order@.len() ==> path_before(rels, #[trigger] order@[k] as int, #[trigger] order@[l] as int),
    {
        let mut p: usize = 0;
        let len = order.len();
        while p < len && !str_lt(entries[j].rel.as_str(), entries[order[p]].rel.as_str())
            invariant
                len == order@.len(),
                p <= len,
                n == entries@.len(),
                j < n,
                rels == rels_of(entries@),
                forall|k: int| 0 <= k < order@.len() ==> 0 <= #[trigger] order@[k] < j,
                forall|k: int| 0 <= k < p ==> path_before(rels, #[trigger] order@[k] as int, j as int),
            decreases len - p,
        {
            proof {
                let o = order@[p as int] as int;
                assert(rels[o] == entries@[o].rel@);
                assert(rels[j as int] == entries@[j as int].rel@);
                lemma_lex_total(rels[j as int], rels[o]);
            }
            p += 1;
        }
        proof {
            if p < len {
                let o = order@[p as int] as int;
                assert(rels[o] == entries@[o].rel@);
                assert(rels[j as int] == entries@[j as int].rel@);
                assert(path_before(rels, j as int, o));
            }
        }
        let ghost old_order = order@;
        order.insert(p, j);
        proof {
            assert forall|k: int| 0 <= k < order@.len() implies 0 <= #[trigger] order@[k] < j + 1 by {
                if k < p {
                    assert(order@[k] == old_order[k]);
                } else if k > p {
                    assert(order@[k] == old_order[k - 1]);
                }
            }
            assert forall|k: int, l: int| 0 <= k < l < order@.len() implies order@[k] != order@[l] by {
                if k < p && l < p {
                    assert(order@[k] == old_order[k] && order@[l] == old_order[l]);
                } else if k < p && l == p {
                    assert(order@[k] == old_order[k]);
                } else if k < p {
                    assert(order@[k] == old_order[k] && order@[l] == old_order[l - 1]);
                } else if k == p {
                    assert(order@[l] == old_order[l - 1]);
                } else {
                    assert(order@[k] == old_order[k - 1] && order@[l] == old_order[l - 1]);
                }
            }
            assert forall|k: int, l: int| 0 <= k < l < order@.len() implies path_before(rels, #[trigger] order@[k] as int, #[trigger] order@[l] as int) by {
                if k < p && l < p {
                    assert(order@[k] == old_order[k] && order@[l] == old_order[l]);
                } else if k < p && l == p {
                    assert(order@[k] == old_order[k]);
                } else if k < p {
                    assert(order@[k] == old_order[k] && order@[l] == old_order[l - 1]);
                } else if k == p {
                    assert(order@[l] == old_order[l - 1]);
                    let o = old_order[p as int] as int;
                    let q = old_order[l - 1] as int;
                    if l - 1 > p {
                        assert(path_before(rels, o, q));
                        if lex_lt(rels[j as int], rels[o]) && lex_lt(rels[o], rels[q]) {
                            lemma_lex_transitive(rels[j as int], rels[o], rels[q]);
                        }
                    }
                } else {
                    assert(order@[k] == old_order[k - 1] && order@[l] == old_order[l - 1]);
                }
            }
        }
    }
    assert(order@.map_values(|i: usize| i as int).len() == n);
    order
}

/// The directory parts of a relative path.
fn dir_parts(rel: &str) -> (r: Vec<String>)
    ensures
        r@.map_values(|x: String| x@) == dirs_of(rel@),
{
    let mut parts = split_chars(rel, '/');
    proof {
        crate::split::lemma_split_on_len(rel@, '/');
    }
    let ghost all = parts@;
    parts.pop();
    assert(parts@.map_values(|x: String| x@) =~= dirs_of(rel@));
    parts
}

/// How many leading parts two lists share.
fn shared_prefix(a: &Vec<String>, b: &Vec<String>) -> (n: usize)
    ensures
        n == common_prefix(a@.map_values(|x: String| x@), b@.map_values(|x: String| x@)),
        n <= a@.len(),
{
    let ghost av = a@.map_values(|x: String| x@);
    let ghost bv = b@.map_values(|x: String| x@);
    let mut c: usize = 0;
    assert(av.skip(0) =~= av);
    assert(bv.skip(0) =~= bv);
    while c < a.len() && c < b.len() && str_eq(a[c].as_str(), b[c].as_str())
        invariant
            av == a@.map_values(|x: String| x@),
            bv == b@.map_values(|x: String| x@),
            c <= a@.len(),
            c <= b@.len(),
            common_prefix(av, bv) == c + common_prefix(av.skip(c as int), bv.skip(c as int)),
        decreases a@.len() - c,
    {
        proof {
            assert(av.skip(c as int).drop_first() =~= av.skip(c + 1));
            assert(bv.skip(c as int).drop_first() =~= bv.skip(c + 1));
            assert(av.skip(c as int)[0] == av[c as int]);
            assert(bv.skip(c as int)[0] == bv[c as int]);
        }
        c += 1;
    }
    proof {
        if c < a@.len() && c < b@.len() {
            assert(av.skip(c as int)[0] == av[c as int]);
            assert(bv.skip(c as int)[0] == bv[c as int]);
        }
    }
    c
}

/// Appends the tree rows of `entries`: grouped by path like the explorer, a
/// directory row before the first file under it.
fn tree_rows(entries: &Vec<GitEntry>, staged: bool, rows: &mut Vec<GitRowKind>)
    ensures
        exists|order: Seq<int>| #![auto]
            sorted_by_path(rels_of(entries@), order) && rows_view(final(rows)@) == rows_view(old(rows)@) + tree_rows_of(rels_of(entries@), order, staged),
{
    let order = path_order(entries);
    let ghost ov = order@.map_values(|i: usize| i as int);
    let ghost rels = rels_of(entries@);
    let ghost start = rows_view(rows@);
    let mut prev: Vec<String> = Vec::new();
    let n = order.len();
    for t in 0..n
        invariant
            n == order@.len(),
            ov == order@.map_values(|i: usize| i as int),
            rels == rels_of(entries@),
            sorted_by_path(rels, ov),
            rows_view(rows@) == start + tree_rows_of(rels, ov.take(t as int), staged),
            t == 0 ==> prev@.len() == 0,
            t > 0 ==> prev@.map_values(|x: String| x@) == dirs_of(rels[ov[t - 1]]),
    {
        let i = order[t];
        assert(ov[t as int] == i as int);
        assert(rels[i as int] == entries@[i as int].rel@);
        let dirs = dir_parts(entries[i].rel.as_str());
        let common = shared_prefix(&dirs, &prev);
        let ghost d = dirs@.map_values(|x: String| x@);
        let ghost before = rows_view(rows@);
        let nd = dirs.len();
        for k in common..nd
            invariant
                common <= nd,
                nd == dirs@.len(),
                d == dirs@.map_values(|x: String| x@),
                rows_view(rows@) == before + dir_rows(d, common as nat).take(k - common),
        {
            let row = GitRowKind::Dir { name: copy_str(dirs[k].as_str()), depth: k };
            let ghost b2 = rows@;
            rows.push(row);
            assert(rows_view(rows@) =~= rows_view(b2).push(row_view(row)));
            assert(dir_rows(d, common as nat).take(k + 1 - common) =~= dir_rows(d, common as nat).take(k - common).push(RowV::Dir(d[k as int], k as int)));
        }
        assert(dir_rows(d, common as nat).take(nd - common) =~= dir_rows(d, common as nat));
        let ghost b3 = rows@;
        let file = if staged { GitRowKind::Staged { idx: i, depth: nd } } else { GitRowKind::Unstaged { idx: i, depth: nd } };
        rows.push(file);
        proof {
            assert(rows_view(rows@) =~= rows_view(b3).push(row_view(file)));
            let tk = ov.take(t + 1);
            assert(tk.drop_last() =~= ov.take(t as int));
            assert(tk.last() == i as int);
            if t > 0 {
                assert(tk[tk.len() - 2] == ov[t - 1]);
            }
            assert(rows_view(rows@) =~= start + tree_rows_of(rels, tk, staged));
        }
        prev = dirs;
    }
    assert(ov.take(n as int) =~= ov);
}

/// The rows of the Git panel's scrollable list, top to bottom.
pub open spec fn panel_rows(g: GitStatus, staged_order: Seq<int>, unstaged_order: Seq<int>) -> Seq<RowV> {
    if !g.is_repo {
        seq![RowV::Info("No git repository"@)]
    } else {
        let s = if g.staged@.len() > 0 {
            seq![RowV::StagedHeader, RowV::UnstageAll, RowV::Separator] + tree_rows_of(rels_of(g.staged@), staged_order, true)
        } else {
            Seq::empty()
        };
        let u = if g.unstaged@.len() > 0 {
            seq![RowV::ChangesHeader, RowV::StageAll, RowV::Separator] + tree_rows_of(rels_of(g.unstaged@), unstaged_order, false)
        } else {
            Seq::empty()
        };
        let tail = if g.staged@.len() == 0 && g.unstaged@.len() == 0 { seq![RowV::Info("No changes"@)] } else { seq![RowV::Hint] };
        let h = if g.history@.len() > 0 {
            seq![RowV::Separator, RowV::HistoryHeader, RowV::HistoryHint] + Seq::new(g.history@.len(), |k: int| RowV::Commit(k))
        } else {
            Seq::empty()
        };
        s + u + tail + h
    }
}

/// The first position whose row satisfies the selection, or 0.
pub open spec fn first_pos(rows: Seq<RowV>, staged: bool, commit: bool, idx: int) -> int
    decreases rows.len(),
{
    if rows.len() == 0 {
        0
    } else if row_selected(rows.last(), staged, commit, idx) && !(exists|k: int| 0 <= k < rows.len() - 1 && row_selected(#[trigger] rows[k], staged, commit, idx)) {
        rows.len() - 1
    } else {
        first_pos(rows.drop_last(), staged, commit, idx)
    }
}

pub open spec fn row_selected(r: RowV, staged: bool, commit: bool, idx: int) -> bool {
    match r {
        RowV::Commit(i) => commit && i == idx,
        RowV::Staged(i, _) => !commit && staged && i == idx,
        RowV::Unstaged(i, _) => !commit && !staged && i == idx,
        _ => false,
    }
}

/// What the combined selection index names: a commit, a staged change or an
/// unstaged one, and its index there.
pub open spec fn selection_of(g: GitStatus) -> (bool, bool, int) {
    let changes = g.staged@.len() + g.unstaged@.len();
    if g.selected >= changes {
        (false, true, g.selected - changes)
    } else if g.selected < g.staged@.len() {
        (true, false, g.selected as int)
    } else {
        (false, false, g.selected - g.staged@.len())
    }
}

/// The Git panel layout, shared by drawing and hit-testing.
pub struct GitLayout {
    pub rows: Vec<GitRowKind>,
    /// y of the branch row (only meaningful when `branch_shown`).
    pub branch_y: u16,
    pub branch_shown: bool,
    /// y of the first scrollable row.
    pub content_y: u16,
    /// Scrollable list height.
    pub list_h: u16,
    pub offset: usize,
    /// y of the fetch/pull/push row.
    pub actions_y: u16,
    /// Top y of the commit message input (4 rows).
    pub input_top: u16,
    /// y of the commit button row.
    pub button_y: u16,
    /// Whether the commit box is shown (a repository exists).
    pub has_box: bool,
}

/// The Git panel's layout for status `g` in `area`: the rows are the panel's
/// rows for some stable path order of each change list, scrolled to keep the
/// selection in view; the fixed block on top holds the branch row, the
/// fetch/pull/push row, the commit box and the commit buttons.
pub open spec fn laid_out(g: GitStatus, area: Rect, l: GitLayout) -> bool {
    &&& g.is_repo ==> exists|so: Seq<int>, uo: Seq<int>| #![auto]
        sorted_by_path(rels_of(g.staged@), so) && sorted_by_path(rels_of(g.unstaged@), uo)
        && rows_view(l.rows@) == panel_rows(g, so, uo)
    &&& !g.is_repo ==> rows_view(l.rows@) == seq![RowV::Info("No git repository"@)]
    &&& ({
        let (st, cm, ix) = selection_of(g);
        l.offset == scroll_of(first_pos(rows_view(l.rows@), st, cm, ix), l.rows@.len() as int, l.list_h as int)
    })
    &&& l.has_box == g.is_repo
    &&& l.branch_shown == (g.is_repo && g.branch is Some)
    &&& l.branch_y == area.y
    &&& g.is_repo ==> {
        &&& l.actions_y == area.y + (if g.branch is Some { 1int } else { 0int }) + 1
        &&& l.input_top == l.actions_y + 1
        &&& l.button_y == l.input_top + 4
        &&& l.content_y == l.button_y + 2
        &&& l.list_h == sat_sub(area.y + area.height, l.content_y as int)
    }
    &&& !g.is_repo ==> l.content_y == area.y && l.input_top == 0 && l.button_y == 0 && l.actions_y == 0 && l.list_h == area.height
}

/// Height of the commit message box.
pub const COMMIT_INPUT_H: u16 = 4;

fn position_of_selection(rows: &Vec<GitRowKind>, staged: bool, commit: bool, idx: usize) -> (p: usize)
    ensures
        p == first_pos(rows_view(rows@), staged, commit, idx as int),
{
    let ghost rv = rows_view(rows@);
    let n = rows.len();
    for k in 0..n
        invariant
            n == rows@.len(),
            rv == rows_view(rows@),
            forall|j: int| 0 <= j < k ==> !row_selected(#[trigger] rv[j], staged, commit, idx as int),
    {
        let hit = match &rows[k] {
            GitRowKind::Commit { idx: i } => commit && *i == idx,
            GitRowKind::Staged { idx: i, .. } => !commit && staged && *i == idx,
            GitRowKind::Unstaged { idx: i, .. } => !commit && !staged && *i == idx,
            _ => false,
        };
        assert(hit == row_selected(rv[k as int], staged, commit, idx as int));
        if hit {
            proof {
                lemma_first_pos_at(rv, staged, commit, idx as int, k as int);
            }
            return k;
        }
    }
    proof {
        lemma_first_pos_none(rv, staged, commit, idx as int);
    }
    0
}

proof fn lemma_first_pos_at(rv: Seq<RowV>, staged: bool, commit: bool, idx: int, k: int)
    requires
        0 <= k < rv.len(),
        row_selected(rv[k], staged, commit, idx),
        forall|j: int| 0 <= j < k ==> !row_selected(#[trigger] rv[j], staged, commit, idx),
    ensures
        first_pos(rv, staged, commit, idx) == k,
    decreases rv.len(),
{
    if k < rv.len() - 1 {
        assert(rv.drop_last()[k] == rv[k]);
        assert forall|j: int| 0 <= j < k implies !row_selected(#[trigger] rv.drop_last()[j], staged, commit, idx) by {
            assert(rv.drop_last()[j] == rv[j]);
        }
        lemma_first_pos_at(rv.drop_last(), staged, commit, idx, k);
        assert(exists|j: int| 0 <= j < rv.len() - 1 && row_selected(#[trigger] rv[j], staged, commit, idx)) by {
            assert(row_selected(rv[k], staged, commit, idx));
        }
    }
}

proof fn lemma_first_pos_none(rv: Seq<RowV>, staged: bool, commit: bool, idx: int)
    requires
        forall|j: int| 0 <= j < rv.len() ==> !row_selected(#[trigger] rv[j], staged, commit, idx),
    ensures
        first_pos(rv, staged, commit, idx) == 0,
    decreases rv.len(),
{
    if rv.len() > 0 {
        assert forall|j: int| 0 <= j < rv.drop_last().len() implies !row_selected(#[trigger] rv.drop_last()[j], staged, commit, idx) by {
            assert(rv.drop_last()[j] == rv[j]);
        }
        lemma_first_pos_none(rv.drop_last(), staged, commit, idx);
        assert(!row_selected(rv[rv.len() - 1], staged, commit, idx));
    }
}

/// Computes the Git panel layout in the panel body `area`: top to bottom the
/// branch row, a blank, the fetch/pull/push row, the commit box, the commit
/// button, a blank, then the scrollable list (changes, then history) running
/// to the bottom, scrolled to keep the selection visible.
pub fn git_layout(g: &GitStatus, area: Rect) -> (l: GitLayout)
    requires
        g.is_repo ==> area.y + area.height <= u16::MAX,
        g.is_repo ==> area.y + (if g.branch is Some { 1int } else { 0int }) + 8 <= u16::MAX,
        g.staged@.len() + g.unstaged@.len() + g.history@.len() <= usize::MAX,
    ensures
        laid_out(*g, area, l),
{
    let mut rows: Vec<GitRowKind> = Vec::new();
    let ghost mut so: Seq<int> = Seq::empty();
    let ghost mut uo: Seq<int> = Seq::empty();
    if !g.is_repo {
        rows.push(GitRowKind::Info("No git repository"));
        assert(rows_view(rows@) =~= seq![RowV::Info("No git repository"@)]);
    } else {
        let ghost s_part = if g.staged@.len() > 0 {
            seq![RowV::StagedHeader, RowV::UnstageAll, RowV::Separator]
        } else {
            Seq::<RowV>::empty()
        };
        if g.staged.len() > 0 {
            rows.push(GitRowKind::StagedHeader);
            rows.push(GitRowKind::UnstageAll);
            rows.push(GitRowKind::Separator);
            let ghost r0 = rows@;
            tree_rows(&g.staged, true, &mut rows);
            proof {
                assert(rows_view(r0) =~= seq![RowV::StagedHeader, RowV::UnstageAll, RowV::Separator]);
                so = choose|order: Seq<int>| #![auto] sorted_by_path(rels_of(g.staged@), order) && rows_view(rows@) == rows_view(r0) + tree_rows_of(rels_of(g.staged@), order, true);
            }
        } else {
            assert(rows_view(rows@) =~= Seq::<RowV>::empty());
            assert(sorted_by_path(rels_of(g.staged@), so));
        }
        let ghost after_staged = rows_view(rows@);
        assert(after_staged == (if g.staged@.len() > 0 {
            seq![RowV::StagedHeader, RowV::UnstageAll, RowV::Separator] + tree_rows_of(rels_of(g.staged@), so, true)
        } else {
            Seq::empty()
        }));
        if g.unstaged.len() > 0 {
            rows.push(GitRowKind::ChangesHeader);
            rows.push(GitRowKind::StageAll);
            rows.push(GitRowKind::Separator);
            let ghost r1 = rows@;
            tree_rows(&g.unstaged, false, &mut rows);
            proof {
                assert(rows_view(r1) =~= after_staged + seq![RowV::ChangesHeader, RowV::StageAll, RowV::Separator]);
                uo = choose|order: Seq<int>| #![auto] sorted_by_path(rels_of(g.unstaged@), order) && rows_view(rows@) == rows_view(r1) + tree_rows_of(rels_of(g.unstaged@), order, false);
                assert(rows_view(rows@) =~= after_staged + (seq![RowV::ChangesHeader, RowV::StageAll, RowV::Separator] + tree_rows_of(rels_of(g.unstaged@), uo, false)));
            }
        } else {
            assert(sorted_by_path(rels_of(g.unstaged@), uo));
            assert(rows_view(rows@) =~= after_staged + Seq::<RowV>::empty());
        }
        let ghost after_unstaged = rows_view(rows@);
        let ghost b4 = rows@;
        if g.staged.len() == 0 && g.unstaged.len() == 0 {
            rows.push(GitRowKind::Info("No changes"));
            assert(rows_view(rows@) =~= after_unstaged + seq![RowV::Info("No changes"@)]);
        } else {
            rows.push(GitRowKind::Hint);
            assert(rows_view(rows@) =~= after_unstaged + seq![RowV::Hint]);
        }
        let ghost after_tail = rows_view(rows@);
        let nh = g.history.len();
        if nh > 0 {
            rows.push(GitRowKind::Separator);
            rows.push(GitRowKind::HistoryHeader);
            rows.push(GitRowKind::HistoryHint);
            let ghost r2 = rows_view(rows@);
            assert(r2 =~= after_tail + seq![RowV::Separator, RowV::HistoryHeader, RowV::HistoryHint]);
            assert(r2 + Seq::new(0nat, |k: int| RowV::Commit(k)) =~= r2);
            for idx in 0..nh
                invariant
                    rows_view(rows@) == r2 + Seq::new(idx as nat, |k: int| RowV::Commit(k)),
            {
                let ghost b = rows@;
                rows.push(GitRowKind::Commit { idx });
                assert(rows_view(rows@) =~= rows_view(b).push(RowV::Commit(idx as int)));
                assert(r2 + Seq::new((idx + 1) as nat, |k: int| RowV::Commit(k)) =~= (r2 + Seq::new(idx as nat, |k: int| RowV::Commit(k))).push(RowV::Commit(idx as int)));
            }
            assert(rows_view(rows@) =~= after_tail + (seq![RowV::Separator, RowV::HistoryHeader, RowV::HistoryHint] + Seq::new(g.history@.len(), |k: int| RowV::Commit(k))));
        } else {
            assert(rows_view(rows@) =~= after_tail + Seq::<RowV>::empty());
        }
        assert(rows_view(rows@) =~= panel_rows(*g, so, uo));
    }
    proof {
        if g.staged@.len() == 0 {
            so = Seq::empty();
        }
        if g.unstaged@.len() == 0 {
            uo = Seq::empty();
        }
    }
    let has_box = g.is_repo;
    let top = area.y;
    let branch_shown = g.is_repo && g.branch.is_some();
    let (content_y, input_top, button_y, actions_y, list_h) = if has_box {
        let actions_y = top + if branch_shown { 1 } else { 0 } + 1;
        let input_top = actions_y + 1;
        let button_y = input_top + COMMIT_INPUT_H;
        let content_y = button_y + 2;
        let bottom = area.y + area.height;
        let list_h = if bottom > content_y { bottom - content_y } else { 0 };
        (content_y, input_top, button_y, actions_y, list_h)
    } else {
        (top, 0, 0, 0, area.height)
    };
    let changes = g.staged.len() + g.unstaged.len();
    let (st, cm, ix) = if g.selected >= changes {
        (false, true, g.selected - changes)
    } else if g.selected < g.staged.len() {
        (true, false, g.selected)
    } else {
        (false, false, g.selected - g.staged.len())
    };
    let sel_pos = position_of_selection(&rows, st, cm, ix);
    let offset = list_scroll(sel_pos, rows.len(), list_h as usize);
    GitLayout { rows, branch_y: top, branch_shown, content_y, list_h, offset, actions_y, input_top, button_y, has_box }
}

/// A path fitted into `max` columns: whole when it fits, else its last
/// `max - 1` characters behind '…' (so the file name stays visible), or '…'
/// alone when there is room for nothing more.
pub open spec fn fitted(rel: Seq<char>, max: nat) -> Seq<char> {
    if rel.len() <= max {
        rel
    } else if max <= 1 {
        seq!['…']
    } else {
        seq!['…'] + rel.skip(rel.len() - (max - 1))
    }
}

/// Fits a path into `max` columns, trimming it from the front.
pub fn fit_path(rel: &str, max: usize) -> (r: String)
    ensures
        r@ == fitted(rel@, max as nat),
{
    let cs = crate::text::chars_of(rel);
    let len = cs.len();
    if len <= max {
        return crate::text::copy_str(rel);
    }
    let mut out: Vec<char> = Vec::new();
    out.push('…');
    if max <= 1 {
        assert(out@ =~= seq!['…']);
        return crate::text::string_of(out.as_slice());
    }
    let from = len - (max - 1);
    for i in from..len
        invariant
            len == cs@.len(),
            cs@ == rel@,
            from <= len,
            out@ == seq!['…'] + rel@.subrange(from as int, i as int),
    {
        out.push(cs[i]);
        assert(out@ =~= seq!['…'] + rel@.subrange(from as int, i + 1));
    }
    assert(rel@.subrange(from as int, len as int) =~= rel@.skip(from as int));
    crate::text::string_of(out.as_slice())
}

} // verus!
