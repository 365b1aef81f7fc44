//! The editor's visual rows: buffer lines, with the lines a change removed
//! woven in below their anchor in a diff tab; and the reads the renderer and
//! the mouse make of them.
use vstd::prelude::*;

use crate::git::{blocks_view, CommitRow};
use crate::lsp::Severity;
use crate::model::{Diagnostic, DiffRow};
use crate::text::copy_str;

verus! {

/// A visual row as plain values.
pub ghost enum RowV {
    Real(nat),
    Deleted(Seq<char>),
}

impl DiffRow {
    pub open spec fn view(self) -> RowV {
        match self {
            DiffRow::Real(l) => RowV::Real(l as nat),
            DiffRow::Deleted(s) => RowV::Deleted(s@),
        }
    }
}

pub open spec fn rows_view(rs: Seq<DiffRow>) -> Seq<RowV> {
    rs.map_values(|r: DiffRow| r@)
}

/// The removed lines anchored at `at` (`None`: above the first line), block
/// after block.
pub open spec fn anchored(blocks: Seq<(Option<nat>, Seq<Seq<char>>)>, at: Option<nat>) -> Seq<Seq<char>>
    decreases blocks.len(),
{
    if blocks.len() == 0 {
        Seq::empty()
    } else {
        anchored(blocks.drop_last(), at) + if blocks.last().0 == at {
            blocks.last().1
        } else {
            Seq::empty()
        }
    }
}

pub open spec fn deleted_rows(ls: Seq<Seq<char>>) -> Seq<RowV> {
    ls.map_values(|l: Seq<char>| RowV::Deleted(l))
}

/// Lines `0..n`, each followed by the removed lines anchored after it, below
/// the removed lines anchored above the first line.
pub open spec fn woven(n: nat, blocks: Seq<(Option<nat>, Seq<Seq<char>>)>) -> Seq<RowV>
    decreases n,
{
    if n == 0 {
        deleted_rows(anchored(blocks, None))
    } else {
        woven((n - 1) as nat, blocks) + seq![RowV::Real((n - 1) as nat)] + deleted_rows(
            anchored(blocks, Some((n - 1) as nat)),
        )
    }
}

/// Lines `0..n`, one row each.
pub open spec fn plain_rows(n: nat) -> Seq<RowV> {
    Seq::new(n, |i: int| RowV::Real(i as nat))
}

/// Whether a tab weaves removed lines into its view: a diff tab that has some.
pub open spec fn weaves(diff_mode: bool, blocks: Seq<(Option<nat>, Seq<Seq<char>>)>) -> bool {
    diff_mode && blocks.len() > 0
}

/// Whether a tab weaves removed lines into its view.
pub fn has_inline_deletions(diff_mode: bool, blocks: &Vec<(Option<usize>, Vec<String>)>) -> (b: bool)
    ensures
        b == weaves(diff_mode, blocks_view(blocks@)),
{
    diff_mode && blocks.len() > 0
}

proof fn lemma_deleted_rows_add(a: Seq<Seq<char>>, b: Seq<Seq<char>>)
    ensures
        deleted_rows(a + b) == deleted_rows(a) + deleted_rows(b),
{
    assert(deleted_rows(a + b) =~= deleted_rows(a) + deleted_rows(b));
}

/// Appends, as rows, the removed lines anchored at `at`.
fn push_anchored(out: &mut Vec<DiffRow>, blocks: &Vec<(Option<usize>, Vec<String>)>, at: Option<usize>)
    ensures
        rows_view(final(out)@) == rows_view(old(out)@) + deleted_rows(
            anchored(
                blocks_view(blocks@),
                match at {
                    Some(a) => Some(a as nat),
                    None => None,
                },
            ),
        ),
{
    let ghost bv = blocks_view(blocks@);
    let ghost at_v: Option<nat> = match at {
        Some(a) => Some(a as nat),
        None => None,
    };
    let ghost start = rows_view(out@);
    let nb = blocks.len();
    assert(bv.take(0) =~= Seq::<(Option<nat>, Seq<Seq<char>>)>::empty());
    assert(start =~= start + deleted_rows(Seq::empty()));
    for b in 0..nb
        invariant
            nb == blocks@.len(),
            bv == blocks_view(blocks@),
            at_v == match at {
                Some(a) => Some(a as nat),
                None => None::<nat>,
            },
            rows_view(out@) == start + deleted_rows(anchored(bv.take(b as int), at_v)),
    {
        let anchor = blocks[b].0;
        let same = match (anchor, at) {
            (Some(x), Some(y)) => x == y,
            (None, None) => true,
            _ => false,
        };
        proof {
            assert(bv.take(b + 1).drop_last() =~= bv.take(b as int));
            assert(bv.take(b + 1).last() == bv[b as int]);
            assert(bv[b as int] == crate::git::block_view(blocks@[b as int]));
            assert(anchor == blocks@[b as int].0);
            assert(same <==> bv[b as int].0 == at_v);
        }
        if same {
            let ls = &blocks[b].1;
            let nl = ls.len();
            let ghost before = rows_view(out@);
            for k in 0..nl
                invariant
                    nl == ls@.len(),
                    ls@ == blocks@[b as int].1@,
                    rows_view(out@) == before + deleted_rows(ls@.take(k as int).map_values(|s: String| s@)),
            {
                let ghost prev = out@;
                out.push(DiffRow::Deleted(copy_str(&ls[k])));
                proof {
                    assert(ls@.take(k + 1).map_values(|s: String| s@) =~= ls@.take(k as int).map_values(
                        |s: String| s@,
                    ).push(ls@[k as int]@));
                    assert(rows_view(out@) =~= rows_view(prev) + seq![RowV::Deleted(ls@[k as int]@)]);
                    lemma_deleted_rows_add(
                        ls@.take(k as int).map_values(|s: String| s@),
                        seq![ls@[k as int]@],
                    );
                    assert(deleted_rows(seq![ls@[k as int]@]) =~= seq![RowV::Deleted(ls@[k as int]@)]);
                }
            }
            proof {
                assert(ls@.take(nl as int) =~= ls@);
                assert(bv[b as int].1 == ls@.map_values(|s: String| s@));
                assert(bv[b as int].0 == at_v);
                lemma_deleted_rows_add(anchored(bv.take(b as int), at_v), bv[b as int].1);
            }
        } else {
            proof {
                assert(bv[b as int].0 != at_v);
                assert(anchored(bv.take(b + 1), at_v) =~= anchored(bv.take(b as int), at_v));
            }
        }
    }
    proof {
        assert(bv.take(nb as int) =~= bv);
    }
}

/// The visual rows of a tab with `line_count` lines: one per line, or, in a
/// diff tab with removed lines, those lines woven in after their anchors.
pub fn display_rows(line_count: usize, blocks: &Vec<(Option<usize>, Vec<String>)>, diff_mode: bool) -> (r: Vec<DiffRow>)
    ensures
        rows_view(r@) == if weaves(diff_mode, blocks_view(blocks@)) {
            woven(line_count as nat, blocks_view(blocks@))
        } else {
            plain_rows(line_count as nat)
        },
{
    let mut out: Vec<DiffRow> = Vec::new();
    if !has_inline_deletions(diff_mode, blocks) {
        for r in 0..line_count
            invariant
                rows_view(out@) == plain_rows(r as nat),
        {
            let ghost prev = out@;
            out.push(DiffRow::Real(r));
            assert(rows_view(out@) =~= rows_view(prev).push(RowV::Real(r as nat)));
            assert(rows_view(out@) =~= plain_rows((r + 1) as nat));
        }
        return out;
    }
    let ghost bv = blocks_view(blocks@);
    assert(rows_view(out@) =~= Seq::<RowV>::empty());
    push_anchored(&mut out, blocks, None);
    assert(rows_view(out@) =~= woven(0, bv));
    for r in 0..line_count
        invariant
            bv == blocks_view(blocks@),
            rows_view(out@) == woven(r as nat, bv),
    {
        let ghost prev = out@;
        out.push(DiffRow::Real(r));
        assert(rows_view(out@) =~= rows_view(prev) + seq![RowV::Real(r as nat)]);
        push_anchored(&mut out, blocks, Some(r));
    }
    out
}

/// The first position from `from` on whose row is buffer line `l`.
pub open spec fn first_row_of(rows: Seq<RowV>, l: nat, from: int) -> Option<int>
    decreases rows.len() - from,
{
    if from < 0 || from >= rows.len() {
        None
    } else if rows[from] == RowV::Real(l) {
        Some(from)
    } else {
        first_row_of(rows, l, from + 1)
    }
}

/// The row at which drawing starts for a buffer scrolled to line `y`: the row
/// of line `y` (looked up directly when no removed line comes before it), or
/// the top when the line has no row.
pub open spec fn start_row(rows: Seq<RowV>, y: nat) -> int {
    if y == 0 {
        0
    } else if y < rows.len() && rows[y as int] == RowV::Real(y) {
        y as int
    } else {
        match first_row_of(rows, y, 0) {
            Some(k) => k,
            None => 0,
        }
    }
}

/// Whether row `r` is buffer line `l`.
fn is_line(r: &DiffRow, l: usize) -> (b: bool)
    ensures
        b == (r@ == RowV::Real(l as nat)),
{
    match r {
        DiffRow::Real(x) => *x == l,
        DiffRow::Deleted(_) => false,
    }
}

/// The display row to draw first for a buffer scrolled to line `scroll_y`.
pub fn diff_start(rows: &Vec<DiffRow>, scroll_y: usize) -> (r: usize)
    ensures
        r == start_row(rows_view(rows@), scroll_y as nat),
{
    let ghost rv = rows_view(rows@);
    if scroll_y == 0 {
        return 0;
    }
    if scroll_y < rows.len() && is_line(&rows[scroll_y], scroll_y) {
        return scroll_y;
    }
    let n = rows.len();
    let mut k: usize = 0;
    while k < n
        invariant
            n == rows@.len(),
            rv == rows_view(rows@),
            k <= n,
            scroll_y != 0,
            !(scroll_y < n && rv[scroll_y as int] == RowV::Real(scroll_y as nat)),
            first_row_of(rv, scroll_y as nat, 0) == first_row_of(rv, scroll_y as nat, k as int),
        decreases n - k,
    {
        if is_line(&rows[k], scroll_y) {
            return k;
        }
        k += 1;
    }
    0
}

/// The buffer line of the first real row at or after position `i`.
pub open spec fn line_from(rows: Seq<RowV>, i: int) -> Option<nat>
    decreases rows.len() - i,
{
    if i < 0 || i >= rows.len() {
        None
    } else {
        match rows[i] {
            RowV::Real(l) => Some(l),
            RowV::Deleted(_) => line_from(rows, i + 1),
        }
    }
}

/// The buffer line of the last real row at or before position `i`.
pub open spec fn line_upto(rows: Seq<RowV>, i: int) -> Option<nat>
    decreases i + 1,
{
    if i < 0 {
        None
    } else if i < rows.len() && rows[i] is Real {
        Some(rows[i]->Real_0)
    } else {
        line_upto(rows, i - 1)
    }
}

/// The buffer line under viewport row `offset` of a tab with `count` lines
/// scrolled to line `y`. Without woven rows that is line `y + offset`, kept
/// inside the buffer; with them, a removed row maps to the nearest real line
/// below it, else above it.
pub open spec fn line_under(rows: Seq<RowV>, inline: bool, y: nat, count: nat, offset: nat) -> nat {
    let last: nat = if count == 0 { 0 } else { (count - 1) as nat };
    if !inline {
        if y + offset <= last { y + offset } else { last }
    } else {
        let top = if rows.len() == 0 { 0 } else { rows.len() - 1 };
        let idx = if start_row(rows, y) + offset <= top { start_row(rows, y) + offset } else { top };
        match line_from(rows, idx) {
            Some(l) => l,
            None => match line_upto(rows, idx) {
                Some(l) => l,
                None => last,
            },
        }
    }
}

/// The buffer line under viewport row `offset` (0 is the top visible row) of
/// a tab with `line_count` lines scrolled to `scroll_y`; `inline` says whether
/// `rows` weaves removed lines in.
pub fn screen_row_to_line(rows: &Vec<DiffRow>, inline: bool, scroll_y: usize, line_count: usize, offset: usize) -> (r: usize)
    requires
        !inline ==> scroll_y + offset <= usize::MAX,
        inline ==> rows@.len() > 0,
        inline ==> start_row(rows_view(rows@), scroll_y as nat) + offset <= usize::MAX,
    ensures
        r == line_under(rows_view(rows@), inline, scroll_y as nat, line_count as nat, offset as nat),
{
    let ghost rv = rows_view(rows@);
    let last = if line_count == 0 { 0 } else { line_count - 1 };
    if !inline {
        let l = scroll_y + offset;
        return if l <= last { l } else { last };
    }
    let start = diff_start(rows, scroll_y);
    let top = rows.len() - 1;
    let idx = if start + offset <= top { start + offset } else { top };
    let n = rows.len();
    let ghost want = line_under(rv, inline, scroll_y as nat, line_count as nat, offset as nat);
    assert(want == match line_from(rv, idx as int) {
        Some(l) => l,
        None => match line_upto(rv, idx as int) {
            Some(l) => l,
            None => last as nat,
        },
    });
    let mut k = idx;
    while k < n
        invariant
            n == rows@.len(),
            rv == rows_view(rows@),
            want == line_under(rv, inline, scroll_y as nat, line_count as nat, offset as nat),
            want == match line_from(rv, idx as int) {
                Some(l) => l,
                None => match line_upto(rv, idx as int) {
                    Some(l) => l,
                    None => last as nat,
                },
            },
            idx <= k <= n,
            line_from(rv, idx as int) == line_from(rv, k as int),
        decreases n - k,
    {
        if let DiffRow::Real(l) = &rows[k] {
            return *l;
        }
        k += 1;
    }
    let mut k: usize = idx + 1;
    while k > 0
        invariant
            n == rows@.len(),
            rv == rows_view(rows@),
            line_from(rv, idx as int) is None,
            want == line_under(rv, inline, scroll_y as nat, line_count as nat, offset as nat),
            want == match line_upto(rv, idx as int) {
                Some(l) => l,
                None => last as nat,
            },
            k <= idx + 1,
            idx < n,
            line_upto(rv, idx as int) == line_upto(rv, k - 1),
        decreases k,
    {
        if let DiffRow::Real(l) = &rows[k - 1] {
            return *l;
        }
        k -= 1;
    }
    last
}

/// The highest code line number among a commit view's rows.
pub open spec fn highest_line(rows: Seq<CommitRow>) -> Option<nat>
    decreases rows.len(),
{
    if rows.len() == 0 {
        None
    } else {
        let before = highest_line(rows.drop_last());
        match rows.last() {
            CommitRow::Line(n) => match before {
                Some(m) => Some(if m >= n { m } else { n as nat }),
                None => Some(n as nat),
            },
            _ => before,
        }
    }
}

/// The largest number the gutter has to fit: the line count of a file tab,
/// or the highest code line number of a commit view (1 when it shows none).
pub open spec fn gutter_max(rows: Seq<CommitRow>, line_count: nat) -> nat {
    if rows.len() == 0 {
        line_count
    } else {
        match highest_line(rows) {
            Some(m) => m,
            None => 1,
        }
    }
}

/// The largest number the gutter of the active tab has to fit.
pub fn max_gutter_number(commit_rows: &Vec<CommitRow>, line_count: usize) -> (r: usize)
    ensures
        r == gutter_max(commit_rows@, line_count as nat),
{
    if commit_rows.len() == 0 {
        return line_count;
    }
    let mut best: Option<usize> = None;
    let n = commit_rows.len();
    for k in 0..n
        invariant
            n == commit_rows@.len(),
            match best {
                Some(b) => highest_line(commit_rows@.take(k as int)) == Some(b as nat),
                None => highest_line(commit_rows@.take(k as int)) is None,
            },
    {
        proof {
            assert(commit_rows@.take(k + 1).drop_last() =~= commit_rows@.take(k as int));
        }
        if let CommitRow::Line(x) = commit_rows[k] {
            best = match best {
                Some(b) => Some(if b >= x { b } else { x }),
                None => Some(x),
            };
        }
    }
    assert(commit_rows@.take(n as int) =~= commit_rows@);
    match best {
        Some(b) => b,
        None => 1,
    }
}

/// How many of `ds` have severity `s`.
pub open spec fn count_severity(ds: Seq<Diagnostic>, s: Severity) -> nat
    decreases ds.len(),
{
    if ds.len() == 0 {
        0
    } else {
        count_severity(ds.drop_last(), s) + if ds.last().severity == s {
            1nat
        } else {
            0nat
        }
    }
}

/// The (errors, warnings) among a buffer's diagnostics.
pub fn diagnostic_counts(diags: &Vec<Diagnostic>) -> (r: (usize, usize))
    ensures
        r.0 == count_severity(diags@, Severity::Error),
        r.1 == count_severity(diags@, Severity::Warning),
{
    let mut e: usize = 0;
    let mut w: usize = 0;
    let n = diags.len();
    for k in 0..n
        invariant
            n == diags@.len(),
            e == count_severity(diags@.take(k as int), Severity::Error),
            w == count_severity(diags@.take(k as int), Severity::Warning),
            e <= k,
            w <= k,
    {
        proof {
            assert(diags@.take(k + 1).drop_last() =~= diags@.take(k as int));
        }
        match diags[k].severity {
            Severity::Error => e += 1,
            Severity::Warning => w += 1,
            _ => {},
        }
    }
    assert(diags@.take(n as int) =~= diags@);
    (e, w)
}

/// Severity as a rank: errors first, hints last.
pub open spec fn rank(s: Severity) -> int {
    match s {
        Severity::Error => 0,
        Severity::Warning => 1,
        Severity::Info => 2,
        Severity::Hint => 3,
    }
}

/// Whether a diagnostic spans column `col` of line `line`.
pub open spec fn covers(d: Diagnostic, line: usize, col: usize) -> bool {
    d.line == line && d.col_start <= col && col <= d.col_end
}

fn severity_rank(s: Severity) -> (r: u8)
    ensures
        r == rank(s),
{
    match s {
        Severity::Error => 0,
        Severity::Warning => 1,
        Severity::Info => 2,
        Severity::Hint => 3,
    }
}

/// The diagnostic under the cursor, the most severe first (the earliest
/// among equals); `None` when none spans it.
pub fn diagnostic_at_cursor(diags: &Vec<Diagnostic>, line: usize, col: usize) -> (r: Option<usize>)
    ensures
        r is None <==> forall|k: int| 0 <= k < diags@.len() ==> !covers(#[trigger] diags@[k], line, col),
        r matches Some(i) ==> {
            &&& i < diags@.len()
            &&& covers(diags@[i as int], line, col)
            &&& forall|k: int|
                0 <= k < diags@.len() && covers(#[trigger] diags@[k], line, col) ==> rank(diags@[i as int].severity) <= rank(
                    diags@[k].severity,
                ) && (k < i ==> rank(diags@[k].severity) > rank(diags@[i as int].severity))
        },
{
    let mut best: Option<usize> = None;
    let n = diags.len();
    for k in 0..n
        invariant
            n == diags@.len(),
            best is None <==> forall|j: int| 0 <= j < k ==> !covers(#[trigger] diags@[j], line, col),
            best matches Some(i) ==> {
                &&& i < k
                &&& covers(diags@[i as int], line, col)
                &&& forall|j: int|
                    0 <= j < k && covers(#[trigger] diags@[j], line, col) ==> rank(diags@[i as int].severity) <= rank(
                        diags@[j].severity,
                    ) && (j < i ==> rank(diags@[j].severity) > rank(diags@[i as int].severity))
            },
    {
        let d = &diags[k];
        if d.line == line && d.col_start <= col && col <= d.col_end {
            match best {
                None => {
                    best = Some(k);
                },
                Some(i) => {
                    if severity_rank(d.severity) < severity_rank(diags[i].severity) {
                        best = Some(k);
                    }
                },
            }
        }
    }
    best
}

/// What refreshing the change gutter before a frame does.
#[derive(Clone, Copy, Debug, PartialEq, Eq, Structural)]
pub enum MarksStep {
    /// No tab is active: drop the markers and the row map.
    Clear,
    /// Rerun the whole-file diff (a tab switch, or a save, reload or HEAD load
    /// asked for it); this rebuilds the row map too.
    Recompute,
    /// The text changed: rebuild only the row map.
    Rebuild,
    /// Nothing changed.
    Keep,
}

pub open spec fn marks_step_of(
    active: Option<usize>,
    marks_tab: Option<usize>,
    dirty: bool,
    shown: Option<(usize, u64)>,
    version: u64,
) -> MarksStep {
    match active {
        None => MarksStep::Clear,
        Some(i) => if marks_tab != Some(i) || dirty {
            MarksStep::Recompute
        } else if shown != Some((i, version)) {
            MarksStep::Rebuild
        } else {
            MarksStep::Keep
        },
    }
}

/// What refreshing the change gutter does, given the active tab, the tab the
/// markers were computed for, whether a recompute was asked for, the (tab,
/// version) the row map was built for and the active tab's version.
pub fn marks_step(
    active: Option<usize>,
    marks_tab: Option<usize>,
    dirty: bool,
    shown: Option<(usize, u64)>,
    version: u64,
) -> (r: MarksStep)
    ensures
        r == marks_step_of(active, marks_tab, dirty, shown, version),
{
    let i = match active {
        None => return MarksStep::Clear,
        Some(i) => i,
    };
    let same_tab = match marks_tab {
        Some(t) => t == i,
        None => false,
    };
    if !same_tab || dirty {
        return MarksStep::Recompute;
    }
    let current = match shown {
        Some((t, v)) => t == i && v == version,
        None => false,
    };
    if current {
        MarksStep::Keep
    } else {
        MarksStep::Rebuild
    }
}

/// The buffer lines of the real rows, in row order.
pub open spec fn real_lines(rows: Seq<RowV>) -> Seq<nat>
    decreases rows.len(),
{
    if rows.len() == 0 {
        Seq::empty()
    } else {
        real_lines(rows.drop_last()) + match rows.last() {
            RowV::Real(l) => seq![l],
            RowV::Deleted(_) => Seq::empty(),
        }
    }
}

proof fn lemma_real_lines_add(a: Seq<RowV>, b: Seq<RowV>)
    ensures
        real_lines(a + b) == real_lines(a) + real_lines(b),
    decreases b.len(),
{
    if b.len() == 0 {
        assert(a + b =~= a);
        assert(real_lines(a) + real_lines(b) =~= real_lines(a));
    } else {
        assert((a + b).drop_last() =~= a + b.drop_last());
        lemma_real_lines_add(a, b.drop_last());
        assert(real_lines(a + b) =~= real_lines(a) + real_lines(b));
    }
}

proof fn lemma_real_lines_deleted(ls: Seq<Seq<char>>)
    ensures
        real_lines(deleted_rows(ls)) == Seq::<nat>::empty(),
    decreases ls.len(),
{
    if ls.len() > 0 {
        assert(deleted_rows(ls).drop_last() =~= deleted_rows(ls.drop_last()));
        lemma_real_lines_deleted(ls.drop_last());
    }
}

/// Woven rows show every buffer line exactly once, in order: whatever removed
/// lines a diff tab weaves in, dropping them gives back the plain lines.
pub proof fn law_woven_rows_keep_lines(n: nat, blocks: Seq<(Option<nat>, Seq<Seq<char>>)>)
    ensures
        real_lines(woven(n, blocks)) == Seq::new(n, |i: int| i as nat),
    decreases n,
{
    if n == 0 {
        lemma_real_lines_deleted(anchored(blocks, None));
        assert(real_lines(woven(n, blocks)) =~= Seq::new(n, |i: int| i as nat));
    } else {
        let m = (n - 1) as nat;
        law_woven_rows_keep_lines(m, blocks);
        lemma_real_lines_add(woven(m, blocks), seq![RowV::Real(m)]);
        lemma_real_lines_add(woven(m, blocks) + seq![RowV::Real(m)], deleted_rows(anchored(blocks, Some(m))));
        lemma_real_lines_deleted(anchored(blocks, Some(m)));
        assert(real_lines(seq![RowV::Real(m)]) =~= seq![m]) by {
            assert(seq![RowV::Real(m)].drop_last() =~= Seq::<RowV>::empty());
            assert(seq![RowV::Real(m)].last() == RowV::Real(m));
            assert(real_lines(Seq::<RowV>::empty()) == Seq::<nat>::empty());
            assert(real_lines(seq![RowV::Real(m)]) == real_lines(Seq::<RowV>::empty()) + seq![m]);
        }
        assert(real_lines(woven(n, blocks)) =~= Seq::new(n, |i: int| i as nat));
    }
}

proof fn lemma_woven_lines_below(n: nat, blocks: Seq<(Option<nat>, Seq<Seq<char>>)>, k: int)
    requires
        0 <= k < woven(n, blocks).len(),
        woven(n, blocks)[k] is Real,
    ensures
        woven(n, blocks)[k]->Real_0 < n,
    decreases n,
{
    if n > 0 {
        let m = (n - 1) as nat;
        let w = woven(m, blocks);
        if k < w.len() {
            lemma_woven_lines_below(m, blocks, k);
        }
    }
}

proof fn lemma_line_from_is_a_row(rows: Seq<RowV>, i: int)
    requires
        line_from(rows, i) is Some,
    ensures
        exists|k: int| 0 <= k < rows.len() && rows[k] == RowV::Real(line_from(rows, i)->0),
    decreases rows.len() - i,
{
    if rows[i] is Deleted {
        lemma_line_from_is_a_row(rows, i + 1);
    } else {
        assert(rows[i] == RowV::Real(line_from(rows, i)->0));
    }
}

proof fn lemma_line_upto_is_a_row(rows: Seq<RowV>, i: int)
    requires
        line_upto(rows, i) is Some,
    ensures
        exists|k: int| 0 <= k < rows.len() && rows[k] == RowV::Real(line_upto(rows, i)->0),
    decreases i + 1,
{
    if !(i < rows.len() && rows[i] is Real) {
        lemma_line_upto_is_a_row(rows, i - 1);
    } else {
        assert(rows[i] == RowV::Real(line_upto(rows, i)->0));
    }
}

/// A viewport row always maps to a line of the buffer, whatever the scroll
/// position and however far down the row is, for the rows a tab displays.
pub proof fn law_screen_row_in_buffer(
    n: nat,
    blocks: Seq<(Option<nat>, Seq<Seq<char>>)>,
    diff_mode: bool,
    y: nat,
    offset: nat,
)
    requires
        n > 0,
    ensures
        ({
            let inline = weaves(diff_mode, blocks);
            let rows = if inline { woven(n, blocks) } else { plain_rows(n) };
            line_under(rows, inline, y, n, offset) < n
        }),
{
    let inline = weaves(diff_mode, blocks);
    if inline {
        let rows = woven(n, blocks);
        let top = if rows.len() == 0 { 0 } else { rows.len() - 1 };
        let idx = if start_row(rows, y) + offset <= top { start_row(rows, y) + offset } else { top };
        if line_from(rows, idx) is Some {
            lemma_line_from_is_a_row(rows, idx);
            let k = choose|k: int| 0 <= k < rows.len() && rows[k] == RowV::Real(line_from(rows, idx)->0);
            lemma_woven_lines_below(n, blocks, k);
        } else if line_upto(rows, idx) is Some {
            lemma_line_upto_is_a_row(rows, idx);
            let k = choose|k: int| 0 <= k < rows.len() && rows[k] == RowV::Real(line_upto(rows, idx)->0);
            lemma_woven_lines_below(n, blocks, k);
        }
    }
}

} // verus!
