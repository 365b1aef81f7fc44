//! Git data: change states, the change gutter computed from a diff, the inline
//! view of a commit, and the decisions around the `git` command line.
use vstd::prelude::*;
use vstd::string::*;

use crate::num::{dec, u64_to_padded, u64_to_string, zero_pad};
use crate::split::{lines, lines_of, trim, trim_end, trim_end_str, trim_str};
use crate::paths::{extension, extension_of, file_name, file_name_of, parent, parent_of};
use crate::text::{chars_of, copy_str, string_of};

verus! {

#[derive(Clone, Copy, Debug, PartialEq, Eq, Structural)]
pub enum GitState {
    Added,
    Modified,
    Deleted,
    Untracked,
    Renamed,
    Conflicted,
}

impl GitState {
    pub fn short(&self) -> (c: char)
        ensures
            c == match *self {
                GitState::Added => 'A',
                GitState::Modified => 'M',
                GitState::Deleted => 'D',
                GitState::Untracked => 'U',
                GitState::Renamed => 'R',
                GitState::Conflicted => 'C',
            },
    {
        match self {
            GitState::Added => 'A',
            GitState::Modified => 'M',
            GitState::Deleted => 'D',
            GitState::Untracked => 'U',
            GitState::Renamed => 'R',
            GitState::Conflicted => 'C',
        }
    }
}

pub struct GitEntry {
    pub path: String,
    pub rel: String,
    pub state: GitState,
}

/// A previous commit shown in the HISTORY section of the Git panel.
pub struct GitCommit {
    /// Abbreviated commit hash (7 chars).
    pub hash: String,
    /// First line of the commit message.
    pub summary: String,
}

/// The repository state as loaded from disk.
pub struct GitStatus {
    pub branch: Option<String>,
    /// Changes added to the index (staged).
    pub staged: Vec<GitEntry>,
    /// Changes in the working tree (unstaged).
    pub unstaged: Vec<GitEntry>,
    pub is_repo: bool,
    pub ahead: usize,
    pub behind: usize,
    pub has_upstream: bool,
    pub has_remote: bool,
    /// Recent commits (newest first).
    pub history: Vec<GitCommit>,
}

impl Default for GitStatus {
    fn default() -> (s: Self)
        ensures
            s.branch is None,
            s.staged@.len() == 0,
            s.unstaged@.len() == 0,
            !s.is_repo,
            s.ahead == 0,
            s.behind == 0,
            !s.has_upstream,
            !s.has_remote,
            s.history@.len() == 0,
    {
        GitStatus {
            branch: None,
            staged: Vec::new(),
            unstaged: Vec::new(),
            is_repo: false,
            ahead: 0,
            behind: 0,
            has_upstream: false,
            has_remote: false,
            history: Vec::new(),
        }
    }
}

/// Per-line marker in the editor gutter (working tree vs HEAD).
#[derive(Clone, Copy, PartialEq, Eq, Debug, Structural)]
pub enum GutterKind {
    /// Added or modified line (green bar).
    Added,
    /// A deletion boundary sits right at this line (red wedge).
    Deleted,
}

/// What one row of a commit's diff view is.
#[derive(Clone, Copy, PartialEq, Eq, Debug, Structural)]
pub enum CommitRow {
    Author,
    Meta,
    Message,
    File,
    Gap,
    /// A code line, carrying its line number in the commit's version of the file.
    Line(usize),
}

/// The two sides of a commit's changes, laid out for the inline diff view.
pub struct CommitDiff {
    /// The parent's side of every hunk.
    pub old: String,
    /// This commit's side of every hunk.
    pub new: String,
    /// What each line of `new` is (one entry per line of `new`).
    pub rows: Vec<CommitRow>,
    /// Extension of the file with the most changed lines.
    pub syntax_ext: Option<String>,
}

// ----- gutter marks and deleted blocks -----

/// One hunk of a zero-context line diff: 1-based starts and line counts.
#[derive(Clone, Copy, PartialEq, Eq, Debug, Structural)]
pub struct Hunk {
    pub old_start: u32,
    pub old_lines: u32,
    pub new_start: u32,
    pub new_lines: u32,
}

/// The hunks libgit2 finds between two texts (zero lines of context).
pub uninterp spec fn diff_hunks_of(old: Seq<char>, new: Seq<char>) -> Option<Seq<Hunk>>;

/// `git2::Patch::from_buffers` with zero context lines: the hunk headers of
/// the line diff from `old` to `new`, or `None` when libgit2 reports an error.
/// The hunks are named, not stated; a hunk libgit2 cannot read is left out.
#[verifier::external_body]
fn diff_hunks(old: &str, new: &str) -> (r: Option<Vec<Hunk>>)
    ensures
        r is Some <==> diff_hunks_of(old@, new@) is Some,
        r is Some ==> r.unwrap()@ == diff_hunks_of(old@, new@).unwrap(),
{
    let mut opts = git2::DiffOptions::new();
    opts.context_lines(0);
    let p = git2::Patch::from_buffers(old.as_bytes(), None, new.as_bytes(), None, Some(&mut opts)).ok()?;
    Some((0..p.num_hunks()).filter_map(|h| p.hunk(h).ok()).map(|(h, _)| Hunk {
        old_start: h.old_start(),
        old_lines: h.old_lines(),
        new_start: h.new_start(),
        new_lines: h.new_lines(),
    }).collect())
}

pub open spec fn sat_dec(n: u32) -> nat {
    if n == 0 { 0 } else { (n - 1) as nat }
}

/// Whether line `k` (0-based) is one of the hunk's new lines (that a `usize` can index).
pub open spec fn in_hunk(h: Hunk, k: nat) -> bool {
    sat_dec(h.new_start) <= k < sat_dec(h.new_start) + h.new_lines && k <= usize::MAX
}

/// The marks of one hunk laid over those of the earlier hunks: added /
/// modified lines turn green (overwriting), a pure deletion puts a red wedge
/// on the line before the removed block unless that line already has a mark.
pub open spec fn mark_hunk(m: Map<nat, GutterKind>, h: Hunk) -> Map<nat, GutterKind> {
    if h.new_lines > 0 {
        Map::new(
            |k: nat| m.contains_key(k) || in_hunk(h, k),
            |k: nat|
                if in_hunk(h, k) {
                    GutterKind::Added
                } else {
                    m[k]
                },
        )
    } else if h.old_lines > 0 {
        let a = sat_dec(h.new_start);
        if m.contains_key(a) { m } else { m.insert(a, GutterKind::Deleted) }
    } else {
        m
    }
}

/// Gutter marks of a sequence of hunks.
pub open spec fn marks_of(hs: Seq<Hunk>) -> Map<nat, GutterKind>
    decreases hs.len(),
{
    if hs.len() == 0 {
        Map::empty()
    } else {
        mark_hunk(marks_of(hs.drop_last()), hs.last())
    }
}

/// A list of `(line, mark)` pairs with distinct lines, read as a map.
pub open spec fn marks_map(v: Seq<(usize, GutterKind)>) -> Map<nat, GutterKind>
    decreases v.len(),
{
    if v.len() == 0 {
        Map::empty()
    } else {
        marks_map(v.drop_last()).insert(v.last().0 as nat, v.last().1)
    }
}

pub open spec fn distinct_lines(v: Seq<(usize, GutterKind)>) -> bool {
    forall|i: int, j: int| 0 <= i < j < v.len() ==> v[i].0 != v[j].0
}

proof fn lemma_marks_map_keys(v: Seq<(usize, GutterKind)>)
    requires
        distinct_lines(v),
    ensures
        forall|k: nat| #[trigger] marks_map(v).contains_key(k) <==> exists|i: int| 0 <= i < v.len() && v[i].0 == k,
        forall|i: int| 0 <= i < v.len() ==> #[trigger] marks_map(v)[v[i].0 as nat] == v[i].1,
    decreases v.len(),
{
    if v.len() > 0 {
        let w = v.drop_last();
        assert(distinct_lines(w));
        lemma_marks_map_keys(w);
        assert forall|k: nat| #[trigger] marks_map(v).contains_key(k) <==> exists|i: int| 0 <= i < v.len() && v[i].0 == k by {
            assert(marks_map(v) == marks_map(w).insert(v.last().0 as nat, v.last().1));
            if marks_map(v).contains_key(k) && k != v.last().0 {
                assert(marks_map(w).contains_key(k));
                let i = choose|i: int| 0 <= i < w.len() && w[i].0 == k;
                assert(v[i].0 == k);
            }
            if marks_map(v).contains_key(k) && k == v.last().0 {
                assert(v[v.len() - 1].0 == k);
            }
            if exists|i: int| 0 <= i < v.len() && v[i].0 == k {
                let i = choose|i: int| 0 <= i < v.len() && v[i].0 == k;
                if i < w.len() {
                    assert(w[i].0 == k);
                }
            }
        }
        assert forall|i: int| 0 <= i < v.len() implies #[trigger] marks_map(v)[v[i].0 as nat] == v[i].1 by {
            assert(marks_map(v) == marks_map(w).insert(v.last().0 as nat, v.last().1));
            if i < w.len() {
                assert(w[i] == v[i]);
                assert(v[i].0 != v.last().0);
                assert(marks_map(w)[w[i].0 as nat] == w[i].1);
            }
        }
    }
}

/// Sets `line` to `kind` in a distinct-line list (overwriting or appending).
fn put_mark(v: &mut Vec<(usize, GutterKind)>, line: usize, kind: GutterKind, overwrite: bool)
    requires
        distinct_lines(old(v)@),
    ensures
        distinct_lines(final(v)@),
        marks_map(final(v)@) == if overwrite || !marks_map(old(v)@).contains_key(line as nat) {
            marks_map(old(v)@).insert(line as nat, kind)
        } else {
            marks_map(old(v)@)
        },
{
    proof {
        lemma_marks_map_keys(old(v)@);
    }
    let n = v.len();
    for i in 0..n
        invariant
            n == v@.len(),
            v@ == old(v)@,
            distinct_lines(v@),
            forall|j: int| 0 <= j < i ==> v@[j].0 != line,
    {
        if v[i].0 == line {
            if overwrite {
                let ghost before = v@;
                v[i] = (line, kind);
                proof {
                    let after = v@;
                    assert(distinct_lines(after)) by {
                        assert forall|a: int, b: int| 0 <= a < b < after.len() implies after[a].0 != after[b].0 by {
                            assert(before[a].0 == after[a].0 && before[b].0 == after[b].0);
                        }
                    }
                    lemma_marks_map_keys(after);
                    lemma_marks_map_keys(before);
                    let m1 = marks_map(after);
                    let m2 = marks_map(before).insert(line as nat, kind);
                    assert forall|k: nat| m1.contains_key(k) <==> m2.contains_key(k) by {
                        if m2.contains_key(k) && k != line {
                            assert(marks_map(before).contains_key(k));
                            let j = choose|j: int| 0 <= j < before.len() && before[j].0 == k;
                            assert(after[j].0 == k);
                        }
                        if m2.contains_key(k) && k == line {
                            assert(after[i as int].0 == k);
                        }
                        if m1.contains_key(k) {
                            let j = choose|j: int| 0 <= j < after.len() && after[j].0 == k;
                            assert(before[j].0 == k);
                        }
                    }
                    assert forall|k: nat| m1.contains_key(k) implies m1[k] == m2[k] by {
                        let j = choose|j: int| 0 <= j < after.len() && after[j].0 == k;
                        assert(m1[after[j].0 as nat] == after[j].1);
                        if j != i {
                            assert(before[j] == after[j]);
                        }
                    }
                    assert(m1 =~= m2);
                }
            } else {
                proof {
                    lemma_marks_map_keys(v@);
                    assert(v@[i as int].0 == line);
                    assert(marks_map(v@).contains_key(line as nat));
                }
            }
            return;
        }
    }
    proof {
        assert(!marks_map(v@).contains_key(line as nat));
        assert(v@.push((line, kind)).drop_last() == v@);
    }
    v.push((line, kind));
    proof {
        assert(distinct_lines(v@)) by {
            assert forall|a: int, b: int| 0 <= a < b < v@.len() implies v@[a].0 != v@[b].0 by {
                if b == n {
                    assert(old(v)@[a].0 != line);
                } else {
                    assert(old(v)@[a] == v@[a] && old(v)@[b] == v@[b]);
                }
            }
        }
    }
}

/// Per-line gutter markers (line index, kind) for the difference between `old`
/// (HEAD) and `new` (buffer); each line appears once. Empty when the diff fails.
pub fn gutter_marks(old: &str, new: &str) -> (r: Vec<(usize, GutterKind)>)
    ensures
        distinct_lines(r@),
        marks_map(r@) == match diff_hunks_of(old@, new@) {
            Some(hs) => marks_of(hs),
            None => Map::empty(),
        },
{
    let mut marks: Vec<(usize, GutterKind)> = Vec::new();
    let hunks = match diff_hunks(old, new) {
        Some(h) => h,
        None => {
            return marks;
        },
    };
    let ghost hs = hunks@;
    let nh = hunks.len();
    for h in 0..nh
        invariant
            nh == hunks@.len(),
            hs == hunks@,
            distinct_lines(marks@),
            marks_map(marks@) == marks_of(hs.take(h as int)),
    {
        let hk = hunks[h];
        proof {
            assert(hs.take(h + 1).drop_last() == hs.take(h as int));
            assert(hs.take(h + 1).last() == hk);
        }
        let start: usize = if hk.new_start == 0 { 0 } else { (hk.new_start - 1) as usize };
        if hk.new_lines > 0 {
            let ghost m0 = marks_of(hs.take(h as int));
            let cnt = hk.new_lines as usize;
            for i in 0..cnt
                invariant
                    distinct_lines(marks@),
                    start as nat == sat_dec(hk.new_start),
                    cnt == hk.new_lines,
                    marks_map(marks@) == Map::new(
                        |k: nat| m0.contains_key(k) || (start <= k < start + i && k <= usize::MAX),
                        |k: nat| if start <= k < start + i && k <= usize::MAX { GutterKind::Added } else { m0[k] },
                    ),
            {
                match start.checked_add(i) {
                    Some(line) => {
                        put_mark(&mut marks, line, GutterKind::Added, true);
                    },
                    None => {},
                }
                proof {
                    assert(marks_map(marks@) =~= Map::new(
                        |k: nat| m0.contains_key(k) || (start <= k < start + i + 1 && k <= usize::MAX),
                        |k: nat| if start <= k < start + i + 1 && k <= usize::MAX { GutterKind::Added } else { m0[k] },
                    ));
                }
            }
            proof {
                assert(marks_map(marks@) =~= mark_hunk(m0, hk));
            }
        } else if hk.old_lines > 0 {
            put_mark(&mut marks, start, GutterKind::Deleted, false);
        }
    }
    proof {
        assert(hs.take(nh as int) == hs);
    }
    marks
}


/// The removed lines of one hunk, placed for an inline view: `(anchor, lines)`
/// renders `lines` right after buffer line `anchor` (`None` = before line 0).
/// Pure additions, and hunks whose removed lines are all out of range, give none.
pub open spec fn block_of(h: Hunk, old_lines: Seq<Seq<char>>) -> Option<(Option<nat>, Seq<Seq<char>>)> {
    let n = old_lines.len() as int;
    let lo = sat_dec(h.old_start) as int;
    let a = if lo < n { lo } else { n };
    let b = if lo + h.old_lines < n { lo + h.old_lines } else { n };
    let removed = old_lines.subrange(a, b);
    if h.old_lines == 0 || removed.len() == 0 {
        None
    } else {
        let anchor = if h.new_lines > 0 {
            let f = sat_dec(h.new_start);
            if f == 0 { None } else { Some((f - 1) as nat) }
        } else {
            if h.new_start == 0 { None } else { Some((h.new_start - 1) as nat) }
        };
        Some((anchor, removed))
    }
}

/// The removed blocks of a sequence of hunks, in hunk order.
pub open spec fn blocks_of(hs: Seq<Hunk>, old_lines: Seq<Seq<char>>) -> Seq<(Option<nat>, Seq<Seq<char>>)>
    decreases hs.len(),
{
    if hs.len() == 0 {
        Seq::empty()
    } else {
        let prev = blocks_of(hs.drop_last(), old_lines);
        match block_of(hs.last(), old_lines) {
            Some(b) => prev.push(b),
            None => prev,
        }
    }
}

pub open spec fn block_view(b: (Option<usize>, Vec<String>)) -> (Option<nat>, Seq<Seq<char>>) {
    (
        match b.0 {
            Some(a) => Some(a as nat),
            None => None,
        },
        b.1@.map_values(|s: String| s@),
    )
}

pub open spec fn blocks_view(v: Seq<(Option<usize>, Vec<String>)>) -> Seq<(Option<nat>, Seq<Seq<char>>)> {
    v.map_values(|b: (Option<usize>, Vec<String>)| block_view(b))
}

/// Removed line blocks for an inline diff view (old side of deletions and of
/// modifications), in hunk order. Empty when the diff fails.
pub fn deleted_blocks(old: &str, new: &str) -> (r: Vec<(Option<usize>, Vec<String>)>)
    ensures
        blocks_view(r@) == match diff_hunks_of(old@, new@) {
            Some(hs) => blocks_of(hs, lines(old@)),
            None => Seq::empty(),
        },
{
    let mut out: Vec<(Option<usize>, Vec<String>)> = Vec::new();
    let hunks = match diff_hunks(old, new) {
        Some(h) => h,
        None => {
            assert(blocks_view(out@) =~= Seq::<(Option<nat>, Seq<Seq<char>>)>::empty());
            return out;
        },
    };
    let old_lines = lines_of(old);
    let ghost ol = lines(old@);
    let ghost hs = hunks@;
    let n = old_lines.len();
    let nh = hunks.len();
    assert(blocks_view(out@) =~= blocks_of(hs.take(0), ol));
    for h in 0..nh
        invariant
            nh == hunks@.len(),
            hs == hunks@,
            ol == lines(old@),
            n == old_lines@.len(),
            n == ol.len(),
            forall|i: int| 0 <= i < n ==> #[trigger] old_lines@[i]@ == ol[i],
            blocks_view(out@) == blocks_of(hs.take(h as int), ol),
    {
        let hk = hunks[h];
        proof {
            assert(hs.take(h + 1).drop_last() == hs.take(h as int));
            assert(hs.take(h + 1).last() == hk);
        }
        if hk.old_lines > 0 {
            let lo: usize = if hk.old_start == 0 { 0 } else { (hk.old_start - 1) as usize };
            let a = if lo < n { lo } else { n };
            let b = if (hk.old_lines as usize) < n - a { a + hk.old_lines as usize } else { n };
            proof {
                assert(b == (if lo + hk.old_lines < n { lo + hk.old_lines } else { n as int }));
            }
            let mut removed: Vec<String> = Vec::new();
            for k in a..b
                invariant
                    a <= b <= n,
                    n == old_lines@.len(),
                    n == ol.len(),
                    forall|i: int| 0 <= i < n ==> #[trigger] old_lines@[i]@ == ol[i],
                    removed@.map_values(|s: String| s@) == ol.subrange(a as int, k as int),
            {
                let line = copy_str(old_lines[k].as_str());
                proof {
                    assert(removed@.push(line).map_values(|s: String| s@) =~= removed@.map_values(|s: String| s@).push(line@));
                    assert(ol.subrange(a as int, k + 1) == ol.subrange(a as int, k as int).push(ol[k as int]));
                }
                removed.push(line);
            }
            if removed.len() > 0 {
                let anchor: Option<usize> = if hk.new_lines > 0 {
                    let f: usize = if hk.new_start == 0 { 0 } else { (hk.new_start - 1) as usize };
                    if f == 0 { None } else { Some(f - 1) }
                } else {
                    if hk.new_start == 0 { None } else { Some((hk.new_start - 1) as usize) }
                };
                let ghost before = out@;
                out.push((anchor, removed));
                proof {
                    assert(blocks_view(out@) =~= blocks_view(before).push(block_view((anchor, removed))));
                }
            }
        }
    }
    proof {
        assert(hs.take(nh as int) == hs);
    }
    out
}

// ----- dates -----

/// Days since the Unix epoch -> (year, month, day), by the era / day-of-era
/// decomposition of the proleptic Gregorian calendar.
#[verifier::opaque]
pub open spec fn civil_spec(z: int) -> (int, u32, u32) {
    let z = z + 719_468;
    let era = z / 146_097;
    let doe = z % 146_097;
    let yoe = (doe - doe / 1460 + doe / 36_524 - doe / 146_096) / 365;
    let y = yoe + era * 400;
    let doy = doe - (365 * yoe + yoe / 4 - yoe / 100);
    let mp = (5 * doy + 2) / 153;
    let d = (doy - (153 * mp + 2) / 5 + 1) as u32;
    let m = (if mp < 10 { mp + 3 } else { mp - 9 }) as u32;
    (if m <= 2 { y + 1 } else { y }, m, d)
}

/// Days since the Unix epoch -> (year, month, day).
#[verifier::spinoff_prover]
#[verifier::rlimit(40)]
pub fn civil_from_days(z: i64) -> (r: (i64, u32, u32))
    requires
        z <= i64::MAX - 719_468,
    ensures
        (r.0 as int, r.1, r.2) == civil_spec(z as int),
        -30_000_000_000_000_000 <= r.0 <= 30_000_000_000_000_000,
{
    let z = z + 719_468;
    let era = z.checked_div_euclid(146_097).unwrap();
    let doe = z.checked_rem_euclid(146_097).unwrap();
    assert(0 <= doe < 146_097);
    let yoe = (doe - doe / 1460 + doe / 36_524 - doe / 146_096) / 365;
    assert(0 <= yoe <= 400);
    assert(-63_200_000_000_000 <= era <= 63_200_000_000_000) by (nonlinear_arith)
        requires
            era == z as int / 146_097,
            i64::MIN <= z <= i64::MAX;
    let y = yoe + era * 400;
    let doy = doe - (365 * yoe + yoe / 4 - yoe / 100);
    assert(-200 <= doy <= 146_097);
    let mp = (5 * doy + 2) / 153;
    let d = (doy - (153 * mp + 2) / 5 + 1) as u32;
    let m = (if mp < 10 { mp + 3 } else { mp - 9 }) as u32;
    proof {
        reveal(civil_spec);
    }
    (if m <= 2 { y + 1 } else { y }, m, d)
}


/// A year as `{:04}` prints it: zero-padded to four characters, sign included.
pub open spec fn year_text(y: int) -> Seq<char> {
    if y < 0 { seq!['-'] + zero_pad(dec((-y) as nat), 3) } else { zero_pad(dec(y as nat), 4) }
}

pub open spec fn two(n: int) -> Seq<char> {
    zero_pad(dec(n as nat), 2)
}

/// "YYYY-MM-DD" of a day number.
pub open spec fn date_spec(days: int) -> Seq<char> {
    let (y, m, d) = civil_spec(days);
    year_text(y) + seq!['-'] + two(m as int) + seq!['-'] + two(d as int)
}

/// "HH:MM:SS" of a second within a day.
pub open spec fn clock_spec(secs: int) -> Seq<char> {
    two(secs / 3600) + seq![':'] + two((secs % 3600) / 60) + seq![':'] + two(secs % 60)
}

/// "+ZZZZ" / "-ZZZZ" of a UTC offset in minutes.
pub open spec fn zone_spec(offset_minutes: int) -> Seq<char> {
    let off = if offset_minutes < 0 { -offset_minutes } else { offset_minutes };
    seq![if offset_minutes < 0 { '-' } else { '+' }] + two(off / 60) + two(off % 60)
}

/// "YYYY-MM-DD HH:MM:SS +ZZZZ" for a commit time in its own timezone.
pub open spec fn format_time_spec(seconds: int, offset_minutes: int) -> Seq<char> {
    let local = seconds + offset_minutes * 60;
    date_spec(local / 86_400) + seq![' '] + clock_spec(local % 86_400) + seq![' '] + zone_spec(offset_minutes)
}

fn push_two(out: &mut String, n: u64)
    ensures
        final(out)@ == old(out)@ + two(n as int),
{
    let t = u64_to_padded(n, 2);
    out.append(t.as_str());
}

fn date_text(days: i64) -> (r: String)
    requires
        -106_751_991_167_301 <= days <= 106_751_991_167_301,
    ensures
        r@ == date_spec(days as int),
{
    let (y, m, d) = civil_from_days(days);
    let mut out = String::new();
    if y < 0 {
        out.push('-');
        let t = u64_to_padded((-y) as u64, 3);
        out.append(t.as_str());
    } else {
        let t = u64_to_padded(y as u64, 4);
        out.append(t.as_str());
    }
    let ghost ys = out@;
    out.push('-');
    push_two(&mut out, m as u64);
    out.push('-');
    push_two(&mut out, d as u64);
    proof {
        assert(ys == year_text(y as int));
        assert(out@ =~= date_spec(days as int));
    }
    out
}

fn clock_text(secs: i64) -> (r: String)
    requires
        0 <= secs < 86_400,
    ensures
        r@ == clock_spec(secs as int),
{
    let mut out = String::new();
    push_two(&mut out, (secs / 3600) as u64);
    out.push(':');
    push_two(&mut out, ((secs % 3600) / 60) as u64);
    out.push(':');
    push_two(&mut out, (secs % 60) as u64);
    assert(out@ =~= clock_spec(secs as int));
    out
}

fn zone_text(offset_min: i64) -> (r: String)
    requires
        i32::MIN <= offset_min <= i32::MAX,
    ensures
        r@ == zone_spec(offset_min as int),
{
    let mut out = String::new();
    out.push(if offset_min < 0 { '-' } else { '+' });
    let off = if offset_min < 0 { -offset_min } else { offset_min };
    push_two(&mut out, (off / 60) as u64);
    push_two(&mut out, (off % 60) as u64);
    assert(out@ =~= zone_spec(offset_min as int));
    out
}

/// A commit time (seconds since the epoch, UTC offset in minutes) as
/// "YYYY-MM-DD HH:MM:SS +ZZZZ" in the commit's own timezone.
pub fn format_time(seconds: i64, offset_minutes: i32) -> (r: String)
    requires
        i64::MIN <= seconds + offset_minutes * 60 <= i64::MAX,
    ensures
        r@ == format_time_spec(seconds as int, offset_minutes as int),
{
    let offset_min = offset_minutes as i64;
    let local = seconds + offset_min * 60;
    let days = local.checked_div_euclid(86_400).unwrap();
    let secs = local.checked_rem_euclid(86_400).unwrap();
    assert(-106_751_991_167_301 <= days <= 106_751_991_167_301) by (nonlinear_arith)
        requires
            days == local as int / 86_400,
            i64::MIN <= local <= i64::MAX;
    let mut out = date_text(days);
    out.push(' ');
    let c = clock_text(secs);
    out.append(c.as_str());
    out.push(' ');
    let z = zone_text(offset_min);
    out.append(z.as_str());
    assert(out@ =~= format_time_spec(seconds as int, offset_minutes as int));
    out
}


// ----- the inline view of a commit -----

/// How a file changed in a commit.
#[derive(Clone, Copy, PartialEq, Eq, Debug, Structural)]
pub enum DeltaStatus {
    Added,
    Deleted,
    Modified,
    Renamed,
    Copied,
    Other,
}

/// One line of a hunk, as the diff reports it.
pub struct PatchLine {
    /// '+' (added), '-' (removed), ' ' (context), or the origin of a marker line.
    pub origin: char,
    /// Its number in the commit's version of the file, when it has one there.
    pub new_lineno: Option<u32>,
    /// Its text, line ending included.
    pub text: String,
}

/// One file a commit changed.
pub struct FileChange {
    pub status: DeltaStatus,
    pub new_path: Option<String>,
    pub old_path: Option<String>,
    /// Lines added and removed.
    pub added: usize,
    pub removed: usize,
    /// The hunks, each as its lines; `None` when there is no text patch (a binary file).
    pub hunks: Option<Vec<Vec<PatchLine>>>,
}

/// What the header of a commit's view shows.
pub struct CommitInfo {
    pub author_name: String,
    pub author_email: String,
    /// Commit time: seconds since the epoch and the UTC offset in minutes.
    pub seconds: i64,
    pub offset_minutes: i32,
    /// The full commit id.
    pub id: String,
    pub message: String,
}

/// One row of the view: on both sides, only on the parent's, or only on the commit's.
pub ghost enum ViewLine {
    Both(Seq<char>, CommitRow),
    Removed(Seq<char>),
    Added(Seq<char>, usize),
}

/// `text` as one line: a '\n' is added unless it already ends with one.
pub open spec fn line_of(text: Seq<char>) -> Seq<char> {
    if text.len() > 0 && text.last() == '\n' { text } else { text.push('\n') }
}

pub open spec fn old_part(l: ViewLine) -> Seq<char> {
    match l {
        ViewLine::Both(t, _) => line_of(t),
        ViewLine::Removed(t) => line_of(t),
        ViewLine::Added(_, _) => Seq::empty(),
    }
}

pub open spec fn new_part(l: ViewLine) -> Seq<char> {
    match l {
        ViewLine::Both(t, _) => line_of(t),
        ViewLine::Removed(_) => Seq::empty(),
        ViewLine::Added(t, _) => line_of(t),
    }
}

pub open spec fn row_part(l: ViewLine) -> Seq<CommitRow> {
    match l {
        ViewLine::Both(_, k) => seq![k],
        ViewLine::Removed(_) => Seq::empty(),
        ViewLine::Added(_, n) => seq![CommitRow::Line(n)],
    }
}

/// The parent's text of a view.
pub open spec fn old_side(ls: Seq<ViewLine>) -> Seq<char>
    decreases ls.len(),
{
    if ls.len() == 0 { Seq::empty() } else { old_side(ls.drop_last()) + old_part(ls.last()) }
}

/// The commit's text of a view.
pub open spec fn new_side(ls: Seq<ViewLine>) -> Seq<char>
    decreases ls.len(),
{
    if ls.len() == 0 { Seq::empty() } else { new_side(ls.drop_last()) + new_part(ls.last()) }
}

/// What each line of the commit's text is.
pub open spec fn rows_of(ls: Seq<ViewLine>) -> Seq<CommitRow>
    decreases ls.len(),
{
    if ls.len() == 0 { Seq::empty() } else { rows_of(ls.drop_last()) + row_part(ls.last()) }
}

pub proof fn lemma_sides_concat(a: Seq<ViewLine>, b: Seq<ViewLine>)
    ensures
        old_side(a + b) == old_side(a) + old_side(b),
        new_side(a + b) == new_side(a) + new_side(b),
        rows_of(a + b) == rows_of(a) + rows_of(b),
    decreases b.len(),
{
    if b.len() == 0 {
        assert(a + b =~= a);
        assert(old_side(a) + old_side(b) =~= old_side(a));
        assert(new_side(a) + new_side(b) =~= new_side(a));
        assert(rows_of(a) + rows_of(b) =~= rows_of(a));
    } else {
        lemma_sides_concat(a, b.drop_last());
        assert((a + b).drop_last() =~= a + b.drop_last());
        assert((a + b).last() == b.last());
        assert(old_side(a + b) =~= old_side(a) + old_side(b));
        assert(new_side(a + b) =~= new_side(a) + new_side(b));
        assert(rows_of(a + b) =~= rows_of(a) + rows_of(b));
    }
}

pub open spec fn gap() -> ViewLine {
    ViewLine::Both(Seq::empty(), CommitRow::Gap)
}

/// A line's text without one trailing '\n'.
pub open spec fn strip_nl(t: Seq<char>) -> Seq<char> {
    if t.len() > 0 && t.last() == '\n' { t.drop_last() } else { t }
}

/// The row a diff line becomes: context on both sides, an addition numbered
/// in the commit's file, a removal; marker lines ("\ No newline at end of
/// file") are not content.
pub open spec fn patch_line_view(l: PatchLine) -> Seq<ViewLine> {
    let t = strip_nl(l.text@);
    if l.origin == ' ' && l.new_lineno is Some {
        seq![ViewLine::Both(t, CommitRow::Line(l.new_lineno.unwrap() as usize))]
    } else if l.origin == '+' && l.new_lineno is Some {
        seq![ViewLine::Added(t, l.new_lineno.unwrap() as usize)]
    } else if l.origin == '-' {
        seq![ViewLine::Removed(t)]
    } else {
        Seq::empty()
    }
}

pub open spec fn hunk_view(ls: Seq<PatchLine>) -> Seq<ViewLine>
    decreases ls.len(),
{
    if ls.len() == 0 { Seq::empty() } else { hunk_view(ls.drop_last()) + patch_line_view(ls.last()) }
}

/// The hunks of a file, a blank row between two of them.
pub open spec fn hunks_view(hs: Seq<Vec<PatchLine>>) -> Seq<ViewLine>
    decreases hs.len(),
{
    if hs.len() == 0 {
        Seq::empty()
    } else {
        hunks_view(hs.drop_last()) + (if hs.len() > 1 { seq![gap()] } else { Seq::empty() })
            + hunk_view(hs.last()@)
    }
}

/// The non-empty parts, two spaces between them.
pub open spec fn join_nonempty(parts: Seq<Seq<char>>) -> Seq<char>
    decreases parts.len(),
{
    if parts.len() == 0 {
        Seq::empty()
    } else {
        let rest = join_nonempty(parts.drop_last());
        let p = parts.last();
        if p.len() == 0 {
            rest
        } else if rest.len() == 0 {
            p
        } else {
            rest + "  "@ + p
        }
    }
}

pub open spec fn status_word(s: DeltaStatus) -> Seq<char> {
    match s {
        DeltaStatus::Added => "(new file)"@,
        DeltaStatus::Deleted => "(deleted)"@,
        DeltaStatus::Renamed => "(renamed)"@,
        DeltaStatus::Copied => "(renamed)"@,
        _ => Seq::empty(),
    }
}

/// The path a file heading names: the old one for a deletion, else the new one
/// (the old one when there is none).
pub open spec fn heading_path(f: FileChange) -> Seq<char> {
    let p = match f.status {
        DeltaStatus::Deleted => f.old_path,
        _ => if f.new_path is Some { f.new_path } else { f.old_path },
    };
    match p {
        Some(s) => s@,
        None => Seq::empty(),
    }
}

pub open spec fn name_part(p: Seq<char>) -> Seq<char> {
    match file_name_of(p) {
        Some(n) => n,
        None => Seq::empty(),
    }
}

pub open spec fn dir_part(p: Seq<char>) -> Seq<char> {
    match parent_of(p) {
        Some(d) => if d.len() > 0 { d + "/"@ } else { Seq::empty() },
        None => Seq::empty(),
    }
}

pub open spec fn counts_part(added: nat, removed: nat) -> Seq<char> {
    "+"@ + dec(added) + " -"@ + dec(removed)
}

/// The heading above a file's hunks: name, directory, status word and line
/// counts, e.g. "model.rs  src/app/  +3 -1".
pub open spec fn heading_of(f: FileChange) -> Seq<char> {
    let p = heading_path(f);
    join_nonempty(seq![name_part(p), dir_part(p), status_word(f.status), counts_part(f.added as nat, f.removed as nat)])
}

pub open spec fn file_view(f: FileChange) -> Seq<ViewLine> {
    seq![gap(), ViewLine::Both(heading_of(f), CommitRow::File)] + match f.hunks {
        None => seq![ViewLine::Both("    (binary file)"@, CommitRow::Message)],
        Some(hs) => hunks_view(hs@),
    }
}

pub open spec fn files_view(fs: Seq<FileChange>) -> Seq<ViewLine>
    decreases fs.len(),
{
    if fs.len() == 0 { Seq::empty() } else { files_view(fs.drop_last()) + file_view(fs.last()) }
}

pub open spec fn author_line(c: CommitInfo) -> Seq<char> {
    c.author_name@ + "  <"@ + c.author_email@ + ">"@
}

pub open spec fn meta_line(c: CommitInfo) -> Seq<char> {
    format_time_spec(c.seconds as int, c.offset_minutes as int) + "  ·  "@ + c.id@
}

pub open spec fn message_view(ls: Seq<Seq<char>>) -> Seq<ViewLine> {
    ls.map_values(|l: Seq<char>| ViewLine::Both(l, CommitRow::Message))
}

/// Author, date and id, a blank row, then the message (trailing whitespace cut).
pub open spec fn header_view(c: CommitInfo) -> Seq<ViewLine> {
    seq![
        ViewLine::Both(author_line(c), CommitRow::Author),
        ViewLine::Both(meta_line(c), CommitRow::Meta),
        gap(),
    ] + message_view(lines(trim_end(c.message@)))
}

/// The whole view of a commit: its header, then each changed file.
pub open spec fn commit_view(c: CommitInfo, fs: Seq<FileChange>) -> Seq<ViewLine> {
    header_view(c) + files_view(fs)
}

/// The extension of a changed file's path (its new path, else its old one).
pub open spec fn ext_of_change(f: FileChange) -> Option<Seq<char>> {
    let p = if f.new_path is Some { f.new_path } else { f.old_path };
    match p {
        Some(s) => extension_of(s@),
        None => None,
    }
}

/// Among the files with a text patch and an extension, the first with the
/// most changed lines: its count and extension.
pub open spec fn busiest(fs: Seq<FileChange>) -> Option<(int, Seq<char>)>
    decreases fs.len(),
{
    if fs.len() == 0 {
        None
    } else {
        let prev = busiest(fs.drop_last());
        let f = fs.last();
        if f.hunks is Some && ext_of_change(f) is Some && (prev is None || f.added + f.removed > prev.unwrap().0) {
            Some((f.added + f.removed, ext_of_change(f).unwrap()))
        } else {
            prev
        }
    }
}

/// Whether every file's line counts can be added up.
pub open spec fn counts_fit(fs: Seq<FileChange>) -> bool {
    forall|i: int| 0 <= i < fs.len() ==> #[trigger] fs[i].added + fs[i].removed <= usize::MAX
}

/// Accumulates the two sides of the view line by line, keeping `rows` aligned
/// with the lines of `new`.
struct ViewBuilder {
    old: String,
    new: String,
    rows: Vec<CommitRow>,
}

spec fn shows(v: ViewBuilder, ls: Seq<ViewLine>) -> bool {
    v.old@ == old_side(ls) && v.new@ == new_side(ls) && v.rows@ == rows_of(ls)
}

/// Appends `text` as one line, adding the line ending it may be missing.
fn push_line(out: &mut String, text: &str)
    ensures
        final(out)@ == old(out)@ + line_of(text@),
{
    out.append(text);
    let cs = chars_of(text);
    let n = cs.len();
    if !(n > 0 && cs[n - 1] == '\n') {
        out.push('\n');
    }
}

impl ViewBuilder {
    /// A row present on both sides: unchanged context, so it stays uncolored.
    fn both(&mut self, text: &str, kind: CommitRow, Ghost(ls): Ghost<Seq<ViewLine>>)
        requires
            shows(*old(self), ls),
        ensures
            shows(*final(self), ls.push(ViewLine::Both(text@, kind))),
    {
        push_line(&mut self.old, text);
        push_line(&mut self.new, text);
        self.rows.push(kind);
        assert(ls.push(ViewLine::Both(text@, kind)).drop_last() =~= ls);
        assert(self.rows@ =~= rows_of(ls) + seq![kind]);
    }

    /// A line the commit removed: only the parent has it.
    fn removed(&mut self, text: &str, Ghost(ls): Ghost<Seq<ViewLine>>)
        requires
            shows(*old(self), ls),
        ensures
            shows(*final(self), ls.push(ViewLine::Removed(text@))),
    {
        push_line(&mut self.old, text);
        assert(ls.push(ViewLine::Removed(text@)).drop_last() =~= ls);
        assert(self.rows@ =~= rows_of(ls) + Seq::<CommitRow>::empty());
        assert(self.new@ =~= new_side(ls) + Seq::<char>::empty());
    }

    /// A line the commit added: only this side has it, numbered `lineno`.
    fn added(&mut self, text: &str, lineno: usize, Ghost(ls): Ghost<Seq<ViewLine>>)
        requires
            shows(*old(self), ls),
        ensures
            shows(*final(self), ls.push(ViewLine::Added(text@, lineno))),
    {
        push_line(&mut self.new, text);
        self.rows.push(CommitRow::Line(lineno));
        assert(ls.push(ViewLine::Added(text@, lineno)).drop_last() =~= ls);
        assert(self.rows@ =~= rows_of(ls) + seq![CommitRow::Line(lineno)]);
        assert(self.old@ =~= old_side(ls) + Seq::<char>::empty());
    }
}

/// `t` without one trailing '\n'.
fn strip_newline(t: &str) -> (r: String)
    ensures
        r@ == strip_nl(t@),
{
    let mut cs = chars_of(t);
    let n = cs.len();
    if n > 0 && cs[n - 1] == '\n' {
        cs.pop();
    }
    string_of(cs.as_slice())
}

fn add_patch_line(v: &mut ViewBuilder, l: &PatchLine, Ghost(ls): Ghost<Seq<ViewLine>>)
    requires
        shows(*old(v), ls),
    ensures
        shows(*final(v), ls + patch_line_view(*l)),
{
    let text = strip_newline(l.text.as_str());
    match l.new_lineno {
        Some(n) if l.origin == ' ' => {
            v.both(text.as_str(), CommitRow::Line(n as usize), Ghost(ls));
            assert(ls.push(ViewLine::Both(text@, CommitRow::Line(n as usize))) =~= ls + patch_line_view(*l));
        },
        Some(n) if l.origin == '+' => {
            v.added(text.as_str(), n as usize, Ghost(ls));
            assert(ls.push(ViewLine::Added(text@, n as usize)) =~= ls + patch_line_view(*l));
        },
        _ => {
            if l.origin == '-' {
                v.removed(text.as_str(), Ghost(ls));
                assert(ls.push(ViewLine::Removed(text@)) =~= ls + patch_line_view(*l));
            } else {
                assert(ls + patch_line_view(*l) =~= ls);
            }
        },
    }
}

fn add_hunk(v: &mut ViewBuilder, h: &Vec<PatchLine>, Ghost(ls): Ghost<Seq<ViewLine>>)
    requires
        shows(*old(v), ls),
    ensures
        shows(*final(v), ls + hunk_view(h@)),
{
    let n = h.len();
    for j in 0..n
        invariant
            n == h@.len(),
            shows(*v, ls + hunk_view(h@.take(j as int))),
    {
        let ghost before = ls + hunk_view(h@.take(j as int));
        add_patch_line(v, &h[j], Ghost(before));
        proof {
            assert(h@.take(j + 1).drop_last() =~= h@.take(j as int));
            assert(h@.take(j + 1).last() == h@[j as int]);
            assert(before + patch_line_view(h@[j as int]) =~= ls + hunk_view(h@.take(j + 1)));
        }
    }
    assert(h@.take(n as int) =~= h@);
}

/// The heading above a file's hunks, e.g. "model.rs  src/app/  +3 -1".
pub fn file_heading(f: &FileChange) -> (r: String)
    ensures
        r@ == heading_of(*f),
{
    let path: String = match f.status {
        DeltaStatus::Deleted => match &f.old_path {
            Some(p) => copy_str(p.as_str()),
            None => String::new(),
        },
        _ => match &f.new_path {
            Some(p) => copy_str(p.as_str()),
            None => match &f.old_path {
                Some(p) => copy_str(p.as_str()),
                None => String::new(),
            },
        },
    };
    let name = match file_name(path.as_str()) {
        Some(n) => n,
        None => String::new(),
    };
    let dir = match parent(path.as_str()) {
        Some(d) => {
            if d.as_str().is_empty() {
                String::new()
            } else {
                let mut s = d;
                s.append("/");
                s
            }
        },
        None => String::new(),
    };
    let what = match f.status {
        DeltaStatus::Added => String::from_str("(new file)"),
        DeltaStatus::Deleted => String::from_str("(deleted)"),
        DeltaStatus::Renamed => String::from_str("(renamed)"),
        DeltaStatus::Copied => String::from_str("(renamed)"),
        _ => String::new(),
    };
    let mut counts = String::from_str("+");
    let a = u64_to_string(f.added as u64);
    counts.append(a.as_str());
    counts.append(" -");
    let d = u64_to_string(f.removed as u64);
    counts.append(d.as_str());
    let parts: Vec<String> = vec![name, dir, what, counts];
    let ghost ps = seq![name_part(path@), dir_part(path@), status_word(f.status), counts_part(f.added as nat, f.removed as nat)];
    assert(path@ == heading_path(*f));
    let mut out = String::new();
    let n = parts.len();
    assert(n == 4);
    for i in 0..n
        invariant
            n == parts@.len(),
            n == ps.len(),
            forall|k: int| 0 <= k < n ==> #[trigger] parts@[k]@ == ps[k],
            out@ == join_nonempty(ps.take(i as int)),
    {
        proof {
            assert(ps.take(i + 1).drop_last() =~= ps.take(i as int));
            assert(ps.take(i + 1).last() == ps[i as int]);
        }
        let p = &parts[i];
        if !p.as_str().is_empty() {
            if !out.as_str().is_empty() {
                out.append("  ");
            }
            out.append(p.as_str());
        }
    }
    assert(ps.take(n as int) =~= ps);
    out
}

fn add_file(v: &mut ViewBuilder, f: &FileChange, Ghost(ls): Ghost<Seq<ViewLine>>)
    requires
        shows(*old(v), ls),
    ensures
        shows(*final(v), ls + file_view(*f)),
{
    proof {
        reveal_strlit("");
        assert(""@ =~= Seq::<char>::empty());
    }
    v.both("", CommitRow::Gap, Ghost(ls));
    let heading = file_heading(f);
    let ghost l1 = ls.push(gap());
    v.both(heading.as_str(), CommitRow::File, Ghost(l1));
    let ghost l2 = l1.push(ViewLine::Both(heading_of(*f), CommitRow::File));
    assert(l2 =~= ls + seq![gap(), ViewLine::Both(heading_of(*f), CommitRow::File)]);
    match &f.hunks {
        None => {
            v.both("    (binary file)", CommitRow::Message, Ghost(l2));
            assert(l2.push(ViewLine::Both("    (binary file)"@, CommitRow::Message)) =~= ls + file_view(*f));
        },
        Some(hs) => {
            let nh = hs.len();
            for h in 0..nh
                invariant
                    nh == hs@.len(),
                    shows(*v, l2 + hunks_view(hs@.take(h as int))),
            {
                proof {
                    reveal_strlit("");
                    assert(""@ =~= Seq::<char>::empty());
                    assert(hs@.take(h + 1).drop_last() =~= hs@.take(h as int));
                    assert(hs@.take(h + 1).last() == hs@[h as int]);
                }
                let ghost base = l2 + hunks_view(hs@.take(h as int));
                if h > 0 {
                    v.both("", CommitRow::Gap, Ghost(base));
                    add_hunk(v, &hs[h], Ghost(base.push(gap())));
                    assert(base.push(gap()) + hunk_view(hs@[h as int]@) =~= l2 + hunks_view(hs@.take(h + 1)));
                } else {
                    add_hunk(v, &hs[h], Ghost(base));
                    assert(base + hunk_view(hs@[h as int]@) =~= l2 + hunks_view(hs@.take(h + 1)));
                }
            }
            assert(hs@.take(nh as int) =~= hs@);
            assert(l2 + hunks_view(hs@) =~= ls + file_view(*f));
        },
    }
}

/// The extension of the file with the most changed lines (the first such file
/// on a tie), among those with a text patch: it picks the syntax of the view.
pub fn busiest_extension(files: &Vec<FileChange>) -> (r: Option<String>)
    requires
        counts_fit(files@),
    ensures
        match busiest(files@) {
            Some((_, e)) => r is Some && r.unwrap()@ == e,
            None => r is None,
        },
{
    let mut best: Option<(usize, String)> = None;
    let n = files.len();
    for i in 0..n
        invariant
            n == files@.len(),
            counts_fit(files@),
            match busiest(files@.take(i as int)) {
                Some((c, e)) => best is Some && best.unwrap().0 == c && best.unwrap().1@ == e,
                None => best is None,
            },
    {
        proof {
            assert(files@.take(i + 1).drop_last() =~= files@.take(i as int));
            assert(files@.take(i + 1).last() == files@[i as int]);
        }
        let f = &files[i];
        assert(f.added + f.removed <= usize::MAX);
        if f.hunks.is_some() {
            let p = match &f.new_path {
                Some(p) => Some(p),
                None => match &f.old_path {
                    Some(p) => Some(p),
                    None => None,
                },
            };
            let ext = match p {
                Some(p) => extension(p.as_str()),
                None => None,
            };
            match ext {
                Some(e) => {
                    let count = f.added + f.removed;
                    let better = match &best {
                        None => true,
                        Some((c, _)) => count > *c,
                    };
                    if better {
                        best = Some((count, e));
                    }
                },
                None => {},
            }
        }
    }
    assert(files@.take(n as int) =~= files@);
    match best {
        Some((_, e)) => Some(e),
        None => None,
    }
}

/// Lays out a commit's changes for the inline diff view: the header (author,
/// date and id, message), then each file's heading and hunks.
pub fn build_commit_view(info: &CommitInfo, files: &Vec<FileChange>) -> (r: CommitDiff)
    requires
        i64::MIN <= info.seconds + info.offset_minutes * 60 <= i64::MAX,
        counts_fit(files@),
    ensures
        r.old@ == old_side(commit_view(*info, files@)),
        r.new@ == new_side(commit_view(*info, files@)),
        r.rows@ == rows_of(commit_view(*info, files@)),
        match busiest(files@) {
            Some((_, e)) => r.syntax_ext is Some && r.syntax_ext.unwrap()@ == e,
            None => r.syntax_ext is None,
        },
{
    let mut v = ViewBuilder { old: String::new(), new: String::new(), rows: Vec::new() };
    proof {
        reveal_strlit("");
        assert(""@ =~= Seq::<char>::empty());
        assert(v.rows@ =~= rows_of(Seq::<ViewLine>::empty()));
    }
    let mut author = copy_str(info.author_name.as_str());
    author.append("  <");
    author.append(info.author_email.as_str());
    author.append(">");
    v.both(author.as_str(), CommitRow::Author, Ghost(Seq::empty()));
    let ghost l1 = seq![ViewLine::Both(author_line(*info), CommitRow::Author)];
    assert(Seq::<ViewLine>::empty().push(ViewLine::Both(author_line(*info), CommitRow::Author)) =~= l1);
    let mut meta = format_time(info.seconds, info.offset_minutes);
    meta.append("  ·  ");
    meta.append(info.id.as_str());
    v.both(meta.as_str(), CommitRow::Meta, Ghost(l1));
    let ghost l2 = l1.push(ViewLine::Both(meta_line(*info), CommitRow::Meta));
    v.both("", CommitRow::Gap, Ghost(l2));
    let ghost l3 = l2.push(gap());
    let trimmed = trim_end_str(info.message.as_str());
    let msg = lines_of(trimmed.as_str());
    let ghost ml = lines(trim_end(info.message@));
    assert(l3 + message_view(ml.take(0)) =~= l3);
    let nm = msg.len();
    for i in 0..nm
        invariant
            nm == msg@.len(),
            nm == ml.len(),
            forall|k: int| 0 <= k < nm ==> #[trigger] msg@[k]@ == ml[k],
            shows(v, l3 + message_view(ml.take(i as int))),
    {
        let ghost before = l3 + message_view(ml.take(i as int));
        v.both(msg[i].as_str(), CommitRow::Message, Ghost(before));
        assert(before.push(ViewLine::Both(ml[i as int], CommitRow::Message)) =~= l3 + message_view(ml.take(i + 1)));
    }
    assert(ml.take(nm as int) =~= ml);
    let ghost hv = l3 + message_view(ml);
    assert(hv =~= header_view(*info));
    let nf = files.len();
    for i in 0..nf
        invariant
            nf == files@.len(),
            shows(v, hv + files_view(files@.take(i as int))),
    {
        proof {
            assert(files@.take(i + 1).drop_last() =~= files@.take(i as int));
            assert(files@.take(i + 1).last() == files@[i as int]);
        }
        let ghost before = hv + files_view(files@.take(i as int));
        add_file(&mut v, &files[i], Ghost(before));
        assert(before + file_view(files@[i as int]) =~= hv + files_view(files@.take(i + 1)));
    }
    assert(files@.take(nf as int) =~= files@);
    let syntax_ext = busiest_extension(files);
    CommitDiff { old: v.old, new: v.new, rows: v.rows, syntax_ext }
}

// ----- the git command line -----

/// Whether `needle` occurs in `hay` at position `i`.
pub open spec fn occurs_at(hay: Seq<char>, needle: Seq<char>, i: int) -> bool {
    0 <= i && i + needle.len() <= hay.len() && hay.subrange(i, i + needle.len()) == needle
}

/// Whether `needle` occurs in `hay`.
pub open spec fn contains_text(hay: Seq<char>, needle: Seq<char>) -> bool {
    exists|i: int| occurs_at(hay, needle, i)
}

/// Whether `needle` occurs in `hay`.
pub fn contains_chars(hay: &[char], needle: &[char]) -> (b: bool)
    ensures
        b == contains_text(hay@, needle@),
{
    let n = hay.len();
    let m = needle.len();
    if m > n {
        assert forall|i: int| !occurs_at(hay@, needle@, i) by {}
        return false;
    }
    let last = n - m;
    let mut i: usize = 0;
    while i <= last
        invariant
            n == hay@.len(),
            m == needle@.len(),
            m <= n,
            last == n - m,
            i <= last + 1,
            forall|k: int| 0 <= k < i ==> !occurs_at(hay@, needle@, k),
        decreases last + 1 - i,
    {
        let mut ok = true;
        let mut j: usize = 0;
        while j < m
            invariant
                n == hay@.len(),
                m == needle@.len(),
                i + m <= n,
                j <= m,
                ok == (forall|t: int| 0 <= t < j ==> hay@[i + t] == needle@[t]),
            decreases m - j,
        {
            if hay[i + j] != needle[j] {
                ok = false;
            }
            j = j + 1;
        }
        if ok {
            assert(hay@.subrange(i as int, i + m) =~= needle@);
            assert(occurs_at(hay@, needle@, i as int));
            return true;
        }
        assert(!occurs_at(hay@, needle@, i as int)) by {
            if occurs_at(hay@, needle@, i as int) {
                assert forall|t: int| 0 <= t < m implies hay@[i + t] == needle@[t] by {
                    assert(hay@.subrange(i as int, i + m)[t] == hay@[i + t]);
                }
            }
        }
        i = i + 1;
    }
    assert forall|k: int| !occurs_at(hay@, needle@, k) by {
        if 0 <= k && k + m <= n {
            assert(k < i);
        }
    }
    false
}

/// Whether `needle` occurs in `hay`.
pub fn contains_str(hay: &str, needle: &str) -> (b: bool)
    ensures
        b == contains_text(hay@, needle@),
{
    let h = chars_of(hay);
    let n = chars_of(needle);
    contains_chars(h.as_slice(), n.as_slice())
}

/// The outcome of one `git` run: the trimmed combined output on success, or
/// the error text (a fixed message when git printed nothing).
pub open spec fn git_outcome_spec(success: bool, stdout: Seq<char>, stderr: Seq<char>) -> Result<Seq<char>, Seq<char>> {
    let msg = trim(stdout + stderr);
    if success {
        Ok(msg)
    } else if msg.len() == 0 {
        Err("git command failed"@)
    } else {
        Err(msg)
    }
}

/// Turns what a `git` run printed into its result.
pub fn git_outcome(success: bool, stdout: &str, stderr: &str) -> (r: Result<String, String>)
    ensures
        match (r, git_outcome_spec(success, stdout@, stderr@)) {
            (Ok(a), Ok(b)) => a@ == b,
            (Err(a), Err(b)) => a@ == b,
            _ => false,
        },
{
    let mut all = copy_str(stdout);
    all.append(stderr);
    let msg = trim_str(all.as_str());
    if success {
        Ok(msg)
    } else if msg.as_str().is_empty() {
        Err(String::from_str("git command failed"))
    } else {
        Err(msg)
    }
}

/// Whether a failed `git push` should be retried as `git push -u origin HEAD`:
/// the branch has no upstream yet.
pub fn push_needs_upstream(first: &Result<String, String>) -> (b: bool)
    ensures
        b == match first {
            Err(e) => contains_text(e@, "upstream"@) || contains_text(e@, "set-upstream"@),
            Ok(_) => false,
        },
{
    match first {
        Err(e) => contains_str(e.as_str(), "upstream") || contains_str(e.as_str(), "set-upstream"),
        Ok(_) => false,
    }
}
// ----- classifying a file's status -----

/// The status bits of one file, as libgit2 reports them.
#[derive(Clone, Copy, Debug, PartialEq, Eq, Structural)]
pub struct StatusFlags {
    pub index_new: bool,
    pub index_modified: bool,
    pub index_deleted: bool,
    pub index_renamed: bool,
    pub index_typechange: bool,
    pub wt_new: bool,
    pub wt_modified: bool,
    pub wt_deleted: bool,
    pub wt_renamed: bool,
    pub wt_typechange: bool,
    pub conflicted: bool,
}

/// The staged side of a file's status; `None` when nothing is staged.
pub fn classify_index(s: StatusFlags) -> (r: Option<GitState>)
    ensures
        r == (if s.index_new {
            Some(GitState::Added)
        } else if s.index_deleted {
            Some(GitState::Deleted)
        } else if s.index_renamed {
            Some(GitState::Renamed)
        } else if s.index_modified || s.index_typechange {
            Some(GitState::Modified)
        } else {
            None
        }),
{
    if s.index_new {
        Some(GitState::Added)
    } else if s.index_deleted {
        Some(GitState::Deleted)
    } else if s.index_renamed {
        Some(GitState::Renamed)
    } else if s.index_modified || s.index_typechange {
        Some(GitState::Modified)
    } else {
        None
    }
}

/// The working-tree side of a file's status; `None` when it is unchanged there.
pub fn classify_worktree(s: StatusFlags) -> (r: Option<GitState>)
    ensures
        r == (if s.conflicted {
            Some(GitState::Conflicted)
        } else if s.wt_new {
            Some(GitState::Untracked)
        } else if s.wt_deleted {
            Some(GitState::Deleted)
        } else if s.wt_renamed {
            Some(GitState::Renamed)
        } else if s.wt_modified || s.wt_typechange {
            Some(GitState::Modified)
        } else {
            None
        }),
{
    if s.conflicted {
        Some(GitState::Conflicted)
    } else if s.wt_new {
        Some(GitState::Untracked)
    } else if s.wt_deleted {
        Some(GitState::Deleted)
    } else if s.wt_renamed {
        Some(GitState::Renamed)
    } else if s.wt_modified || s.wt_typechange {
        Some(GitState::Modified)
    } else {
        None
    }
}

/// The abbreviated (7-character) form of a commit id.
pub fn short_hash(id: &str) -> (r: String)
    ensures
        r@ == (if id@.len() > 7 { id@.take(7) } else { id@ }),
{
    let cs = chars_of(id);
    let keep = if cs.len() > 7 { 7 } else { cs.len() };
    let mut t: Vec<char> = Vec::new();
    for k in 0..keep
        invariant
            keep <= cs@.len(),
            cs@ == id@,
            t@ == cs@.take(k as int),
    {
        t.push(cs[k]);
        assert(cs@.take(k + 1) =~= cs@.take(k as int).push(cs@[k as int]));
    }
    assert(cs@.take(cs@.len() as int) =~= cs@);
    string_of(t.as_slice())
}

} // verus!
