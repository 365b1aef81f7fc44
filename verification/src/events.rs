//! How the workspace follows what happened outside the editor: renamed and
//! deleted paths, a refreshed git status, finished searches, disk changes.
use vstd::prelude::*;

use crate::filetree::{find_v, flatten_v, top, FileTree};
use crate::git::{GitCommit, GitEntry};
use crate::model::{GitStatus, SearchMatch, SearchRequest, SearchState, Tab};
use crate::num::{dec, u64_to_string};
use crate::paths::{
    components, components_of, join, joined_of, parent, parent_of, same_path, same_path_of,
    starts_with, starts_with_of, strip_prefix, strip_prefix_of,
};
use crate::text::copy_str;

verus! {

/// An optional path as text.
pub open spec fn opt_path(p: Option<String>) -> Option<Seq<char>> {
    match p {
        Some(s) => Some(s@),
        None => None,
    }
}

/// Where `old` lands once `from` is renamed to `to`: `to` itself, or `to`
/// joined with the rest of the path below `from`; `None` when `old` is not
/// `from` or under it.
pub open spec fn renamed_of(old: Seq<char>, from: Seq<char>, to: Seq<char>) -> Option<Seq<char>> {
    match strip_prefix_of(old, from) {
        None => None,
        Some(rest) => Some(if rest.len() == 0 { to } else { joined_of(to, rest) }),
    }
}

/// The new place of `old` after `from` was renamed to `to`, if it moved.
pub fn renamed_path(old: &str, from: &str, to: &str) -> (r: Option<String>)
    ensures
        opt_path(r) == renamed_of(old@, from@, to@),
{
    match strip_prefix(old, from) {
        None => None,
        Some(rest) => if rest.as_str().is_empty() {
            Some(copy_str(to))
        } else {
            Some(join(to, rest.as_str()))
        },
    }
}

/// A tab's path after the rename.
pub open spec fn repointed(p: Option<Seq<char>>, from: Seq<char>, to: Seq<char>) -> Option<Seq<char>> {
    match p {
        Some(q) => match renamed_of(q, from, to) {
            Some(n) => Some(n),
            None => Some(q),
        },
        None => None,
    }
}

/// The tabs' paths, in order.
pub open spec fn tab_paths(tabs: Seq<Tab>) -> Seq<Option<Seq<char>>> {
    tabs.map_values(|t: Tab| opt_path(t.buffer.path))
}

/// The new paths of the tabs that moved, in tab order.
pub open spec fn moved_paths(ps: Seq<Option<Seq<char>>>, from: Seq<char>, to: Seq<char>) -> Seq<Seq<char>>
    decreases ps.len(),
{
    if ps.len() == 0 {
        Seq::empty()
    } else {
        let rest = moved_paths(ps.drop_last(), from, to);
        match ps.last() {
            Some(q) => match renamed_of(q, from, to) {
                Some(n) => rest.push(n),
                None => rest,
            },
            None => rest,
        }
    }
}

/// Two tabs that differ at most in their buffer's path.
pub open spec fn same_but_path(a: Tab, b: Tab) -> bool {
    &&& a.buffer.text == b.buffer.text
    &&& a.buffer.dirty == b.buffer.dirty
    &&& a.head_text == b.head_text
    &&& a.diff_mode == b.diff_mode
    &&& a.notice == b.notice
    &&& a.label == b.label
    &&& a.read_only == b.read_only
    &&& a.commit_rows == b.commit_rows
}

/// Re-points open tabs after `from` was renamed to `to` (a renamed directory
/// moves every file under it) and returns the new paths, whose HEAD text is
/// to be reloaded.
pub fn repoint_tabs(tabs: &mut Vec<Tab>, from: &str, to: &str) -> (moved: Vec<String>)
    ensures
        final(tabs)@.len() == old(tabs)@.len(),
        forall|i: int| 0 <= i < old(tabs)@.len() ==> {
            &&& opt_path(#[trigger] final(tabs)@[i].buffer.path)
                == repointed(opt_path(old(tabs)@[i].buffer.path), from@, to@)
            &&& same_but_path(final(tabs)@[i], old(tabs)@[i])
        },
        moved@.map_values(|s: String| s@) == moved_paths(tab_paths(old(tabs)@), from@, to@),
{
    let ghost orig = tabs@;
    let n = tabs.len();
    let mut moved: Vec<String> = Vec::new();
    for i in 0..n
        invariant
            n == orig.len(),
            tabs@.len() == n,
            forall|k: int| 0 <= k < i ==> {
                &&& opt_path(#[trigger] tabs@[k].buffer.path) == repointed(opt_path(orig[k].buffer.path), from@, to@)
                &&& same_but_path(tabs@[k], orig[k])
            },
            forall|k: int| i <= k < n ==> #[trigger] tabs@[k] == orig[k],
            moved@.map_values(|s: String| s@) == moved_paths(tab_paths(orig).take(i as int), from@, to@),
    {
        let ghost before = moved@;
        let mut t = tabs.remove(i);
        assert(t == orig[i as int]);
        let mut went: Option<String> = None;
        match &t.buffer.path {
            Some(p) => {
                went = renamed_path(p.as_str(), from, to);
            },
            None => {},
        }
        match went {
            Some(new) => {
                moved.push(copy_str(new.as_str()));
                t.buffer.path = Some(new);
            },
            None => {},
        }
        let ghost prev_tabs = tabs@;
        tabs.insert(i, t);
        proof {
            assert forall|k: int| 0 <= k < i + 1 implies {
                &&& opt_path(#[trigger] tabs@[k].buffer.path) == repointed(opt_path(orig[k].buffer.path), from@, to@)
                &&& same_but_path(tabs@[k], orig[k])
            } by {
                if k < i {
                    assert(tabs@[k] == prev_tabs[k]);
                }
            }
            assert forall|k: int| i + 1 <= k < n implies #[trigger] tabs@[k] == orig[k] by {
                assert(tabs@[k] == prev_tabs[k - 1]);
            }
            let ps = tab_paths(orig).take(i + 1);
            assert(ps.drop_last() =~= tab_paths(orig).take(i as int));
            assert(ps.last() == opt_path(orig[i as int].buffer.path));
            assert(moved@.map_values(|s: String| s@) =~= moved_paths(ps, from@, to@));
        }
    }
    proof {
        assert(tab_paths(orig).take(n as int) =~= tab_paths(orig));
    }
    moved
}

/// Whether a tab's path is `base` or lies under it.
pub open spec fn under(p: Option<Seq<char>>, base: Seq<char>) -> bool {
    match p {
        Some(q) => starts_with_of(q, base),
        None => false,
    }
}

/// The indices, in increasing order, of the tabs whose file is `path` or lies
/// under it: the tabs to close once `path` was deleted.
pub fn tabs_under(tabs: &Vec<Tab>, path: &str) -> (r: Vec<usize>)
    ensures
        forall|k: int, l: int| 0 <= k < l < r@.len() ==> r@[k] < r@[l],
        forall|k: int| 0 <= k < r@.len() ==> (#[trigger] r@[k]) < tabs@.len(),
        forall|i: int| 0 <= i < tabs@.len() ==> (under(opt_path(#[trigger] tabs@[i].buffer.path), path@)
            <==> r@.contains(i as usize)),
{
    let mut r: Vec<usize> = Vec::new();
    let n = tabs.len();
    for i in 0..n
        invariant
            n == tabs@.len(),
            forall|k: int, l: int| 0 <= k < l < r@.len() ==> r@[k] < r@[l],
            forall|k: int| 0 <= k < r@.len() ==> (#[trigger] r@[k]) < i,
            forall|j: int| 0 <= j < i ==> (under(opt_path(#[trigger] tabs@[j].buffer.path), path@)
                <==> r@.contains(j as usize)),
    {
        let hit = match &tabs[i].buffer.path {
            Some(p) => starts_with(p.as_str(), path),
            None => false,
        };
        let ghost before = r@;
        if hit {
            r.push(i);
        }
        proof {
            assert forall|j: int| 0 <= j < i + 1 implies (under(opt_path(#[trigger] tabs@[j].buffer.path), path@)
                <==> r@.contains(j as usize)) by {
                if j < i {
                    if r@.contains(j as usize) && !before.contains(j as usize) {
                        assert(r@.last() == i);
                        let w = choose|w: int| 0 <= w < r@.len() && r@[w] == j as usize;
                        assert(w == r@.len() - 1);
                    }
                    if before.contains(j as usize) {
                        let w = choose|w: int| 0 <= w < before.len() && before[w] == j as usize;
                        assert(r@[w] == j as usize);
                    }
                } else if hit {
                    assert(r@[r@.len() - 1] == i);
                } else {
                    if r@.contains(j as usize) {
                        let w = choose|w: int| 0 <= w < r@.len() && r@[w] == j as usize;
                        assert(r@[w] < i);
                    }
                }
            }
        }
    }
    r
}

/// Whether a git change list names path `p`.
pub open spec fn listed(es: Seq<GitEntry>, p: Seq<char>) -> bool {
    exists|k: int| 0 <= k < es.len() && same_path_of(#[trigger] es[k].path@, p)
}

/// A live diff tab whose file has left both change lists (reverted or
/// committed). A commit's read-only diff tab is history, never stale.
pub open spec fn stale(t: Tab, staged: Seq<GitEntry>, unstaged: Seq<GitEntry>) -> bool {
    &&& t.diff_mode
    &&& !t.read_only
    &&& match t.buffer.path {
        Some(p) => !listed(staged, p@) && !listed(unstaged, p@),
        None => false,
    }
}

fn is_listed(es: &Vec<GitEntry>, p: &str) -> (b: bool)
    ensures
        b == listed(es@, p@),
{
    let n = es.len();
    for k in 0..n
        invariant
            n == es@.len(),
            forall|j: int| 0 <= j < k ==> !same_path_of(#[trigger] es@[j].path@, p@),
    {
        if same_path(es[k].path.as_str(), p) {
            return true;
        }
    }
    false
}

/// The indices, in increasing order, of the diff tabs a refreshed status
/// leaves stale; they are closed from the last one back.
pub fn stale_diff_tabs(tabs: &Vec<Tab>, staged: &Vec<GitEntry>, unstaged: &Vec<GitEntry>) -> (r: Vec<usize>)
    ensures
        forall|k: int, l: int| 0 <= k < l < r@.len() ==> r@[k] < r@[l],
        forall|k: int| 0 <= k < r@.len() ==> (#[trigger] r@[k]) < tabs@.len(),
        forall|i: int| 0 <= i < tabs@.len() ==> (stale(#[trigger] tabs@[i], staged@, unstaged@)
            <==> r@.contains(i as usize)),
{
    let mut r: Vec<usize> = Vec::new();
    let n = tabs.len();
    for i in 0..n
        invariant
            n == tabs@.len(),
            forall|k: int, l: int| 0 <= k < l < r@.len() ==> r@[k] < r@[l],
            forall|k: int| 0 <= k < r@.len() ==> (#[trigger] r@[k]) < i,
            forall|j: int| 0 <= j < i ==> (stale(#[trigger] tabs@[j], staged@, unstaged@)
                <==> r@.contains(j as usize)),
    {
        let t = &tabs[i];
        let hit = t.diff_mode && !t.read_only && match &t.buffer.path {
            Some(p) => !is_listed(staged, p.as_str()) && !is_listed(unstaged, p.as_str()),
            None => false,
        };
        let ghost before = r@;
        if hit {
            r.push(i);
        }
        proof {
            assert forall|j: int| 0 <= j < i + 1 implies (stale(#[trigger] tabs@[j], staged@, unstaged@)
                <==> r@.contains(j as usize)) by {
                if j < i {
                    if r@.contains(j as usize) && !before.contains(j as usize) {
                        let w = choose|w: int| 0 <= w < r@.len() && r@[w] == j as usize;
                        assert(w == r@.len() - 1);
                    }
                    if before.contains(j as usize) {
                        let w = choose|w: int| 0 <= w < before.len() && before[w] == j as usize;
                        assert(r@[w] == j as usize);
                    }
                } else if hit {
                    assert(r@[r@.len() - 1] == i);
                } else {
                    if r@.contains(j as usize) {
                        let w = choose|w: int| 0 <= w < r@.len() && r@[w] == j as usize;
                        assert(r@[w] < i);
                    }
                }
            }
        }
    }
    r
}

/// The files whose HEAD text is reloaded after a status refresh: every tab
/// with a file behind it; a generated read-only tab has none.
pub open spec fn head_reload_paths(tabs: Seq<Tab>) -> Seq<Seq<char>>
    decreases tabs.len(),
{
    if tabs.len() == 0 {
        Seq::empty()
    } else {
        let rest = head_reload_paths(tabs.drop_last());
        let t = tabs.last();
        if t.read_only {
            rest
        } else {
            match t.buffer.path {
                Some(p) => rest.push(p@),
                None => rest,
            }
        }
    }
}

pub fn head_reloads(tabs: &Vec<Tab>) -> (r: Vec<String>)
    ensures
        r@.map_values(|s: String| s@) == head_reload_paths(tabs@),
{
    let mut r: Vec<String> = Vec::new();
    let n = tabs.len();
    for i in 0..n
        invariant
            n == tabs@.len(),
            r@.map_values(|s: String| s@) == head_reload_paths(tabs@.take(i as int)),
    {
        let t = &tabs[i];
        if !t.read_only {
            match &t.buffer.path {
                Some(p) => r.push(copy_str(p.as_str())),
                None => {},
            }
        }
        proof {
            assert(tabs@.take(i + 1).drop_last() =~= tabs@.take(i as int));
            assert(tabs@.take(i + 1).last() == tabs@[i as int]);
            assert(r@.map_values(|s: String| s@) =~= head_reload_paths(tabs@.take(i + 1)));
        }
    }
    proof {
        assert(tabs@.take(n as int) =~= tabs@);
    }
    r
}

/// A selection kept on an existing row: past the end it moves to the last
/// row (to 0 when there are none).
pub open spec fn clamped(selected: int, len: int) -> int {
    if selected >= len {
        if len == 0 { 0 } else { len - 1 }
    } else {
        selected
    }
}

impl GitStatus {
    /// Takes a freshly loaded status; the selection stays on an existing row.
    pub fn apply_loaded(
        &mut self,
        branch: Option<String>,
        staged: Vec<GitEntry>,
        unstaged: Vec<GitEntry>,
        is_repo: bool,
        ahead: usize,
        behind: usize,
        has_upstream: bool,
        has_remote: bool,
        history: Vec<GitCommit>,
    )
        requires
            staged@.len() + unstaged@.len() + history@.len() <= usize::MAX,
        ensures
            final(self).branch == branch,
            final(self).staged == staged,
            final(self).unstaged == unstaged,
            final(self).is_repo == is_repo,
            final(self).ahead == ahead,
            final(self).behind == behind,
            final(self).has_upstream == has_upstream,
            final(self).has_remote == has_remote,
            final(self).history == history,
            final(self).fits(),
            final(self).selected as int == clamped(
                old(self).selected as int,
                (staged@.len() + unstaged@.len() + history@.len()) as int,
            ),
            final(self).commit@ == old(self).commit@,
            final(self).zone == old(self).zone,
    {
        self.branch = branch;
        self.staged = staged;
        self.unstaged = unstaged;
        self.is_repo = is_repo;
        self.ahead = ahead;
        self.behind = behind;
        self.has_upstream = has_upstream;
        self.has_remote = has_remote;
        self.history = history;
        let len = self.nav_len();
        if self.selected >= len {
            self.selected = if len == 0 { 0 } else { len - 1 };
        }
    }
}

impl FileTree {
    /// After a rescan the selection may point past the last visible row; it
    /// moves back to the last one.
    pub fn clamp_selection(&mut self)
        ensures
            final(self).root == old(self).root,
            final(self).children == old(self).children,
            final(self).selected as int == clamped(old(self).selected as int, flatten_v(top(old(self)), 0).len() as int),
    {
        let len = self.visible_rows().len();
        if self.selected >= len {
            self.selected = if len == 0 { 0 } else { len - 1 };
        }
    }
}

/// "N results found".
pub open spec fn results_note(n: nat) -> Seq<char> {
    dec(n) + " results found"@
}

impl SearchState {
    /// Takes the results of a finished search unless the query has changed
    /// since it started; returns the status note when they were taken.
    pub fn accept_results(&mut self, query: &str, matches: Vec<SearchMatch>) -> (note: Option<String>)
        ensures
            query@ == old(self).query@.0 ==> {
                &&& final(self).results@ == matches@
                &&& final(self).selected == 0
                &&& note matches Some(s) && s@ == results_note(matches@.len())
            },
            query@ != old(self).query@.0 ==> {
                &&& final(self).results@ == old(self).results@
                &&& final(self).selected == old(self).selected
                &&& note is None
            },
            final(self).query@ == old(self).query@,
            final(self).replace@ == old(self).replace@,
            final(self).field == old(self).field,
            final(self).replace_mode == old(self).replace_mode,
            final(self).use_regex == old(self).use_regex,
            final(self).match_case == old(self).match_case,
            final(self).search_hidden == old(self).search_hidden,
    {
        if !crate::text::str_eq(query, self.query.content()) {
            return None;
        }
        let n = matches.len();
        self.results = matches;
        self.selected = 0;
        let mut s = u64_to_string(n as u64);
        s.append(" results found");
        Some(s)
    }

    /// The search to run again after a workspace-wide replace; none for an
    /// empty query.
    pub fn rerun(&self) -> (r: Option<SearchRequest>)
        ensures
            self.query@.0.len() == 0 <==> r is None,
            r matches Some(req) ==> req matches SearchRequest::Search { query, use_regex, match_case, search_hidden }
                && query@ == self.query@.0 && use_regex == self.use_regex && match_case == self.match_case
                && search_hidden == self.search_hidden,
    {
        let q = self.query.content();
        if q.is_empty() {
            return None;
        }
        Some(SearchRequest::Search {
            query: copy_str(q),
            use_regex: self.use_regex,
            match_case: self.match_case,
            search_hidden: self.search_hidden,
        })
    }
}

/// "N changes, M files".
pub open spec fn replace_note_of(count: nat, files: nat) -> Seq<char> {
    dec(count) + " changes, "@ + dec(files) + " files"@
}

/// The status note after a workspace-wide replace.
pub fn replace_note(count: usize, files: usize) -> (s: String)
    ensures
        s@ == replace_note_of(count as nat, files as nat),
{
    let mut s = u64_to_string(count as u64);
    s.append(" changes, ");
    let f = u64_to_string(files as u64);
    s.append(f.as_str());
    s.append(" files");
    s
}

/// How many tabs have unsaved changes.
pub open spec fn dirty_count(tabs: Seq<Tab>) -> nat
    decreases tabs.len(),
{
    if tabs.len() == 0 {
        0
    } else {
        dirty_count(tabs.drop_last()) + if tabs.last().buffer.dirty { 1nat } else { 0nat }
    }
}

/// The question asked before quitting with unsaved changes.
pub open spec fn quit_question(dirty: nat) -> Seq<char> {
    dec(dirty) + if dirty == 1 { " file has"@ } else { " files have"@ }
        + " unsaved changes. Save before quitting?"@
}

proof fn lemma_dirty_count_bound(tabs: Seq<Tab>)
    ensures
        dirty_count(tabs) <= tabs.len(),
    decreases tabs.len(),
{
    if tabs.len() > 0 {
        lemma_dirty_count_bound(tabs.drop_last());
    }
}

/// Quitting: `None` quits at once; with unsaved tabs, the question to ask.
pub fn quit_prompt(tabs: &Vec<Tab>) -> (q: Option<String>)
    ensures
        dirty_count(tabs@) == 0 <==> q is None,
        q matches Some(s) ==> s@ == quit_question(dirty_count(tabs@)),
{
    let mut d: usize = 0;
    let n = tabs.len();
    for i in 0..n
        invariant
            n == tabs@.len(),
            d == dirty_count(tabs@.take(i as int)),
    {
        proof {
            assert(tabs@.take(i + 1).drop_last() =~= tabs@.take(i as int));
            lemma_dirty_count_bound(tabs@.take(i as int));
        }
        if tabs[i].buffer.dirty {
            d += 1;
        }
    }
    proof {
        assert(tabs@.take(n as int) =~= tabs@);
    }
    if d == 0 {
        return None;
    }
    let mut s = u64_to_string(d as u64);
    if d == 1 {
        s.append(" file has");
    } else {
        s.append(" files have");
    }
    s.append(" unsaved changes. Save before quitting?");
    Some(s)
}

/// What a change on disk asks for: a rescan of its directory, and a git
/// status refresh.
#[derive(Clone, Debug, PartialEq, Eq)]
pub struct DiskPlan {
    /// The directory to rescan, when the file tree has loaded it.
    pub rescan: Option<String>,
    /// Whether the git status is to be reloaded.
    pub refresh_git: bool,
}

/// Whether a path goes through a `.git` directory.
pub open spec fn in_git_dir(p: Seq<char>) -> bool {
    components_of(p).contains(".git"@)
}

/// The directory of a changed path to rescan: only outside `.git`, and only
/// when it is the tree's root or a directory the tree has already loaded.
pub open spec fn rescan_dir(p: Seq<char>, tree: FileTree) -> Option<Seq<char>> {
    if in_git_dir(p) {
        None
    } else {
        match parent_of(p) {
            None => None,
            Some(d) => if same_path_of(d, tree.root@)
                || (find_v(top(&tree), d) matches Some(n) && n.children is Some) {
                Some(d)
            } else {
                None
            },
        }
    }
}

fn goes_through_git(p: &str) -> (b: bool)
    ensures
        b == in_git_dir(p@),
{
    let cs = components(p);
    let ghost v = cs@.map_values(|c: String| c@);
    let n = cs.len();
    for k in 0..n
        invariant
            n == cs@.len(),
            v == cs@.map_values(|c: String| c@),
            v == components_of(p@),
            forall|j: int| 0 <= j < k ==> v[j] != ".git"@,
    {
        if crate::text::str_eq(cs[k].as_str(), ".git") {
            assert(v[k as int] == ".git"@);
            return true;
        }
    }
    false
}

/// A file changed on disk: rescan its directory when the tree shows it, and
/// refresh the git status when the change is inside `.git` or the Git panel
/// is open.
pub fn disk_change_plan(path: &str, tree: &FileTree, git_panel_open: bool) -> (plan: DiskPlan)
    ensures
        opt_path(plan.rescan) == rescan_dir(path@, *tree),
        plan.refresh_git == (in_git_dir(path@) || git_panel_open),
{
    let in_git = goes_through_git(path);
    let mut rescan: Option<String> = None;
    if !in_git {
        match parent(path) {
            Some(d) => {
                if same_path(d.as_str(), tree.root.as_str()) || tree.is_loaded(d.as_str()) {
                    rescan = Some(d);
                }
            },
            None => {},
        }
    }
    DiskPlan { rescan, refresh_git: in_git || git_panel_open }
}

} // verus!
