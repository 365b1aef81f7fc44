//! The open tabs: finding a file's tab, cycling, and closing with the active
//! tab kept valid.
use vstd::prelude::*;

use crate::events::opt_path;
use crate::model::{Dialog, DialogAction, DialogKind, Tab};
use crate::paths::{same_path, same_path_of};
use crate::text::{copy_str, str_eq};

verus! {

/// Whether a tab shows file `p`.
pub open spec fn shows(t: Tab, p: Seq<char>) -> bool {
    t.buffer.path matches Some(q) && same_path_of(q@, p)
}

fn tab_shows(t: &Tab, p: &str) -> (b: bool)
    ensures
        b == shows(*t, p@),
{
    match &t.buffer.path {
        Some(q) => same_path(q.as_str(), p),
        None => false,
    }
}

/// The normal (not diff-mode) tab of a file.
pub fn tab_index_for(tabs: &Vec<Tab>, path: &str) -> (r: Option<usize>)
    ensures
        match r {
            Some(i) => i < tabs@.len() && !tabs@[i as int].diff_mode && shows(tabs@[i as int], path@)
                && forall|j: int| 0 <= j < i ==> !(!(#[trigger] tabs@[j]).diff_mode && shows(tabs@[j], path@)),
            None => forall|j: int| 0 <= j < tabs@.len() ==> !(!(#[trigger] tabs@[j]).diff_mode && shows(tabs@[j], path@)),
        },
{
    let n = tabs.len();
    for i in 0..n
        invariant
            n == tabs@.len(),
            forall|j: int| 0 <= j < i ==> !(!(#[trigger] tabs@[j]).diff_mode && shows(tabs@[j], path@)),
    {
        if !tabs[i].diff_mode && tab_shows(&tabs[i], path) {
            return Some(i);
        }
    }
    None
}

/// The diff-mode tab of a file.
pub fn diff_tab_index_for(tabs: &Vec<Tab>, path: &str) -> (r: Option<usize>)
    ensures
        match r {
            Some(i) => i < tabs@.len() && tabs@[i as int].diff_mode && shows(tabs@[i as int], path@)
                && forall|j: int| 0 <= j < i ==> !((#[trigger] tabs@[j]).diff_mode && shows(tabs@[j], path@)),
            None => forall|j: int| 0 <= j < tabs@.len() ==> !((#[trigger] tabs@[j]).diff_mode && shows(tabs@[j], path@)),
        },
{
    let n = tabs.len();
    for i in 0..n
        invariant
            n == tabs@.len(),
            forall|j: int| 0 <= j < i ==> !((#[trigger] tabs@[j]).diff_mode && shows(tabs@[j], path@)),
    {
        if tabs[i].diff_mode && tab_shows(&tabs[i], path) {
            return Some(i);
        }
    }
    None
}

/// The indices, in increasing order, of every tab (normal or diff) of a file.
pub fn all_tabs_for(tabs: &Vec<Tab>, path: &str) -> (r: Vec<usize>)
    ensures
        forall|k: int, l: int| 0 <= k < l < r@.len() ==> r@[k] < r@[l],
        forall|k: int| 0 <= k < r@.len() ==> (#[trigger] r@[k]) < tabs@.len(),
        forall|i: int| 0 <= i < tabs@.len() ==> (shows(#[trigger] tabs@[i], path@) <==> r@.contains(i as usize)),
{
    let mut r: Vec<usize> = Vec::new();
    let n = tabs.len();
    for i in 0..n
        invariant
            n == tabs@.len(),
            forall|k: int, l: int| 0 <= k < l < r@.len() ==> r@[k] < r@[l],
            forall|k: int| 0 <= k < r@.len() ==> (#[trigger] r@[k]) < i,
            forall|j: int| 0 <= j < i ==> (shows(#[trigger] tabs@[j], path@) <==> r@.contains(j as usize)),
    {
        let hit = tab_shows(&tabs[i], path);
        let ghost before = r@;
        if hit {
            r.push(i);
        }
        proof {
            assert forall|j: int| 0 <= j < i + 1 implies (shows(#[trigger] tabs@[j], path@) <==> r@.contains(j as usize)) by {
                if j < i {
                    if r@.contains(j as usize) && !before.contains(j as usize) {
                        let w = choose|w: int| 0 <= w < r@.len() && r@[w] == j as usize;
                        assert(w == r@.len() - 1);
                    }
                    if before.contains(j as usize) {
                        let w = choose|w: int| 0 <= w < before.len() && before[w] == j as usize;
                        assert(r@[w] == j as usize);
                    }
                } else if hit {
                    assert(r@[r@.len() - 1] == i);
                } else {
                    if r@.contains(j as usize) {
                        let w = choose|w: int| 0 <= w < r@.len() && r@[w] == j as usize;
                        assert(r@[w] < i);
                    }
                }
            }
        }
    }
    r
}

/// The label of a commit's diff tab.
pub open spec fn commit_label(hash: Seq<char>) -> Seq<char> {
    hash + " diff"@
}

/// Whether a tab carries this label.
pub open spec fn labeled(t: Tab, label: Seq<char>) -> bool {
    t.label matches Some(l) && l@ == label
}

/// The open "<hash> diff" tab of a commit.
pub fn commit_diff_tab_index(tabs: &Vec<Tab>, hash: &str) -> (r: Option<usize>)
    ensures
        match r {
            Some(i) => i < tabs@.len() && labeled(tabs@[i as int], commit_label(hash@))
                && forall|j: int| 0 <= j < i ==> !labeled(#[trigger] tabs@[j], commit_label(hash@)),
            None => forall|j: int| 0 <= j < tabs@.len() ==> !labeled(#[trigger] tabs@[j], commit_label(hash@)),
        },
{
    let mut label = copy_str(hash);
    label.append(" diff");
    let n = tabs.len();
    for i in 0..n
        invariant
            n == tabs@.len(),
            label@ == commit_label(hash@),
            forall|j: int| 0 <= j < i ==> !labeled(#[trigger] tabs@[j], commit_label(hash@)),
    {
        let hit = match &tabs[i].label {
            Some(l) => str_eq(l.as_str(), label.as_str()),
            None => false,
        };
        if hit {
            return Some(i);
        }
    }
    None
}

/// The active tab after tab `i` of `n` closed: the same tab where it stays,
/// one to the left past the closed one, and for the closed tab itself the one
/// now at its place (or the last, or none).
pub open spec fn active_after_close(active: Option<usize>, i: int, n: int) -> Option<usize> {
    match active {
        Some(a) => if a == i {
            if n - 1 == 0 { None } else { Some((if a <= n - 2 { a as int } else { n - 2 }) as usize) }
        } else if a > i {
            Some((a - 1) as usize)
        } else {
            Some(a)
        },
        None => None,
    }
}

/// Whether the active tab, if any, is one of the tabs.
pub open spec fn active_ok(active: Option<usize>, n: int) -> bool {
    active matches Some(a) ==> a < n
}

/// Closes tab `i` and keeps the active tab pointing at a tab. Returns the
/// closed file when no other tab still shows it (the language server is told
/// it closed). Nothing happens past the last tab.
pub fn close_tab(tabs: &mut Vec<Tab>, active: &mut Option<usize>, i: usize) -> (gone: Option<String>)
    requires
        active_ok(*old(active), old(tabs)@.len() as int),
    ensures
        i >= old(tabs)@.len() ==> {
            &&& final(tabs)@ == old(tabs)@
            &&& *final(active) == *old(active)
            &&& gone is None
        },
        i < old(tabs)@.len() ==> {
            &&& final(tabs)@ == old(tabs)@.remove(i as int)
            &&& *final(active) == active_after_close(*old(active), i as int, old(tabs)@.len() as int)
            &&& opt_path(gone) == match old(tabs)@[i as int].buffer.path {
                Some(p) => if exists|j: int| 0 <= j < final(tabs)@.len() && shows(#[trigger] final(tabs)@[j], p@) {
                    None
                } else {
                    Some(p@)
                },
                None => None,
            }
        },
        active_ok(*final(active), final(tabs)@.len() as int),
{
    if i >= tabs.len() {
        return None;
    }
    let t = tabs.remove(i);
    assert(t == old(tabs)@[i as int]);
    match *active {
        Some(a) => {
            if a == i {
                if tabs.len() == 0 {
                    *active = None;
                } else {
                    let last = tabs.len() - 1;
                    *active = Some(if a <= last { a } else { last });
                }
            } else if a > i {
                *active = Some(a - 1);
            }
        },
        None => {},
    }
    match t.buffer.path {
        Some(p) => {
            let n = tabs.len();
            let ghost t0 = old(tabs)@;
            let ghost a1 = *active;
            for k in 0..n
                invariant
                    n == tabs@.len(),
                    i < t0.len(),
                    t0 == old(tabs)@,
                    tabs@ == t0.remove(i as int),
                    *active == a1,
                    a1 == active_after_close(*old(active), i as int, t0.len() as int),
                    active_ok(a1, n as int),
                    t0[i as int].buffer.path == Some(p),
                    forall|j: int| 0 <= j < k ==> !shows(#[trigger] tabs@[j], p@),
            {
                if tab_shows(&tabs[k], p.as_str()) {
                    return None;
                }
            }
            Some(p)
        },
        None => None,
    }
}

/// The tab `delta` steps from the active one (from the first when none is
/// active), wrapping around; `None` when there are no tabs.
pub open spec fn cycled(n: int, active: Option<usize>, delta: int) -> Option<usize> {
    if n == 0 {
        None
    } else {
        let cur: int = match active {
            Some(a) => a as int,
            None => 0,
        };
        Some(((cur + delta) % n) as usize)
    }
}

/// Ctrl+Tab / Ctrl+Shift+Tab: the tab `delta` steps away, wrapping around.
pub fn cycle_tab(n: usize, active: Option<usize>, delta: isize) -> (r: Option<usize>)
    requires
        active_ok(active, n as int),
    ensures
        r == cycled(n as int, active, delta as int),
        r matches Some(k) ==> k < n,
{
    if n == 0 {
        return None;
    }
    let cur: usize = match active {
        Some(a) => a,
        None => 0,
    };
    if delta >= 0 {
        let d = delta as usize;
        let r = d % n;
        let next = if r >= n - cur { r - (n - cur) } else { cur + r };
        proof {
            vstd::arithmetic::div_mod::lemma_fundamental_div_mod(d as int, n as int);
            vstd::arithmetic::div_mod::lemma_mod_multiples_vanish(d as int / n as int, cur + r, n as int);
            assert(cur + delta == n * (d as int / n as int) + (cur + r));
            if r >= n - cur {
                vstd::arithmetic::div_mod::lemma_mod_sub_multiples_vanish(cur + r, n as int);
                vstd::arithmetic::div_mod::lemma_small_mod((cur + r - n) as nat, n as nat);
            } else {
                vstd::arithmetic::div_mod::lemma_small_mod((cur + r) as nat, n as nat);
            }
        }
        Some(next)
    } else {
        let e: usize = ((-(delta + 1)) as usize) + 1;
        let r = e % n;
        let next = if cur >= r { cur - r } else { n - (r - cur) };
        proof {
            vstd::arithmetic::div_mod::lemma_fundamental_div_mod(e as int, n as int);
            let q = e as int / n as int;
            assert(e as int == -(delta as int));
            assert(cur + delta == n * (-q) + (cur - r)) by (nonlinear_arith)
                requires
                    e as int == n * q + r,
                    e as int == -(delta as int),
            ;
            vstd::arithmetic::div_mod::lemma_mod_multiples_vanish(-q, cur - r, n as int);
            if cur >= r {
                vstd::arithmetic::div_mod::lemma_small_mod((cur - r) as nat, n as nat);
            } else {
                vstd::arithmetic::div_mod::lemma_mod_add_multiples_vanish(cur - r, n as int);
                vstd::arithmetic::div_mod::lemma_small_mod((n + cur - r) as nat, n as nat);
            }
        }
        Some(next)
    }
}

/// What closing a tab asks for first.
pub enum CloseCheck {
    /// No such tab.
    NoTab,
    /// The tab has unsaved changes: ask before closing.
    Confirm(Dialog),
    /// Close it right away.
    Close,
}

/// The question asked before closing a modified file's tab.
pub open spec fn close_question(path: Seq<char>) -> Seq<char> {
    "Changes in '"@ + path + "' will be lost. Close anyway?"@
}

/// Closing tab `i`: a modified file's tab first asks whether to drop its
/// changes; any other tab closes at once.
pub fn close_check(tabs: &Vec<Tab>, i: usize) -> (c: CloseCheck)
    ensures
        i >= tabs@.len() ==> c is NoTab,
        i < tabs@.len() ==> match (tabs@[i as int].buffer.dirty, tabs@[i as int].buffer.path) {
            (true, Some(p)) => c matches CloseCheck::Confirm(d) && {
                &&& d.kind == DialogKind::Ask
                &&& d.selected == 0
                &&& d.title@ == "Close tab"@
                &&& d.message@ == close_question(p@)
                &&& d.action matches DialogAction::CloseTab(k, shown) && k == i && shown@ == p@
            },
            _ => c is Close,
        },
{
    if i >= tabs.len() {
        return CloseCheck::NoTab;
    }
    let t = &tabs[i];
    if t.buffer.dirty {
        match &t.buffer.path {
            Some(p) => {
                let mut message = String::from_str("Changes in '");
                message.append(p.as_str());
                message.append("' will be lost. Close anyway?");
                let d = Dialog::ask(
                    String::from_str("Close tab"),
                    message,
                    DialogAction::CloseTab(i, copy_str(p.as_str())),
                );
                return CloseCheck::Confirm(d);
            },
            None => {},
        }
    }
    CloseCheck::Close
}

/// Opening a file: focus its tab when one is open, else load it (and jump to
/// `line` once loaded, when it is not the first line).
#[derive(Clone, Debug, PartialEq, Eq)]
pub enum OpenPlan {
    Focus(usize),
    Load { goto: Option<usize> },
}

pub fn open_plan(tabs: &Vec<Tab>, path: &str, line: usize) -> (p: OpenPlan)
    ensures
        match p {
            OpenPlan::Focus(i) => i < tabs@.len() && !tabs@[i as int].diff_mode && shows(tabs@[i as int], path@),
            OpenPlan::Load { goto } => (forall|j: int| 0 <= j < tabs@.len()
                ==> !(!(#[trigger] tabs@[j]).diff_mode && shows(tabs@[j], path@)))
                && goto == if line > 0 { Some(line) } else { None },
        },
        p matches OpenPlan::Focus(i) ==> forall|j: int| 0 <= j < i ==> !(!(#[trigger] tabs@[j]).diff_mode && shows(tabs@[j], path@)),
{
    match tab_index_for(tabs, path) {
        Some(i) => OpenPlan::Focus(i),
        None => OpenPlan::Load { goto: if line > 0 { Some(line) } else { None } },
    }
}

/// Cycling `delta` tabs and then `-delta` comes back to the same tab.
pub proof fn law_cycle_back(n: int, a: usize, delta: int)
    requires
        0 <= a < n <= usize::MAX,
    ensures
        cycled(n, cycled(n, Some(a), delta), -delta) == Some(a),
{
    let x = a + delta;
    vstd::arithmetic::div_mod::lemma_fundamental_div_mod(x, n);
    let q = x / n;
    assert(x % n - delta == n * (-q) + a) by (nonlinear_arith)
        requires
            x == n * q + x % n,
            x == a + delta,
    ;
    vstd::arithmetic::div_mod::lemma_mod_multiples_vanish(-q, a as int, n);
    vstd::arithmetic::div_mod::lemma_small_mod(a as nat, n as nat);
    vstd::arithmetic::div_mod::lemma_mod_bound(x, n);
    let c = (x % n) as usize;
    assert(c as int == x % n);
    assert(cycled(n, Some(a), delta) == Some(c));
    assert((c + (-delta)) % n == a);
}

/// Closing a tab keeps the view on a tab: closing another tab than the
/// active one leaves the same tab active (at its new place); closing the
/// active tab makes the tab to its right active, or the one to its left when
/// it was the last; closing the only tab leaves none active. Stated over any
/// list of tabs, whose element type plays no part.
pub proof fn law_close_keeps_view<T>(tabs: Seq<T>, a: usize, i: int)
    requires
        a < tabs.len(),
        0 <= i < tabs.len(),
    ensures
        i != a ==> (active_after_close(Some(a), i, tabs.len() as int) matches Some(b) && b < tabs.len() - 1
            && tabs.remove(i)[b as int] == tabs[a as int]),
        i == a && i + 1 < tabs.len() ==> (active_after_close(Some(a), i, tabs.len() as int) matches Some(b)
            && tabs.remove(i)[b as int] == tabs[i + 1]),
        i == a && i + 1 == tabs.len() && i > 0 ==> (active_after_close(Some(a), i, tabs.len() as int) matches Some(b)
            && tabs.remove(i)[b as int] == tabs[i - 1]),
        tabs.len() == 1 ==> active_after_close(Some(a), i, tabs.len() as int) is None,
        active_after_close(None, i, tabs.len() as int) is None,
{
}

} // verus!
