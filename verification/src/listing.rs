//! The order in which the explorer lists a directory's entries.
use vstd::prelude::*;

use crate::extensions::{lemma_lex_irreflexive, lemma_lex_total, lemma_lex_transitive, lex_lt, str_lt};
use crate::filetree::entries_view;
use crate::keybindings::{ascii_lower, ascii_lower_str};
use crate::paths::{file_name, file_name_of};
use crate::text::{copy_str, str_eq};

verus! {

/// The name an entry is sorted by: its file name, lower-cased in ASCII (empty
/// for a path that has none).
pub open spec fn sort_name(p: Seq<char>) -> Seq<char> {
    match file_name_of(p) {
        Some(n) => ascii_lower(n),
        None => Seq::empty(),
    }
}

/// The repository's own directory, which the explorer leaves out.
pub open spec fn is_hidden(p: Seq<char>) -> bool {
    file_name_of(p) == Some(".git"@)
}

/// Entry `a` sorts strictly before entry `b`: directories come first, then
/// entries go by sort name.
pub open spec fn entry_lt(a: (Seq<char>, bool), b: (Seq<char>, bool)) -> bool {
    (a.1 && !b.1) || (a.1 == b.1 && lex_lt(sort_name(a.0), sort_name(b.0)))
}

/// Position `i` of `es` is listed before position `j`: it sorts first, or the
/// two tie and `i` came first.
pub open spec fn listed_before(es: Seq<(Seq<char>, bool)>, i: int, j: int) -> bool {
    entry_lt(es[i], es[j]) || (!entry_lt(es[j], es[i]) && i < j)
}

/// `order` lists every position of `es` once, in listing order.
pub open spec fn listing_order(es: Seq<(Seq<char>, bool)>, order: Seq<int>) -> bool {
    &&& order.len() == es.len()
    &&& forall|k: int| 0 <= k < order.len() ==> 0 <= #[trigger] order[k] < es.len()
    &&& forall|k: int, l: int| 0 <= k < l < order.len() ==> order[k] != order[l]
    &&& forall|k: int, l: int|
        0 <= k < l < order.len() ==> listed_before(es, #[trigger] order[k], #[trigger] order[l])
}

/// The entries the explorer shows: all but the repository directory.
pub open spec fn shown(es: Seq<(Seq<char>, bool)>) -> Seq<(Seq<char>, bool)> {
    es.filter(|e: (Seq<char>, bool)| !is_hidden(e.0))
}

/// The entries of `es` taken in `order`.
pub open spec fn in_order(es: Seq<(Seq<char>, bool)>, order: Seq<int>) -> Seq<(Seq<char>, bool)> {
    order.map_values(|i: int| es[i])
}

/// Two entries that neither sorts before the other agree on kind and sort name.
proof fn lemma_tie(a: (Seq<char>, bool), b: (Seq<char>, bool))
    ensures
        !entry_lt(a, a),
        entry_lt(a, b) ==> !entry_lt(b, a),
        !entry_lt(a, b) && !entry_lt(b, a) ==> a.1 == b.1 && sort_name(a.0) == sort_name(b.0),
{
    lemma_lex_irreflexive(sort_name(a.0));
    lemma_lex_total(sort_name(a.0), sort_name(b.0));
    if lex_lt(sort_name(a.0), sort_name(b.0)) && lex_lt(sort_name(b.0), sort_name(a.0)) {
        lemma_lex_transitive(sort_name(a.0), sort_name(b.0), sort_name(a.0));
    }
}

/// Listing order is transitive.
proof fn lemma_listed_transitive(es: Seq<(Seq<char>, bool)>, i: int, j: int, k: int)
    requires
        listed_before(es, i, j),
        listed_before(es, j, k),
    ensures
        listed_before(es, i, k),
{
    let (a, b, c) = (es[i], es[j], es[k]);
    lemma_tie(a, b);
    lemma_tie(b, c);
    lemma_tie(a, c);
    lemma_tie(c, a);
    let (na, nb, nc) = (sort_name(a.0), sort_name(b.0), sort_name(c.0));
    if lex_lt(na, nb) && lex_lt(nb, nc) {
        lemma_lex_transitive(na, nb, nc);
    }
    if lex_lt(nc, na) && lex_lt(na, nb) {
        lemma_lex_transitive(nc, na, nb);
    }
    if lex_lt(nb, nc) && lex_lt(nc, na) {
        lemma_lex_transitive(nb, nc, na);
    }
}

/// The sort name of a path.
fn sort_name_of(p: &str) -> (r: String)
    ensures
        r@ == sort_name(p@),
{
    match file_name(p) {
        Some(n) => ascii_lower_str(&n),
        None => String::new(),
    }
}

/// Whether a path names the repository directory.
fn hidden(p: &str) -> (b: bool)
    ensures
        b == is_hidden(p@),
{
    match file_name(p) {
        Some(n) => str_eq(&n, ".git"),
        None => false,
    }
}

/// Whether an entry of kind `ad` and sort name `an` sorts before one of kind
/// `bd` and sort name `bn`.
fn sorts_before(ad: bool, an: &str, bd: bool, bn: &str) -> (r: bool)
    ensures
        r == ((ad && !bd) || (ad == bd && lex_lt(an@, bn@))),
{
    if ad != bd {
        ad
    } else {
        str_lt(an, bn)
    }
}


/// The positions of `es`, in listing order (a stable insertion sort).
fn listing_positions(dirs: &Vec<bool>, names: &Vec<String>, Ghost(es): Ghost<Seq<(Seq<char>, bool)>>) -> (order: Vec<usize>)
    requires
        dirs@.len() == es.len(),
        names@.len() == es.len(),
        forall|k: int| #![trigger es[k]] 0 <= k < es.len() ==> es[k].1 == dirs@[k] && sort_name(es[k].0) == names@[k]@,
    ensures
        listing_order(es, order@.map_values(|i: usize| i as int)),
{
    let mut order: Vec<usize> = Vec::new();
    let n = dirs.len();
    for j in 0..n
        invariant
            n == es.len(),
            dirs@.len() == es.len(),
            names@.len() == es.len(),
            forall|k: int| #![trigger es[k]] 0 <= k < es.len() ==> es[k].1 == dirs@[k] && sort_name(es[k].0) == names@[k]@,
            order@.len() == j,
            forall|k: int| 0 <= k < order@.len() ==> 0 <= #[trigger] order@[k] < j,
            forall|k: int, l: int| 0 <= k < l < order@.len() ==> order@[k] != order@[l],
            forall|k: int, l: int|
                0 <= k < l < order@.len() ==> listed_before(es, #[trigger] order@[k] as int, #[trigger] order@[l] as int),
    {
        let mut p: usize = 0;
        let len = order.len();
        while p < len && !sorts_before(dirs[j], &names[j], dirs[order[p]], &names[order[p]])
            invariant
                len == order@.len(),
                p <= len,
                n == es.len(),
                j < n,
                dirs@.len() == es.len(),
                names@.len() == es.len(),
                forall|k: int| #![trigger es[k]] 0 <= k < es.len() ==> es[k].1 == dirs@[k] && sort_name(es[k].0) == names@[k]@,
                forall|k: int| 0 <= k < order@.len() ==> 0 <= #[trigger] order@[k] < j,
                forall|k: int| 0 <= k < p ==> listed_before(es, #[trigger] order@[k] as int, j as int),
            decreases len - p,
        {
            proof {
                let o = order@[p as int] as int;
                assert(es[o].1 == dirs@[o] && sort_name(es[o].0) == names@[o]@);
                assert(es[j as int].1 == dirs@[j as int] && sort_name(es[j as int].0) == names@[j as int]@);
                assert(!entry_lt(es[j as int], es[o]));
            }
            p += 1;
        }
        proof {
            if p < len {
                let o = order@[p as int] as int;
                assert(es[o].1 == dirs@[o] && sort_name(es[o].0) == names@[o]@);
                assert(es[j as int].1 == dirs@[j as int] && sort_name(es[j as int].0) == names@[j as int]@);
                assert(entry_lt(es[j as int], es[o]));
                assert(listed_before(es, j as int, o));
                assert forall|k: int| p <= k < len implies listed_before(es, j as int, #[trigger] order@[k] as int) by {
                    if k > p {
                        lemma_listed_transitive(es, j as int, o, order@[k] as int);
                    }
                }
            }
        }
        let ghost old_order = order@;
        order.insert(p, j);
        proof {
            assert forall|k: int| 0 <= k < order@.len() implies 0 <= #[trigger] order@[k] < j + 1 by {
                if k < p {
                    assert(order@[k] == old_order[k]);
                } else if k > p {
                    assert(order@[k] == old_order[k - 1]);
                }
            }
            assert forall|k: int, l: int| 0 <= k < l < order@.len() implies order@[k] != order@[l] by {
                if k < p && l < p {
                    assert(order@[k] == old_order[k] && order@[l] == old_order[l]);
                } else if k < p && l == p {
                    assert(order@[k] == old_order[k]);
                } else if k < p {
                    assert(order@[k] == old_order[k] && order@[l] == old_order[l - 1]);
                } else if k == p {
                    assert(order@[l] == old_order[l - 1]);
                } else {
                    assert(order@[k] == old_order[k - 1] && order@[l] == old_order[l - 1]);
                }
            }
            assert forall|k: int, l: int| 0 <= k < l < order@.len() implies listed_before(
                es,
                #[trigger] order@[k] as int,
                #[trigger] order@[l] as int,
            ) by {
                if k < p && l < p {
                    assert(order@[k] == old_order[k] && order@[l] == old_order[l]);
                } else if k < p && l == p {
                    assert(order@[k] == old_order[k]);
                } else if k < p {
                    assert(order@[k] == old_order[k] && order@[l] == old_order[l - 1]);
                } else if k == p {
                    assert(order@[l] == old_order[l - 1]);
                } else {
                    assert(order@[k] == old_order[k - 1] && order@[l] == old_order[l - 1]);
                }
            }
        }
    }
    proof {
        let o = order@.map_values(|i: usize| i as int);
        assert forall|k: int| 0 <= k < o.len() implies 0 <= #[trigger] o[k] < es.len() by {
            assert(o[k] == order@[k] as int);
        }
        assert forall|k: int, l: int| 0 <= k < l < o.len() implies o[k] != o[l] by {
            assert(o[k] == order@[k] as int && o[l] == order@[l] as int);
        }
        assert forall|k: int, l: int| 0 <= k < l < o.len() implies listed_before(es, #[trigger] o[k], #[trigger] o[l]) by {
            assert(o[k] == order@[k] as int && o[l] == order@[l] as int);
        }
    }
    order
}

/// A directory's entries as the explorer lists them: the repository
/// directory left out, directories before files, then by file name compared
/// in ASCII lower case; entries that tie keep the order they were read in.
pub fn dir_listing(entries: Vec<(String, bool)>) -> (r: Vec<(String, bool)>)
    ensures
        exists|order: Seq<int>|
            listing_order(shown(entries_view(entries@)), order) && entries_view(r@) == in_order(
                shown(entries_view(entries@)),
                order,
            ),
{
    let ghost ev = entries_view(entries@);
    let mut kept: Vec<(String, bool)> = Vec::new();
    let mut dirs: Vec<bool> = Vec::new();
    let mut names: Vec<String> = Vec::new();
    let n = entries.len();
    for i in 0..n
        invariant
            n == entries@.len(),
            ev == entries_view(entries@),
            entries_view(kept@) == shown(ev.take(i as int)),
            dirs@.len() == kept@.len(),
            names@.len() == kept@.len(),
            forall|k: int| #![trigger kept@[k]] 0 <= k < kept@.len() ==> kept@[k].1 == dirs@[k] && sort_name(kept@[k].0@) == names@[k]@,
    {
        let path = &entries[i].0;
        let is_dir = entries[i].1;
        let skip = hidden(path);
        proof {
            reveal(Seq::filter);
            let t = ev.take(i + 1);
            assert(t.drop_last() =~= ev.take(i as int));
            assert(t.last() == (path@, is_dir));
        }
        if !skip {
            let ghost before = kept@;
            kept.push((copy_str(path), is_dir));
            dirs.push(is_dir);
            names.push(sort_name_of(path));
            proof {
                assert(entries_view(kept@) =~= entries_view(before).push((path@, is_dir)));
            }
        } else {
        }
    }
    proof {
        assert(ev.take(n as int) =~= ev);
    }
    let ghost ks = entries_view(kept@);
    proof {
        assert forall|k: int| #![trigger ks[k]] 0 <= k < ks.len() implies ks[k].1 == dirs@[k] && sort_name(ks[k].0) == names@[k]@ by {
            assert(kept@[k].1 == dirs@[k]);
        }
    }
    let order = listing_positions(&dirs, &names, Ghost(ks));
    let mut r: Vec<(String, bool)> = Vec::new();
    let m = order.len();
    let ghost o = order@.map_values(|i: usize| i as int);
    for k in 0..m
        invariant
            m == order@.len(),
            o == order@.map_values(|i: usize| i as int),
            ks == entries_view(kept@),
            listing_order(ks, o),
            entries_view(r@) == in_order(ks, o.take(k as int)),
    {
        let at = order[k];
        proof {
            assert(o[k as int] == at as int);
        }
        let ghost before = r@;
        r.push((copy_str(&kept[at].0), kept[at].1));
        proof {
            assert(entries_view(r@) =~= entries_view(before).push(ks[at as int]));
            assert(in_order(ks, o.take(k + 1)) =~= in_order(ks, o.take(k as int)).push(ks[at as int]));
        }
    }
    proof {
        assert(o.take(m as int) =~= o);
        assert(listing_order(shown(entries_view(entries@)), o));
    }
    r
}

} // verus!
