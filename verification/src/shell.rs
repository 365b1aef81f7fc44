//! Shell completion of a half-typed path (`src/ma` -> `src/main.rs`): which
//! directory to list, and which of its entries to offer.
use vstd::prelude::*;

use crate::extensions::{lemma_lex_irreflexive, lemma_lex_total, lemma_lex_transitive, lex_lt, str_lt};
use crate::paths::{join, joined_of};
use crate::text::{chars_of, copy_str, string_of};

verus! {

broadcast use vstd::seq_lib::to_multiset_build, vstd::seq_lib::to_multiset_insert;

/// The position of the last '/' in `w` before position `n`.
pub open spec fn last_slash(w: Seq<char>, n: int) -> Option<int>
    decreases n,
{
    if n <= 0 {
        None
    } else if w[n - 1] == '/' {
        Some(n - 1)
    } else {
        last_slash(w, n - 1)
    }
}

/// A typed word split into the directory part (up to and including its last
/// '/') and the name prefix after it.
pub open spec fn word_parts(w: Seq<char>) -> (Seq<char>, Seq<char>) {
    match last_slash(w, w.len() as int) {
        Some(i) => (w.take(i + 1), w.skip(i + 1)),
        None => (Seq::empty(), w),
    }
}

/// Splits a typed word into its directory part and name prefix.
pub fn split_word(word: &str) -> (r: (String, String))
    ensures
        (r.0@, r.1@) == word_parts(word@),
{
    let cs = chars_of(word);
    let mut k = cs.len();
    while k > 0 && cs[k - 1] != '/'
        invariant
            cs@ == word@,
            k <= cs@.len(),
            last_slash(word@, word@.len() as int) == last_slash(word@, k as int),
        decreases k,
    {
        k -= 1;
    }
    let mut dir: Vec<char> = Vec::new();
    let mut rest: Vec<char> = Vec::new();
    let n = cs.len();
    for i in 0..n
        invariant
            n == cs@.len(),
            cs@ == word@,
            k <= n,
            dir@ == word@.take(if i <= k { i as int } else { k as int }),
            rest@ == if i <= k { Seq::<char>::empty() } else { word@.subrange(k as int, i as int) },
    {
        if i < k {
            dir.push(cs[i]);
            assert(word@.take(i + 1) =~= word@.take(i as int).push(cs@[i as int]));
        } else {
            rest.push(cs[i]);
            assert(word@.subrange(k as int, i + 1) =~= (if i <= k { Seq::<char>::empty() } else { word@.subrange(k as int, i as int) }).push(cs@[i as int]));
        }
    }
    assert(word@.subrange(k as int, n as int) =~= word@.skip(k as int));
    assert(dir@ =~= word@.take(k as int));
    (string_of(dir.as_slice()), string_of(rest.as_slice()))
}

/// The directory to list for a directory part: a leading "~/" is the home
/// directory (kept as typed when there is none), and nothing typed is the
/// current directory.
pub open spec fn dir_to_read(dir: Seq<char>, home: Option<Seq<char>>) -> Seq<char> {
    if dir.len() >= 2 && dir[0] == '~' && dir[1] == '/' {
        match home {
            Some(h) => joined_of(h, dir.skip(2)),
            None => dir,
        }
    } else if dir.len() == 0 {
        seq!['.']
    } else {
        dir
    }
}

/// The directory to list for a typed directory part.
pub fn read_dir_for(dir: &str, home: Option<&str>) -> (r: String)
    ensures
        r@ == dir_to_read(dir@, match home {
            Some(h) => Some(h@),
            None => None,
        }),
{
    let cs = chars_of(dir);
    if cs.len() >= 2 && cs[0] == '~' && cs[1] == '/' {
        match home {
            Some(h) => {
                let mut rest: Vec<char> = Vec::new();
                let n = cs.len();
                for i in 2..n
                    invariant
                        n == cs@.len(),
                        cs@ == dir@,
                        2 <= n,
                        rest@ == dir@.subrange(2, i as int),
                {
                    rest.push(cs[i]);
                    assert(rest@ =~= dir@.subrange(2, i + 1));
                }
                assert(rest@ =~= dir@.skip(2));
                join(h, &string_of(rest.as_slice()))
            },
            None => copy_str(dir),
        }
    } else if cs.len() == 0 {
        let v: Vec<char> = vec!['.'];
        assert(v@ =~= seq!['.']);
        string_of(v.as_slice())
    } else {
        copy_str(dir)
    }
}

/// Whether an entry named `name` is offered for the prefix: it starts with
/// the prefix, and a dotfile only once a leading dot is typed.
pub open spec fn offered(name: Seq<char>, prefix: Seq<char>) -> bool {
    &&& !(name.len() > 0 && name[0] == '.') || (prefix.len() > 0 && prefix[0] == '.')
    &&& prefix.is_prefix_of(name)
}

/// The candidate for an entry: the directory part, its name, and a '/' for
/// a directory.
pub open spec fn candidate(dir: Seq<char>, name: Seq<char>, is_dir: bool) -> Seq<char> {
    dir + name + if is_dir { seq!['/'] } else { Seq::empty() }
}

/// The candidates of the offered entries, in listing order.
pub open spec fn candidates_of(dir: Seq<char>, prefix: Seq<char>, es: Seq<(Seq<char>, bool)>) -> Seq<Seq<char>>
    decreases es.len(),
{
    if es.len() == 0 {
        Seq::empty()
    } else {
        candidates_of(dir, prefix, es.drop_last()) + if offered(es.last().0, prefix) {
            seq![candidate(dir, es.last().0, es.last().1)]
        } else {
            Seq::empty()
        }
    }
}

/// Strings in ascending order (ties allowed).
pub open spec fn ascending(s: Seq<Seq<char>>) -> bool {
    forall|i: int, j: int| 0 <= i < j < s.len() ==> !lex_lt(#[trigger] s[j], #[trigger] s[i])
}

fn starts_with_chars(name: &Vec<char>, prefix: &Vec<char>) -> (b: bool)
    ensures
        b == prefix@.is_prefix_of(name@),
{
    if prefix.len() > name.len() {
        return false;
    }
    let n = prefix.len();
    for i in 0..n
        invariant
            n == prefix@.len(),
            n <= name@.len(),
            forall|j: int| 0 <= j < i ==> prefix@[j] == name@[j],
    {
        if prefix[i] != name[i] {
            return false;
        }
    }
    assert(prefix@ =~= name@.take(n as int));
    true
}

/// Inserts `x` into ascending `out`, after the entries that do not sort
/// after it.
fn insert_sorted(out: &mut Vec<String>, x: String)
    requires
        ascending(old(out)@.map_values(|s: String| s@)),
    ensures
        ascending(final(out)@.map_values(|s: String| s@)),
        final(out)@.map_values(|s: String| s@).to_multiset() == old(out)@.map_values(|s: String| s@).to_multiset().insert(
            x@,
        ),
{
    let ghost before = out@.map_values(|s: String| s@);
    let len = out.len();
    let mut p: usize = 0;
    while p < len && !str_lt(&x, &out[p])
        invariant
            len == out@.len(),
            before == out@.map_values(|s: String| s@),
            ascending(before),
            p <= len,
            forall|k: int| 0 <= k < p ==> !lex_lt(x@, #[trigger] before[k]),
        decreases len - p,
    {
        p += 1;
    }
    proof {
        if p < len {
            assert(lex_lt(x@, before[p as int]));
            assert forall|k: int| p <= k < len implies lex_lt(x@, #[trigger] before[k]) by {
                if k > p {
                    lemma_lex_total(before[p as int], before[k]);
                    if lex_lt(before[p as int], before[k]) {
                        lemma_lex_transitive(x@, before[p as int], before[k]);
                    }
                }
            }
        }
    }
    out.insert(p, x);
    proof {
        let after = out@.map_values(|s: String| s@);
        assert(after =~= before.insert(p as int, x@));
        assert forall|i: int, j: int| 0 <= i < j < after.len() implies !lex_lt(#[trigger] after[j], #[trigger] after[i]) by {
            if i < p && j < p {
            } else if i < p && j == p {
                assert(after[i] == before[i]);
                lemma_lex_total(x@, before[i]);
                if lex_lt(x@, before[i]) {
                } else if x@ == before[i] {
                    lemma_lex_irreflexive(x@);
                }
            } else if i < p {
                assert(after[i] == before[i] && after[j] == before[j - 1]);
            } else if i == p {
                assert(after[j] == before[j - 1]);
                assert(lex_lt(x@, before[j - 1]));
                if lex_lt(before[j - 1], x@) {
                    lemma_lex_transitive(x@, before[j - 1], x@);
                    lemma_lex_irreflexive(x@);
                }
            } else {
                assert(after[i] == before[i - 1] && after[j] == before[j - 1]);
            }
        }
    }
}

/// The completion candidates among a directory's entries (name, is_dir) for
/// a typed directory part and prefix: the offered entries as the directory
/// part, the name and a '/' for a directory, in ascending order.
pub fn path_candidates(dir: &str, prefix: &str, entries: Vec<(String, bool)>) -> (r: Vec<String>)
    ensures
        ascending(r@.map_values(|s: String| s@)),
        r@.map_values(|s: String| s@).to_multiset() == candidates_of(
            dir@,
            prefix@,
            entries@.map_values(|e: (String, bool)| (e.0@, e.1)),
        ).to_multiset(),
{
    let ghost ev = entries@.map_values(|e: (String, bool)| (e.0@, e.1));
    let pc = chars_of(prefix);
    let dc = chars_of(dir);
    let dotted = pc.len() > 0 && pc[0] == '.';
    let mut out: Vec<String> = Vec::new();
    let n = entries.len();
    assert(ev.take(0) =~= Seq::<(Seq<char>, bool)>::empty());
    assert(out@.map_values(|s: String| s@) =~= candidates_of(dir@, prefix@, ev.take(0)));
    for i in 0..n
        invariant
            n == entries@.len(),
            ev == entries@.map_values(|e: (String, bool)| (e.0@, e.1)),
            pc@ == prefix@,
            dc@ == dir@,
            dotted == (prefix@.len() > 0 && prefix@[0] == '.'),
            ascending(out@.map_values(|s: String| s@)),
            out@.map_values(|s: String| s@).to_multiset() == candidates_of(dir@, prefix@, ev.take(i as int)).to_multiset(),
    {
        let name = chars_of(&entries[i].0);
        let is_dir = entries[i].1;
        proof {
            assert(ev.take(i + 1).drop_last() =~= ev.take(i as int));
            assert(ev.take(i + 1).last() == (entries@[i as int].0@, is_dir));
        }
        let hidden = name.len() > 0 && name[0] == '.';
        if (!hidden || dotted) && starts_with_chars(&name, &pc) {
            let mut cand: Vec<char> = Vec::new();
            let dn = dc.len();
            for k in 0..dn
                invariant
                    dn == dc@.len(),
                    cand@ == dc@.take(k as int),
            {
                cand.push(dc[k]);
                assert(cand@ =~= dc@.take(k + 1));
            }
            let nn = name.len();
            for k in 0..nn
                invariant
                    nn == name@.len(),
                    cand@ == dc@ + name@.take(k as int),
            {
                cand.push(name[k]);
                assert(cand@ =~= dc@ + name@.take(k + 1));
            }
            assert(name@.take(nn as int) =~= name@);
            assert(dc@.take(dn as int) =~= dc@);
            if is_dir {
                cand.push('/');
            }
            let s = string_of(cand.as_slice());
            proof {
                assert(s@ =~= candidate(dir@, entries@[i as int].0@, is_dir));
                let c = candidates_of(dir@, prefix@, ev.take(i as int));
                assert(candidates_of(dir@, prefix@, ev.take(i + 1)) =~= c.push(s@));
            }
            insert_sorted(&mut out, s);
        } else {
            proof {
                assert(candidates_of(dir@, prefix@, ev.take(i + 1)) =~= candidates_of(dir@, prefix@, ev.take(i as int)));
            }
        }
    }
    assert(ev.take(n as int) =~= ev);
    out
}

} // verus!
