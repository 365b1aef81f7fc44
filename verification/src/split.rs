//! Splitting and trimming text, as `str::split`, `str::lines` and `str::trim` do.
use vstd::prelude::*;

use crate::chars::{char_is_whitespace, is_whitespace};
use crate::text::{chars_of, string_of};

verus! {

/// `s` split at every `sep` (as `str::split` with a char pattern): n separators
/// give n + 1 pieces, empty pieces included.
pub open spec fn split_on(s: Seq<char>, sep: char) -> Seq<Seq<char>>
    decreases s.len(),
{
    if s.len() == 0 {
        seq![Seq::<char>::empty()]
    } else {
        let p = split_on(s.drop_last(), sep);
        if s.last() == sep {
            p.push(Seq::<char>::empty())
        } else {
            p.update(p.len() - 1, p.last().push(s.last()))
        }
    }
}

pub proof fn lemma_split_on_len(s: Seq<char>, sep: char)
    ensures
        split_on(s, sep).len() >= 1,
    decreases s.len(),
{
    if s.len() > 0 {
        lemma_split_on_len(s.drop_last(), sep);
    }
}

/// The pieces of `s` split at `sep`, each as a `String`.
pub fn split_chars(s: &str, sep: char) -> (r: Vec<String>)
    ensures
        r@.len() == split_on(s@, sep).len(),
        forall|i: int| 0 <= i < r@.len() ==> #[trigger] r@[i]@ == split_on(s@, sep)[i],
{
    let cs = chars_of(s);
    let mut done: Vec<String> = Vec::new();
    let mut cur: Vec<char> = Vec::new();
    let n = cs.len();
    for i in 0..n
        invariant
            n == cs@.len(),
            cs@ == s@,
            split_on(cs@.take(i as int), sep).len() == done@.len() + 1,
            forall|k: int| 0 <= k < done@.len() ==> #[trigger] done@[k]@ == split_on(cs@.take(i as int), sep)[k],
            cur@ == split_on(cs@.take(i as int), sep).last(),
    {
        let c = cs[i];
        proof {
            let t = cs@.take(i + 1);
            assert(t.drop_last() == cs@.take(i as int));
            assert(t.last() == c);
            lemma_split_on_len(cs@.take(i as int), sep);
        }
        if c == sep {
            let piece = string_of(cur.as_slice());
            done.push(piece);
            cur = Vec::new();
        } else {
            cur.push(c);
        }
    }
    proof {
        assert(cs@.take(n as int) == cs@);
    }
    let last = string_of(cur.as_slice());
    done.push(last);
    done
}

/// Index just past the leading whitespace of `s`.
pub open spec fn ws_prefix_end(s: Seq<char>, i: int) -> int
    decreases s.len() - i,
{
    if 0 <= i < s.len() && is_whitespace(s[i]) { ws_prefix_end(s, i + 1) } else { i }
}

/// Index of the start of the trailing whitespace of `s` (scanning back from `j`).
pub open spec fn ws_suffix_start(s: Seq<char>, j: int) -> int
    decreases j,
{
    if 0 < j <= s.len() && is_whitespace(s[j - 1]) { ws_suffix_start(s, j - 1) } else { j }
}

/// `s` without leading and trailing whitespace (as `str::trim`).
pub open spec fn trim(s: Seq<char>) -> Seq<char> {
    let a = ws_prefix_end(s, 0);
    let b = ws_suffix_start(s, s.len() as int);
    if a < b { s.subrange(a, b) } else { Seq::empty() }
}

proof fn lemma_ws_prefix(s: Seq<char>, i: int)
    requires
        0 <= i <= s.len(),
    ensures
        i <= ws_prefix_end(s, i) <= s.len(),
        forall|k: int| i <= k < ws_prefix_end(s, i) ==> is_whitespace(s[k]),
    decreases s.len() - i,
{
    if i < s.len() && is_whitespace(s[i]) {
        lemma_ws_prefix(s, i + 1);
    }
}

proof fn lemma_ws_suffix(s: Seq<char>, j: int)
    requires
        0 <= j <= s.len(),
    ensures
        0 <= ws_suffix_start(s, j) <= j,
        forall|k: int| ws_suffix_start(s, j) <= k < j ==> is_whitespace(s[k]),
    decreases j,
{
    if j > 0 && is_whitespace(s[j - 1]) {
        lemma_ws_suffix(s, j - 1);
    }
}

/// The characters of `s` without leading and trailing whitespace.
pub fn trim_chars(s: &[char]) -> (r: Vec<char>)
    ensures
        r@ == trim(s@),
{
    let n = s.len();
    let mut a: usize = 0;
    while a < n && char_is_whitespace(s[a])
        invariant
            n == s@.len(),
            a <= n,
            ws_prefix_end(s@, a as int) == ws_prefix_end(s@, 0),
        decreases n - a,
    {
        a += 1;
    }
    let mut b: usize = n;
    while b > 0 && char_is_whitespace(s[b - 1])
        invariant
            n == s@.len(),
            b <= n,
            ws_suffix_start(s@, b as int) == ws_suffix_start(s@, n as int),
        decreases b,
    {
        b -= 1;
    }
    let mut r: Vec<char> = Vec::new();
    if a < b {
        for k in a..b
            invariant
                a <= b <= n,
                n == s@.len(),
                r@ == s@.subrange(a as int, k as int),
        {
            r.push(s[k]);
            assert(s@.subrange(a as int, k + 1) == s@.subrange(a as int, k as int).push(s@[k as int]));
        }
    }
    r
}

/// `s` without leading and trailing whitespace (as `str::trim`).
pub fn trim_str(s: &str) -> (r: String)
    ensures
        r@ == trim(s@),
{
    let cs = chars_of(s);
    let t = trim_chars(cs.as_slice());
    string_of(t.as_slice())
}

/// `s` without trailing whitespace (as `str::trim_end`).
pub open spec fn trim_end(s: Seq<char>) -> Seq<char> {
    s.subrange(0, ws_suffix_start(s, s.len() as int))
}

/// `s` without trailing whitespace (as `str::trim_end`).
pub fn trim_end_str(s: &str) -> (r: String)
    ensures
        r@ == trim_end(s@),
{
    let cs = chars_of(s);
    let n = cs.len();
    let mut b: usize = n;
    while b > 0 && char_is_whitespace(cs[b - 1])
        invariant
            n == cs@.len(),
            cs@ == s@,
            b <= n,
            ws_suffix_start(cs@, b as int) == ws_suffix_start(cs@, n as int),
        decreases b,
    {
        b -= 1;
    }
    let mut r: Vec<char> = Vec::new();
    for k in 0..b
        invariant
            b <= n,
            n == cs@.len(),
            r@ == cs@.subrange(0, k as int),
    {
        r.push(cs[k]);
        assert(cs@.subrange(0, k + 1) == cs@.subrange(0, k as int).push(cs@[k as int]));
    }
    string_of(r.as_slice())
}

/// A line without one trailing '\r'.
pub open spec fn strip_cr(p: Seq<char>) -> Seq<char> {
    if p.len() > 0 && p.last() == '\r' { p.drop_last() } else { p }
}

/// The lines of `s` (as `str::lines`): the pieces between '\n's, each '\n'-ended
/// one without a trailing '\r', and no empty piece after a final '\n'.
pub open spec fn lines(s: Seq<char>) -> Seq<Seq<char>> {
    let parts = split_on(s, '\n');
    let body = parts.drop_last().map_values(|p: Seq<char>| strip_cr(p));
    if parts.last().len() == 0 { body } else { body.push(parts.last()) }
}

/// The lines of `s` (as `str::lines`).
pub fn lines_of(s: &str) -> (r: Vec<String>)
    ensures
        r@.len() == lines(s@).len(),
        forall|i: int| 0 <= i < r@.len() ==> #[trigger] r@[i]@ == lines(s@)[i],
{
    let parts = split_chars(s, '\n');
    proof {
        lemma_split_on_len(s@, '\n');
    }
    let ghost sp = split_on(s@, '\n');
    let n = parts.len();
    let mut out: Vec<String> = Vec::new();
    for i in 0..n - 1
        invariant
            n == parts@.len(),
            n == sp.len(),
            n >= 1,
            sp == split_on(s@, '\n'),
            forall|k: int| 0 <= k < n ==> #[trigger] parts@[k]@ == sp[k],
            out@.len() == i,
            forall|k: int| 0 <= k < i ==> #[trigger] out@[k]@ == strip_cr(sp[k]),
    {
        let cs = chars_of(parts[i].as_str());
        let m = cs.len();
        let piece = if m > 0 && cs[m - 1] == '\r' {
            let mut t = cs.clone();
            t.pop();
            proof {
                assert(t@ == cs@.drop_last());
            }
            string_of(t.as_slice())
        } else {
            string_of(cs.as_slice())
        };
        out.push(piece);
    }
    let last = chars_of(parts[n - 1].as_str());
    if last.len() > 0 {
        out.push(string_of(last.as_slice()));
    }
    proof {
        let body = sp.drop_last().map_values(|p: Seq<char>| strip_cr(p));
        assert(body.len() == n - 1);
    }
    out
}

} // verus!
