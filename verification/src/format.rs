//! Formatting a buffer's text on save, and one-line status messages.
use vstd::prelude::*;
use vstd::string::*;

use crate::split::{lines, lines_of, split_chars, split_on, trim, trim_str};
use crate::text::{chars_of, copy_str, string_of};

verus! {

/// A line without its trailing spaces and tabs.
pub open spec fn trim_spaces_tabs(l: Seq<char>) -> Seq<char>
    decreases l.len(),
{
    if l.len() > 0 && (l.last() == ' ' || l.last() == '\t') { trim_spaces_tabs(l.drop_last()) } else { l }
}

/// Pieces joined with '\n' between them.
pub open spec fn join_lines(ps: Seq<Seq<char>>) -> Seq<char>
    decreases ps.len(),
{
    if ps.len() == 0 {
        Seq::empty()
    } else if ps.len() == 1 {
        ps[0]
    } else {
        join_lines(ps.drop_last()) + seq!['\n'] + ps.last()
    }
}

/// A text without its trailing '\n' characters.
pub open spec fn strip_newlines(t: Seq<char>) -> Seq<char>
    decreases t.len(),
{
    if t.len() > 0 && t.last() == '\n' { strip_newlines(t.drop_last()) } else { t }
}

/// The text formatted on save: optionally every line without trailing spaces
/// and tabs, then optionally a non-empty text made to end in a single '\n'.
pub open spec fn formatted(text: Seq<char>, trim: bool, final_nl: bool) -> Seq<char> {
    let t = if trim {
        join_lines(split_on(text, '\n').map_values(|l: Seq<char>| trim_spaces_tabs(l)))
    } else {
        text
    };
    if final_nl && t.len() > 0 { strip_newlines(t).push('\n') } else { t }
}

fn trim_line(l: &str) -> (r: String)
    ensures
        r@ == trim_spaces_tabs(l@),
{
    let mut cs = chars_of(l);
    while cs.len() > 0 && (cs[cs.len() - 1] == ' ' || cs[cs.len() - 1] == '\t')
        invariant
            trim_spaces_tabs(cs@) == trim_spaces_tabs(l@),
        decreases cs.len(),
    {
        let ghost before = cs@;
        cs.pop();
        assert(cs@ == before.drop_last());
    }
    string_of(cs.as_slice())
}

/// Trims trailing whitespace per line and/or ensures a single final newline.
pub fn format_text(text: &str, trim: bool, final_nl: bool) -> (r: String)
    ensures
        r@ == formatted(text@, trim, final_nl),
{
    let mut result = if trim {
        let parts = split_chars(text, '\n');
        let ghost ps = split_on(text@, '\n').map_values(|l: Seq<char>| trim_spaces_tabs(l));
        let mut out = String::new();
        let n = parts.len();
        for i in 0..n
            invariant
                n == parts@.len(),
                n == ps.len(),
                ps == split_on(text@, '\n').map_values(|l: Seq<char>| trim_spaces_tabs(l)),
                forall|k: int| 0 <= k < n ==> #[trigger] parts@[k]@ == split_on(text@, '\n')[k],
                out@ == join_lines(ps.take(i as int)),
        {
            proof {
                assert(ps.take(i + 1).drop_last() =~= ps.take(i as int));
                assert(ps.take(i + 1).last() == ps[i as int]);
            }
            if i > 0 {
                out.push('\n');
            }
            let t = trim_line(parts[i].as_str());
            out.append(t.as_str());
            proof {
                if i == 0 {
                    assert(out@ =~= ps.take(1)[0]);
                } else {
                    assert(out@ =~= join_lines(ps.take(i as int)) + seq!['\n'] + ps[i as int]);
                }
            }
        }
        assert(ps.take(n as int) =~= ps);
        out
    } else {
        copy_str(text)
    };
    let mut cs = chars_of(result.as_str());
    if final_nl && cs.len() > 0 {
        let ghost t = cs@;
        while cs.len() > 0 && cs[cs.len() - 1] == '\n'
            invariant
                strip_newlines(cs@) == strip_newlines(t),
            decreases cs.len(),
        {
            let ghost before = cs@;
            cs.pop();
            assert(cs@ == before.drop_last());
        }
        cs.push('\n');
        return string_of(cs.as_slice());
    }
    result
}

/// The first line of a message that is not blank, trimmed; empty without one.
pub open spec fn first_line_of(ls: Seq<Seq<char>>) -> Seq<char>
    decreases ls.len(),
{
    if ls.len() == 0 {
        Seq::empty()
    } else if trim(ls[0]).len() > 0 {
        trim(ls[0])
    } else {
        first_line_of(ls.drop_first())
    }
}

/// The first non-empty line of a message, for the one-line status bar.
pub fn first_line(s: &str) -> (r: String)
    ensures
        r@ == first_line_of(lines(s@)),
{
    let ls = lines_of(s);
    let ghost lv = lines(s@);
    let n = ls.len();
    let mut i: usize = 0;
    assert(lv.skip(0) =~= lv);
    while i < n
        invariant
            n == lv.len(),
            lv == lines(s@),
            n == ls@.len(),
            i <= n,
            forall|k: int| 0 <= k < n ==> #[trigger] ls@[k]@ == lv[k],
            first_line_of(lv) == first_line_of(lv.skip(i as int)),
        decreases n - i,
    {
        proof {
            assert(lv.skip(i as int)[0] == lv[i as int]);
            assert(lv.skip(i as int).drop_first() =~= lv.skip(i + 1));
        }
        let t = trim_str(ls[i].as_str());
        assert(t@ == trim(lv[i as int]));
        if !t.as_str().is_empty() {
            assert(lv.skip(i as int).len() > 0);
            assert(first_line_of(lv.skip(i as int)) == trim(lv.skip(i as int)[0]));
            return t;
        }
        i += 1;
    }
    proof {
        reveal_strlit("");
    }
    String::new()
}

// ----- formatting twice changes nothing -----

/// No piece of a split holds the separator.
proof fn lemma_split_pieces_clean(s: Seq<char>, sep: char)
    ensures
        forall|k: int| 0 <= k < split_on(s, sep).len() ==> !(#[trigger] split_on(s, sep)[k]).contains(sep),
    decreases s.len(),
{
    crate::split::lemma_split_on_len(s, sep);
    if s.len() > 0 {
        let p = split_on(s.drop_last(), sep);
        lemma_split_pieces_clean(s.drop_last(), sep);
        crate::split::lemma_split_on_len(s.drop_last(), sep);
        if s.last() != sep {
            let l = p.last().push(s.last());
            assert forall|k: int| 0 <= k < split_on(s, sep).len() implies !(#[trigger] split_on(s, sep)[k]).contains(sep) by {
                if k == p.len() - 1 {
                    if l.contains(sep) {
                        let w = choose|w: int| 0 <= w < l.len() && l[w] == sep;
                        if w < l.len() - 1 {
                            assert(p.last()[w] == sep);
                        }
                    }
                } else {
                    assert(split_on(s, sep)[k] == p[k]);
                }
            }
        }
    }
}

/// Splitting text with a separator in the middle splits both sides.
proof fn lemma_split_concat(a: Seq<char>, b: Seq<char>, sep: char)
    ensures
        split_on(a + seq![sep] + b, sep) == split_on(a, sep) + split_on(b, sep),
    decreases b.len(),
{
    crate::split::lemma_split_on_len(a, sep);
    if b.len() == 0 {
        assert((a + seq![sep] + b).drop_last() =~= a);
        assert(split_on(a, sep).push(Seq::<char>::empty()) =~= split_on(a, sep) + seq![Seq::<char>::empty()]);
    } else {
        let s = a + seq![sep] + b;
        assert(s.drop_last() =~= a + seq![sep] + b.drop_last());
        lemma_split_concat(a, b.drop_last(), sep);
        crate::split::lemma_split_on_len(b.drop_last(), sep);
        let pa = split_on(a, sep);
        let pb = split_on(b.drop_last(), sep);
        if b.last() == sep {
            assert((pa + pb).push(Seq::<char>::empty()) =~= pa + pb.push(Seq::<char>::empty()));
        } else {
            let q = pa + pb;
            assert(q.last() == pb.last());
            assert(q.update(q.len() - 1, q.last().push(s.last())) =~= pa + pb.update(pb.len() - 1, pb.last().push(b.last())));
        }
    }
}

/// A piece without the separator splits into itself.
proof fn lemma_split_clean(p: Seq<char>, sep: char)
    requires
        !p.contains(sep),
    ensures
        split_on(p, sep) == seq![p],
    decreases p.len(),
{
    if p.len() > 0 {
        assert(!p.drop_last().contains(sep)) by {
            if p.drop_last().contains(sep) {
                let w = choose|w: int| 0 <= w < p.drop_last().len() && p.drop_last()[w] == sep;
                assert(p[w] == sep);
            }
        }
        lemma_split_clean(p.drop_last(), sep);
        assert(p.last() != sep) by {
            assert(p[p.len() - 1] == p.last());
        }
        assert(p.drop_last().push(p.last()) =~= p);
        assert(seq![p.drop_last()].update(0, p.drop_last().push(p.last())) =~= seq![p]);
    } else {
        assert(p =~= Seq::<char>::empty());
    }
}

/// Joining pieces without '\n' and splitting again gives the pieces back.
proof fn lemma_split_join(ps: Seq<Seq<char>>)
    requires
        ps.len() >= 1,
        forall|k: int| 0 <= k < ps.len() ==> !(#[trigger] ps[k]).contains('\n'),
    ensures
        split_on(join_lines(ps), '\n') == ps,
    decreases ps.len(),
{
    if ps.len() == 1 {
        lemma_split_clean(ps[0], '\n');
        assert(seq![ps[0]] =~= ps);
    } else {
        lemma_split_join(ps.drop_last());
        lemma_split_concat(join_lines(ps.drop_last()), ps.last(), '\n');
        lemma_split_clean(ps.last(), '\n');
        assert(ps.drop_last() + seq![ps.last()] =~= ps);
    }
}

proof fn lemma_trim_idempotent(l: Seq<char>)
    ensures
        trim_spaces_tabs(trim_spaces_tabs(l)) == trim_spaces_tabs(l),
        trim_spaces_tabs(l).len() <= l.len(),
        trim_spaces_tabs(l) == l.take(trim_spaces_tabs(l).len() as int),
    decreases l.len(),
{
    if l.len() > 0 && (l.last() == ' ' || l.last() == '\t') {
        lemma_trim_idempotent(l.drop_last());
        assert(l.drop_last().take(trim_spaces_tabs(l).len() as int) =~= l.take(trim_spaces_tabs(l).len() as int));
    } else {
        assert(l.take(l.len() as int) =~= l);
    }
}

/// The trimmed pieces of a text.
pub open spec fn trimmed_pieces(text: Seq<char>) -> Seq<Seq<char>> {
    split_on(text, '\n').map_values(|l: Seq<char>| trim_spaces_tabs(l))
}

proof fn lemma_trimmed_clean(text: Seq<char>)
    ensures
        trimmed_pieces(text).len() >= 1,
        forall|k: int| 0 <= k < trimmed_pieces(text).len() ==> !(#[trigger] trimmed_pieces(text)[k]).contains('\n'),
        trimmed_pieces(text).map_values(|l: Seq<char>| trim_spaces_tabs(l)) == trimmed_pieces(text),
{
    crate::split::lemma_split_on_len(text, '\n');
    lemma_split_pieces_clean(text, '\n');
    let ps = trimmed_pieces(text);
    assert forall|k: int| 0 <= k < ps.len() implies !(#[trigger] ps[k]).contains('\n') by {
        let l = split_on(text, '\n')[k];
        lemma_trim_idempotent(l);
        if ps[k].contains('\n') {
            let w = choose|w: int| 0 <= w < ps[k].len() && ps[k][w] == '\n';
            assert(l[w] == '\n');
        }
    }
    assert forall|k: int| 0 <= k < ps.len() implies #[trigger] trim_spaces_tabs(ps[k]) == ps[k] by {
        lemma_trim_idempotent(split_on(text, '\n')[k]);
    }
    assert(ps.map_values(|l: Seq<char>| trim_spaces_tabs(l)) =~= ps);
}

/// A list of pieces without its trailing empty pieces (one piece stays).
pub open spec fn drop_empty_tail(ps: Seq<Seq<char>>) -> Seq<Seq<char>>
    decreases ps.len(),
{
    if ps.len() > 1 && ps.last().len() == 0 { drop_empty_tail(ps.drop_last()) } else { ps }
}

proof fn lemma_strip_push(x: Seq<char>)
    ensures
        strip_newlines(x.push('\n')) == strip_newlines(x),
{
    assert(x.push('\n').drop_last() =~= x);
}

proof fn lemma_strip_idempotent(x: Seq<char>)
    ensures
        strip_newlines(strip_newlines(x)) == strip_newlines(x),
        strip_newlines(x).len() == 0 || strip_newlines(x).last() != '\n',
    decreases x.len(),
{
    if x.len() > 0 && x.last() == '\n' {
        lemma_strip_idempotent(x.drop_last());
    }
}

/// Stripping the final newlines of joined pieces drops their empty tail.
proof fn lemma_strip_join(ps: Seq<Seq<char>>)
    requires
        ps.len() >= 1,
        forall|k: int| 0 <= k < ps.len() ==> !(#[trigger] ps[k]).contains('\n'),
    ensures
        strip_newlines(join_lines(ps)) == join_lines(drop_empty_tail(ps)),
        1 <= drop_empty_tail(ps).len() <= ps.len(),
        drop_empty_tail(ps) == ps.take(drop_empty_tail(ps).len() as int),
        drop_empty_tail(ps).len() == 1 || drop_empty_tail(ps).last().len() > 0,
    decreases ps.len(),
{
    if ps.len() == 1 {
        assert(ps.take(1) =~= ps);
        if ps[0].len() > 0 {
            assert(ps[0].last() != '\n') by {
                assert(ps[0][ps[0].len() - 1] == ps[0].last());
            }
        } else {
            assert(ps[0] =~= Seq::<char>::empty());
        }
    } else if ps.last().len() == 0 {
        lemma_strip_join(ps.drop_last());
        let j = join_lines(ps.drop_last());
        assert(join_lines(ps) =~= j.push('\n'));
        lemma_strip_push(j);
        assert(drop_empty_tail(ps) == drop_empty_tail(ps.drop_last()));
        assert(ps.drop_last().take(drop_empty_tail(ps).len() as int) =~= ps.take(drop_empty_tail(ps).len() as int));
    } else {
        assert(ps.take(ps.len() as int) =~= ps);
        let l = ps.last();
        assert(l.last() != '\n') by {
            assert(l[l.len() - 1] == l.last());
        }
        assert(join_lines(ps).last() == l.last());
    }
}

/// Formatting is idempotent: formatting formatted text changes nothing.
pub proof fn law_format_idempotent(text: Seq<char>, trim: bool, final_nl: bool)
    ensures
        formatted(formatted(text, trim, final_nl), trim, final_nl) == formatted(text, trim, final_nl),
{
    let t1 = formatted(text, trim, final_nl);
    if trim {
        let ps = trimmed_pieces(text);
        lemma_trimmed_clean(text);
        let j = join_lines(ps);
        lemma_split_join(ps);
        if final_nl && j.len() > 0 {
            lemma_strip_join(ps);
            let q = drop_empty_tail(ps);
            let q2 = q.push(Seq::<char>::empty());
            assert forall|k: int| 0 <= k < q2.len() implies !(#[trigger] q2[k]).contains('\n') by {
                if k < q.len() {
                    assert(q[k] == ps.take(q.len() as int)[k]);
                    assert(q2[k] == q[k]);
                    assert(q2[k] == ps[k]);
                } else {
                    assert(q2[k] =~= Seq::<char>::empty());
                }
            }
            assert(q2.drop_last() =~= q);
            assert(t1 =~= join_lines(q2));
            lemma_split_join(q2);
            assert forall|k: int| 0 <= k < q2.len() implies #[trigger] trim_spaces_tabs(q2[k]) == q2[k] by {
                if k < q.len() {
                    assert(q[k] == ps.take(q.len() as int)[k]);
                    assert(q2[k] == q[k]);
                    assert(q2[k] == ps[k]);
                    assert(ps.map_values(|l: Seq<char>| trim_spaces_tabs(l))[k] == trim_spaces_tabs(ps[k]));
                } else {
                    assert(q2[k] =~= Seq::<char>::empty());
                }
            }
            assert(q2.map_values(|l: Seq<char>| trim_spaces_tabs(l)) =~= q2);
            assert(trimmed_pieces(t1) == q2);
            lemma_strip_push(join_lines(q));
            lemma_strip_idempotent(j);
        } else {
            assert(t1 == j);
        }
    } else if final_nl && text.len() > 0 {
        lemma_strip_push(strip_newlines(text));
        lemma_strip_idempotent(text);
    }
}

} // verus!
