//! Applying a language server's text edits to a buffer. LSP positions count
//! UTF-16 code units within a line; the buffer counts characters.
use vstd::prelude::*;

use crate::buffer::Buffer;
use crate::lsp::{RawDiagnostic, RawTextEdit};
use crate::model::Diagnostic;
use crate::text::{chars_of, seq_eq, string_of};

verus! {

/// How many UTF-16 code units a character takes.
pub open spec fn utf16_len(c: char) -> int {
    if (c as u32) >= 0x10000 { 2 } else { 1 }
}

/// Where line `line` starts, searching from `from`: just past the `line`-th
/// newline at or after `from`, or the end of the text when there are fewer.
pub open spec fn lsp_line_start(s: Seq<char>, line: nat, from: int) -> int
    decreases line, s.len() - from,
{
    if line == 0 {
        from
    } else if from < 0 || from >= s.len() {
        s.len() as int
    } else if s[from] == '\n' {
        lsp_line_start(s, (line - 1) as nat, from + 1)
    } else {
        lsp_line_start(s, line, from + 1)
    }
}

/// From index `i`, the index reached after walking `units` UTF-16 units along
/// the line, stopping at the line's end and before a character that would
/// overshoot.
pub open spec fn lsp_col_end(s: Seq<char>, i: int, units: int) -> int
    decreases s.len() - i,
{
    if i < 0 || i >= s.len() || s[i] == '\n' || units < utf16_len(s[i]) {
        i
    } else {
        lsp_col_end(s, i + 1, units - utf16_len(s[i]))
    }
}

/// The character index of an LSP position (line, UTF-16 column).
pub open spec fn lsp_pos(s: Seq<char>, line: nat, units: int) -> int {
    lsp_col_end(s, lsp_line_start(s, line, 0), units)
}

/// An edit as a character range of `s` (ends put in order) and its new text.
pub open spec fn edit_range(s: Seq<char>, e: RawTextEdit) -> (int, int, Seq<char>) {
    let a = lsp_pos(s, e.start_line as nat, e.start_char as int);
    let b = lsp_pos(s, e.end_line as nat, e.end_char as int);
    (if a <= b { a } else { b }, if a <= b { b } else { a }, e.new_text@)
}

pub open spec fn edit_ranges(s: Seq<char>, edits: Seq<RawTextEdit>) -> Seq<(int, int, Seq<char>)> {
    edits.map_values(|e: RawTextEdit| edit_range(s, e))
}

/// Range `i` is applied before range `j`: it starts later, or at the same
/// place and came first.
pub open spec fn applied_before(rs: Seq<(int, int, Seq<char>)>, i: int, j: int) -> bool {
    rs[i].0 > rs[j].0 || (rs[i].0 == rs[j].0 && i < j)
}

/// `order` lists every range once, from the last start to the first (stably).
pub open spec fn end_first_order(rs: Seq<(int, int, Seq<char>)>, order: Seq<int>) -> bool {
    &&& order.len() == rs.len()
    &&& forall|k: int| 0 <= k < order.len() ==> 0 <= #[trigger] order[k] < rs.len()
    &&& forall|k: int, l: int| 0 <= k < l < order.len() ==> order[k] != order[l]
    &&& forall|k: int, l: int|
        0 <= k < l < order.len() ==> applied_before(rs, #[trigger] order[k], #[trigger] order[l])
}

/// `c` with `[lo, hi)` replaced by `t`.
pub open spec fn spliced(c: Seq<char>, r: (int, int, Seq<char>)) -> Seq<char> {
    c.take(r.0) + r.2 + c.skip(r.1)
}

/// The ranges applied one after another in `order`.
pub open spec fn applied_in_order(c: Seq<char>, rs: Seq<(int, int, Seq<char>)>, order: Seq<int>) -> Seq<char>
    decreases order.len(),
{
    if order.len() == 0 {
        c
    } else {
        applied_in_order(spliced(c, rs[order[0]]), rs, order.drop_first())
    }
}

/// Each range, when its turn comes, lies inside the text as it is by then.
pub open spec fn fits_in_order(c: Seq<char>, rs: Seq<(int, int, Seq<char>)>, order: Seq<int>) -> bool
    decreases order.len(),
{
    if order.len() == 0 {
        true
    } else {
        let r = rs[order[0]];
        &&& 0 <= r.0 <= r.1 <= c.len()
        &&& fits_in_order(spliced(c, r), rs, order.drop_first())
    }
}

proof fn lemma_col_end_bounds(s: Seq<char>, i: int, units: int)
    requires
        0 <= i <= s.len(),
    ensures
        i <= lsp_col_end(s, i, units) <= s.len(),
    decreases s.len() - i,
{
    if !(i < 0 || i >= s.len() || s[i] == '\n' || units < utf16_len(s[i])) {
        lemma_col_end_bounds(s, i + 1, units - utf16_len(s[i]));
    }
}

proof fn lemma_line_start_bounds(s: Seq<char>, line: nat, from: int)
    requires
        0 <= from <= s.len(),
    ensures
        from <= lsp_line_start(s, line, from) <= s.len(),
    decreases line, s.len() - from,
{
    if line == 0 {
    } else if from >= s.len() {
    } else if s[from] == '\n' {
        lemma_line_start_bounds(s, (line - 1) as nat, from + 1);
    } else {
        lemma_line_start_bounds(s, line, from + 1);
    }
}

fn utf16_units(c: char) -> (n: u32)
    ensures
        n == utf16_len(c),
{
    if (c as u32) >= 0x10000 { 2 } else { 1 }
}

/// The character index of an LSP position in `s`.
fn char_index(s: &Vec<char>, line: usize, units: u32) -> (r: usize)
    ensures
        r == lsp_pos(s@, line as nat, units as int),
        r <= s@.len(),
{
    let n = s.len();
    let mut i: usize = 0;
    let mut rem: usize = line;
    while rem > 0 && i < n
        invariant
            n == s@.len(),
            i <= n,
            lsp_line_start(s@, line as nat, 0) == lsp_line_start(s@, rem as nat, i as int),
        decreases rem, n - i,
    {
        if s[i] == '\n' {
            rem -= 1;
        }
        i += 1;
    }
    proof {
        lemma_line_start_bounds(s@, rem as nat, i as int);
    }
    let ghost start = i as int;
    let mut left: u32 = units;
    while i < n && s[i] != '\n' && utf16_units(s[i]) <= left
        invariant
            n == s@.len(),
            start <= i <= n,
            lsp_pos(s@, line as nat, units as int) == lsp_col_end(s@, i as int, left as int),
        decreases n - i,
    {
        left -= utf16_units(s[i]);
        i += 1;
    }
    i
}

/// The positions of the ranges, ordered to be applied from the end backwards.
fn end_first(los: &Vec<usize>, Ghost(rs): Ghost<Seq<(int, int, Seq<char>)>>) -> (order: Vec<usize>)
    requires
        los@.len() == rs.len(),
        forall|k: int| 0 <= k < rs.len() ==> #[trigger] rs[k].0 == los@[k] as int,
    ensures
        end_first_order(rs, order@.map_values(|i: usize| i as int)),
{
    let mut order: Vec<usize> = Vec::new();
    let n = los.len();
    for j in 0..n
        invariant
            n == los@.len(),
            n == rs.len(),
            forall|k: int| 0 <= k < rs.len() ==> #[trigger] rs[k].0 == los@[k] as int,
            order@.len() == j,
            forall|k: int| 0 <= k < order@.len() ==> 0 <= #[trigger] order@[k] < j,
            forall|k: int, l: int| 0 <= k < l < order@.len() ==> order@[k] != order@[l],
            forall|k: int, l: int|
                0 <= k < l < order@.len() ==> applied_before(rs, #[trigger] order@[k] as int, #[trigger] order@[l] as int),
    {
        let mut p: usize = 0;
        let len = order.len();
        while p < len && los[order[p]] >= los[j]
            invariant
                len == order@.len(),
                p <= len,
                n == los@.len(),
                n == rs.len(),
                j < n,
                forall|k: int| 0 <= k < rs.len() ==> #[trigger] rs[k].0 == los@[k] as int,
                forall|k: int| 0 <= k < order@.len() ==> 0 <= #[trigger] order@[k] < j,
                forall|k: int| 0 <= k < p ==> applied_before(rs, #[trigger] order@[k] as int, j as int),
            decreases len - p,
        {
            proof {
                let o = order@[p as int] as int;
                assert(rs[o].0 == los@[o] as int);
                assert(rs[j as int].0 == los@[j as int] as int);
            }
            p += 1;
        }
        proof {
            if p < len {
                let o = order@[p as int] as int;
                assert(rs[o].0 == los@[o] as int);
                assert(rs[j as int].0 == los@[j as int] as int);
                assert(applied_before(rs, j as int, o));
            }
        }
        let ghost old_order = order@;
        order.insert(p, j);
        proof {
            assert forall|k: int| 0 <= k < order@.len() implies 0 <= #[trigger] order@[k] < j + 1 by {
                if k < p {
                    assert(order@[k] == old_order[k]);
                } else if k > p {
                    assert(order@[k] == old_order[k - 1]);
                }
            }
            assert forall|k: int, l: int| 0 <= k < l < order@.len() implies order@[k] != order@[l] by {
                if k < p && l < p {
                    assert(order@[k] == old_order[k] && order@[l] == old_order[l]);
                } else if k < p && l == p {
                    assert(order@[k] == old_order[k]);
                } else if k < p {
                    assert(order@[k] == old_order[k] && order@[l] == old_order[l - 1]);
                } else if k == p {
                    assert(order@[l] == old_order[l - 1]);
                } else {
                    assert(order@[k] == old_order[k - 1] && order@[l] == old_order[l - 1]);
                }
            }
            assert forall|k: int, l: int| 0 <= k < l < order@.len() implies applied_before(
                rs,
                #[trigger] order@[k] as int,
                #[trigger] order@[l] as int,
            ) by {
                if k < p && l < p {
                    assert(order@[k] == old_order[k] && order@[l] == old_order[l]);
                } else if k < p && l == p {
                    assert(order@[k] == old_order[k]);
                } else if k < p {
                    assert(order@[k] == old_order[k] && order@[l] == old_order[l - 1]);
                } else if k == p {
                    let o = old_order[l - 1] as int;
                    assert(order@[l] == old_order[l - 1]);
                    assert(rs[o].0 == los@[o] as int);
                    assert(rs[j as int].0 == los@[j as int] as int);
                    if l - 1 > p {
                        let q = old_order[p as int] as int;
                        assert(applied_before(rs, q, o));
                    }
                } else {
                    assert(order@[k] == old_order[k - 1] && order@[l] == old_order[l - 1]);
                }
            }
        }
    }
    proof {
        let m = order@.map_values(|i: usize| i as int);
        assert forall|k: int| 0 <= k < m.len() implies 0 <= #[trigger] m[k] < rs.len() by {
            assert(m[k] == order@[k] as int);
        }
        assert forall|k: int, l: int| 0 <= k < l < m.len() implies m[k] != m[l] by {
            assert(m[k] == order@[k] as int && m[l] == order@[l] as int);
        }
        assert forall|k: int, l: int| 0 <= k < l < m.len() implies applied_before(rs, #[trigger] m[k], #[trigger] m[l]) by {
            assert(m[k] == order@[k] as int && m[l] == order@[l] as int);
        }
    }
    order
}

/// `c` with `[lo, hi)` replaced by `t`.
fn splice(c: &Vec<char>, lo: usize, hi: usize, t: &Vec<char>) -> (r: Vec<char>)
    requires
        lo <= hi <= c@.len(),
    ensures
        r@ == spliced(c@, (lo as int, hi as int, t@)),
{
    let mut r: Vec<char> = Vec::new();
    for i in 0..lo
        invariant
            lo <= c@.len(),
            r@ == c@.take(i as int),
    {
        r.push(c[i]);
        assert(r@ =~= c@.take(i + 1));
    }
    for i in 0..t.len()
        invariant
            r@ == c@.take(lo as int) + t@.take(i as int),
    {
        r.push(t[i]);
        assert(r@ =~= c@.take(lo as int) + t@.take(i + 1));
    }
    assert(t@.take(t@.len() as int) =~= t@);
    let n = c.len();
    for i in hi..n
        invariant
            hi <= n,
            n == c@.len(),
            r@ == c@.take(lo as int) + t@ + c@.subrange(hi as int, i as int),
    {
        r.push(c[i]);
        assert(r@ =~= c@.take(lo as int) + t@ + c@.subrange(hi as int, i + 1));
    }
    assert(c@.subrange(hi as int, n as int) =~= c@.skip(hi as int));
    r
}

proof fn lemma_applied_step(c: Seq<char>, rs: Seq<(int, int, Seq<char>)>, order: Seq<int>, k: int)
    requires
        0 <= k < order.len(),
    ensures
        applied_in_order(c, rs, order.take(k + 1))
            == spliced(applied_in_order(c, rs, order.take(k)), rs[order[k]]),
        fits_in_order(c, rs, order.take(k + 1))
            == (fits_in_order(c, rs, order.take(k)) && {
                let r = rs[order[k]];
                0 <= r.0 <= r.1 <= applied_in_order(c, rs, order.take(k)).len()
            }),
    decreases k,
{
    if k == 0 {
        assert(order.take(1).drop_first() =~= Seq::<int>::empty());
        assert(order.take(0) =~= Seq::<int>::empty());
        assert(order.take(1)[0] == order[0]);
        let c1 = spliced(c, rs[order[0]]);
        assert(applied_in_order(c, rs, order.take(1)) == applied_in_order(c1, rs, order.take(1).drop_first()));
        assert(fits_in_order(c, rs, order.take(1)) == (0 <= rs[order[0]].0 <= rs[order[0]].1 <= c.len()
            && fits_in_order(c1, rs, order.take(1).drop_first())));
    } else {
        let c1 = spliced(c, rs[order[0]]);
        let rest = order.drop_first();
        lemma_applied_step(c1, rs, rest, k - 1);
        assert(order.take(k + 1).drop_first() =~= rest.take(k));
        assert(order.take(k).drop_first() =~= rest.take(k - 1));
        assert(rest[k - 1] == order[k]);
        assert(order.take(k + 1)[0] == order[0]);
        assert(order.take(k)[0] == order[0]);
        assert(applied_in_order(c, rs, order.take(k + 1)) == applied_in_order(c1, rs, rest.take(k)));
        assert(applied_in_order(c, rs, order.take(k)) == applied_in_order(c1, rs, rest.take(k - 1)));
        assert(fits_in_order(c, rs, order.take(k + 1)) == (0 <= rs[order[0]].0 <= rs[order[0]].1 <= c.len()
            && fits_in_order(c1, rs, rest.take(k))));
        assert(fits_in_order(c, rs, order.take(k)) == (0 <= rs[order[0]].0 <= rs[order[0]].1 <= c.len()
            && fits_in_order(c1, rs, rest.take(k - 1))));
    }
}

impl Buffer {
    /// The buffer's whole text.
    pub fn full_text(&self) -> (s: String)
        ensures
            s@ == self.text@,
    {
        crate::text::copy_str(self.text.as_str())
    }
}

/// The edits applied to `text` when each, in its turn, lies inside the text
/// as it is by then; `None` when one does not.
fn edited(text: &str, edits: &[RawTextEdit]) -> (r: Option<Vec<char>>)
    ensures
        exists|order: Seq<int>| {
            &&& #[trigger] end_first_order(edit_ranges(text@, edits@), order)
            &&& r is Some <==> fits_in_order(text@, edit_ranges(text@, edits@), order)
            &&& r matches Some(v) ==> v@ == applied_in_order(text@, edit_ranges(text@, edits@), order)
        },
{
    let chars = chars_of(text);
    let ghost s = chars@;
    let ghost rs = edit_ranges(s, edits@);
    let m = edits.len();
    let mut los: Vec<usize> = Vec::new();
    let mut his: Vec<usize> = Vec::new();
    let mut news: Vec<Vec<char>> = Vec::new();
    for k in 0..m
        invariant
            m == edits@.len(),
            s == chars@,
            rs == edit_ranges(s, edits@),
            los@.len() == k,
            his@.len() == k,
            news@.len() == k,
            forall|q: int| 0 <= q < k ==> #[trigger] rs[q] == (los@[q] as int, his@[q] as int, news@[q]@),
    {
        let e = &edits[k];
        let a = char_index(&chars, e.start_line, e.start_char);
        let b = char_index(&chars, e.end_line, e.end_char);
        let (lo, hi) = if a <= b { (a, b) } else { (b, a) };
        los.push(lo);
        his.push(hi);
        news.push(chars_of(e.new_text.as_str()));
        proof {
            assert(rs[k as int] == edit_range(s, edits@[k as int]));
            assert(los@[k as int] == lo && his@[k as int] == hi);
        }
    }
    let order = end_first(&los, Ghost(rs));
    let ghost ord = order@.map_values(|i: usize| i as int);
    let mut cur = chars_of(text);
    let n = order.len();
    proof {
        assert(ord.take(0) =~= Seq::<int>::empty());
    }
    for k in 0..n
        invariant
            n == order@.len(),
            n == m,
            m == rs.len(),
            s == chars@,
            s == text@,
            rs == edit_ranges(s, edits@),
            ord == order@.map_values(|i: usize| i as int),
            end_first_order(rs, ord),
            los@.len() == m,
            his@.len() == m,
            news@.len() == m,
            forall|q: int| 0 <= q < m ==> #[trigger] rs[q] == (los@[q] as int, his@[q] as int, news@[q]@),
            cur@ == applied_in_order(s, rs, ord.take(k as int)),
            fits_in_order(s, rs, ord.take(k as int)),
    {
        let i = order[k];
        proof {
            assert(ord[k as int] == i as int);
            assert(0 <= ord[k as int] < rs.len());
            lemma_applied_step(s, rs, ord, k as int);
            assert(rs[i as int] == (los@[i as int] as int, his@[i as int] as int, news@[i as int]@));
        }
        if his[i] > cur.len() {
            proof {
                assert(!fits_in_order(s, rs, ord.take(k + 1)));
                if fits_in_order(s, rs, ord) {
                    lemma_fits_prefix(s, rs, ord, (k + 1) as int);
                }
                assert(!fits_in_order(s, rs, ord));
                assert(end_first_order(edit_ranges(text@, edits@), ord));
            }
            return None;
        }
        cur = splice(&cur, los[i], his[i], &news[i]);
    }
    proof {
        assert(ord.take(n as int) =~= ord);
        assert(end_first_order(edit_ranges(text@, edits@), ord));
    }
    Some(cur)
}

/// Applies a server's text edits to a buffer at once. The edits are turned
/// into character ranges of the current text and applied from the end
/// backwards, so earlier offsets stay valid; edits that start at the same
/// place keep their order. The buffer is marked modified when its text
/// changes.
pub fn apply_text_edits(buf: &mut Buffer, edits: &[RawTextEdit])
    requires
        forall|order: Seq<int>| end_first_order(edit_ranges(old(buf).text@, edits@), order)
            ==> fits_in_order(old(buf).text@, edit_ranges(old(buf).text@, edits@), order),
    ensures
        exists|order: Seq<int>| {
            &&& end_first_order(edit_ranges(old(buf).text@, edits@), order)
            &&& final(buf).text@ == applied_in_order(old(buf).text@, edit_ranges(old(buf).text@, edits@), order)
        },
        final(buf).path == old(buf).path,
        final(buf).dirty == (old(buf).dirty || final(buf).text@ != old(buf).text@),
{
    let applied = try_apply_text_edits(buf, edits);
    proof {
        if !applied {
            let order = choose|order: Seq<int>| {
                &&& end_first_order(edit_ranges(old(buf).text@, edits@), order)
                &&& !fits_in_order(old(buf).text@, edit_ranges(old(buf).text@, edits@), order)
            };
            assert(false);
        }
    }
}

/// Applies a server's text edits when each fits in its turn, as
/// `apply_text_edits` does, and returns `true`; otherwise leaves the buffer
/// as it was and returns `false`.
pub fn try_apply_text_edits(buf: &mut Buffer, edits: &[RawTextEdit]) -> (applied: bool)
    ensures
        exists|order: Seq<int>| {
            &&& #[trigger] end_first_order(edit_ranges(old(buf).text@, edits@), order)
            &&& applied <==> fits_in_order(old(buf).text@, edit_ranges(old(buf).text@, edits@), order)
            &&& applied ==> final(buf).text@ == applied_in_order(old(buf).text@, edit_ranges(old(buf).text@, edits@), order)
        },
        !applied ==> final(buf).text@ == old(buf).text@,
        final(buf).path == old(buf).path,
        final(buf).dirty == (old(buf).dirty || final(buf).text@ != old(buf).text@),
{
    match edited(buf.text.as_str(), edits) {
        Some(cur) => {
            let old_text = chars_of(buf.text.as_str());
            let changed = !seq_eq(old_text.as_slice(), cur.as_slice());
            buf.text = string_of(cur.as_slice());
            if changed {
                buf.dirty = true;
            }
            true
        },
        None => false,
    }
}

proof fn lemma_fits_prefix(c: Seq<char>, rs: Seq<(int, int, Seq<char>)>, order: Seq<int>, k: int)
    requires
        0 <= k <= order.len(),
        fits_in_order(c, rs, order),
    ensures
        fits_in_order(c, rs, order.take(k)),
    decreases k,
{
    if k > 0 {
        let r = rs[order[0]];
        lemma_fits_prefix(spliced(c, r), rs, order.drop_first(), k - 1);
        assert(order.take(k).drop_first() =~= order.drop_first().take(k - 1));
    } else {
        assert(order.take(0) =~= Seq::<int>::empty());
    }
}

/// Where the line holding index `i` ends: the next '\n' at or after `i`, or
/// the end of the text.
pub open spec fn line_end_at(s: Seq<char>, i: int) -> int
    decreases s.len() - i,
{
    if i < 0 || i >= s.len() || s[i] == '\n' { i } else { line_end_at(s, i + 1) }
}

/// The character column of an LSP position (line, UTF-16 column).
pub open spec fn char_col_of(s: Seq<char>, line: nat, units: int) -> int {
    lsp_pos(s, line, units) - lsp_line_start(s, line, 0)
}

/// How many characters line `line` holds (0 past the last line).
pub open spec fn line_len_of(s: Seq<char>, line: nat) -> int {
    line_end_at(s, lsp_line_start(s, line, 0)) - lsp_line_start(s, line, 0)
}

proof fn lemma_line_end_bounds(s: Seq<char>, i: int)
    requires
        0 <= i <= s.len(),
    ensures
        i <= line_end_at(s, i) <= s.len(),
    decreases s.len() - i,
{
    if !(i < 0 || i >= s.len() || s[i] == '\n') {
        lemma_line_end_bounds(s, i + 1);
    }
}

fn line_start_index(s: &Vec<char>, line: usize) -> (r: usize)
    ensures
        r == lsp_line_start(s@, line as nat, 0),
        r <= s@.len(),
{
    let n = s.len();
    let mut i: usize = 0;
    let mut rem: usize = line;
    while rem > 0 && i < n
        invariant
            n == s@.len(),
            i <= n,
            lsp_line_start(s@, line as nat, 0) == lsp_line_start(s@, rem as nat, i as int),
        decreases rem, n - i,
    {
        if s[i] == '\n' {
            rem -= 1;
        }
        i += 1;
    }
    proof {
        lemma_line_start_bounds(s@, rem as nat, i as int);
    }
    i
}

impl Buffer {
    /// The character column of an LSP position on `line`.
    pub fn utf16_to_char_col(&self, line: usize, units: u32) -> (c: usize)
        ensures
            c == char_col_of(self.text@, line as nat, units as int),
    {
        let cs = chars_of(self.text.as_str());
        let start = line_start_index(&cs, line);
        let at = char_index(&cs, line, units);
        proof {
            lemma_line_start_bounds(cs@, line as nat, 0);
            lemma_col_end_bounds(cs@, start as int, units as int);
        }
        at - start
    }

    /// The number of characters on `line` (0 past the last line).
    pub fn line_len(&self, line: usize) -> (n: usize)
        ensures
            n == line_len_of(self.text@, line as nat),
    {
        let cs = chars_of(self.text.as_str());
        let start = line_start_index(&cs, line);
        let mut i = start;
        let len = cs.len();
        while i < len && cs[i] != '\n'
            invariant
                len == cs@.len(),
                start <= i <= len,
                line_end_at(cs@, start as int) == line_end_at(cs@, i as int),
            decreases len - i,
        {
            i += 1;
        }
        i - start
    }
}

/// A diagnostic moved to character columns on its first line: a diagnostic
/// spanning lines is underlined to the end of that line, and at least one
/// character is always underlined.
pub open spec fn diagnostic_cols(s: Seq<char>, d: RawDiagnostic) -> (int, int) {
    let c0 = char_col_of(s, d.start_line as nat, d.start_char as int);
    let c1 = if d.end_line == d.start_line {
        char_col_of(s, d.start_line as nat, d.end_char as int)
    } else {
        line_len_of(s, d.start_line as nat)
    };
    (c0, if c1 >= c0 + 1 { c1 } else { c0 + 1 })
}

/// A server's diagnostics for a buffer, in the buffer's character columns.
pub fn diagnostics_for(buf: &Buffer, raw: Vec<RawDiagnostic>) -> (r: Vec<Diagnostic>)
    requires
        buf.text@.len() < usize::MAX,
    ensures
        r@.len() == raw@.len(),
        forall|k: int| 0 <= k < raw@.len() ==> {
            let (c0, c1) = diagnostic_cols(buf.text@, raw@[k]);
            &&& (#[trigger] r@[k]).line == raw@[k].start_line
            &&& r@[k].col_start == c0
            &&& r@[k].col_end == c1
            &&& r@[k].severity == raw@[k].severity
            &&& r@[k].message == raw@[k].message
        },
{
    let mut r: Vec<Diagnostic> = Vec::new();
    let n = raw.len();
    let mut raw = raw;
    let ghost orig = raw@;
    let mut k: usize = 0;
    while raw.len() > 0
        invariant
            orig.len() == n,
            k + raw@.len() == n,
            raw@ == orig.skip(k as int),
            r@.len() == k,
            forall|j: int| 0 <= j < k ==> {
                let (c0, c1) = diagnostic_cols(buf.text@, orig[j]);
                &&& (#[trigger] r@[j]).line == orig[j].start_line
                &&& r@[j].col_start == c0
                &&& r@[j].col_end == c1
                &&& r@[j].severity == orig[j].severity
                &&& r@[j].message == orig[j].message
            },
            buf.text@.len() < usize::MAX,
        decreases raw@.len(),
    {
        let d = raw.remove(0);
        assert(d == orig[k as int]);
        let c0 = buf.utf16_to_char_col(d.start_line, d.start_char);
        let c1 = if d.end_line == d.start_line {
            buf.utf16_to_char_col(d.start_line, d.end_char)
        } else {
            buf.line_len(d.start_line)
        };
        proof {
            let cs = buf.text@;
            lemma_line_start_bounds(cs, d.start_line as nat, 0);
            lemma_col_end_bounds(cs, lsp_line_start(cs, d.start_line as nat, 0), d.start_char as int);
        }
        let col_end = if c1 >= c0 + 1 { c1 } else { c0 + 1 };
        r.push(Diagnostic { line: d.start_line, col_start: c0, col_end, severity: d.severity, message: d.message });
        proof {
            assert(raw@ =~= orig.skip(k + 1));
        }
        k += 1;
    }
    r
}

} // verus!
