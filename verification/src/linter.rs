//! Reading `path:line:col: message` output of command-line linters.
use vstd::prelude::*;
use vstd::string::*;

use crate::keybindings::{all_digits, digits_part, digits_value, is_digit};
use crate::split::{lines, lines_of, trim, trim_str};
use crate::text::{chars_of, copy_str};

verus! {

/// What `regex::Regex::new(pattern)` finds in `text`: for the first match,
/// each capture group (group 0 the whole match) as its text when it took
/// part. `None` when the pattern does not compile or nothing matches.
pub uninterp spec fn captures_of(pattern: Seq<char>, text: Seq<char>) -> Option<Seq<Option<Seq<char>>>>;

/// `regex::Regex::new(pattern)` and `Regex::captures(text)`, read out as the
/// texts of the capture groups. The result is named, not stated.
#[verifier::external_body]
fn regex_captures(pattern: &str, text: &str) -> (r: Option<Vec<Option<String>>>)
    ensures
        r.deep_view() == captures_of(pattern@, text@),
{
    let re = regex::Regex::new(pattern).ok()?;
    let caps = re.captures(text)?;
    Some(caps.iter().map(|m| m.map(|x| x.as_str().to_string())).collect())
}

/// `usize::from_str`: an optional '+', then decimal digits whose value fits.
pub open spec fn usize_parse(s: Seq<char>) -> Option<usize> {
    let d = digits_part(s);
    if d.len() > 0 && all_digits(d) && digits_value(d) <= usize::MAX {
        Some(digits_value(d) as usize)
    } else {
        None
    }
}

/// `usize::from_str` on `s`.
pub fn parse_usize(s: &str) -> (r: Option<usize>)
    ensures
        r == usize_parse(s@),
{
    let cs = chars_of(s);
    let n = cs.len();
    let start: usize = if n > 0 && cs[0] == '+' { 1 } else { 0 };
    let ghost d = digits_part(s@);
    assert(d =~= s@.subrange(start as int, n as int));
    if start == n {
        return None;
    }
    let mut v: usize = 0;
    for i in start..n
        invariant
            n == cs@.len(),
            cs@ == s@,
            start <= n,
            d == s@.subrange(start as int, n as int),
            d == digits_part(s@),
            all_digits(s@.subrange(start as int, i as int)),
            v == digits_value(s@.subrange(start as int, i as int)),
    {
        let ghost t = s@.subrange(start as int, i + 1);
        proof {
            assert(t.drop_last() =~= s@.subrange(start as int, i as int));
            assert(t.last() == cs@[i as int]);
        }
        let c = cs[i];
        if !(c >= '0' && c <= '9') {
            assert(d[i - start] == c);
            assert(!is_digit(d[i - start]));
            assert(!all_digits(d));
            return None;
        }
        let digit = (c as u32 - '0' as u32) as usize;
        proof {
            assert(all_digits(t)) by {
                assert forall|k: int| 0 <= k < t.len() implies is_digit(#[trigger] t[k]) by {
                    if k < t.len() - 1 {
                        assert(t[k] == t.drop_last()[k]);
                    }
                }
            }
            assert(digits_value(t) == v * 10 + digit);
        }
        match v.checked_mul(10) {
            Some(m) => match m.checked_add(digit) {
                Some(next) => {
                    v = next;
                },
                None => {
                    proof {
                        assert(d.take(i - start + 1) =~= t);
                        lemma_value_grows(d, i - start + 1);
                    }
                    return None;
                },
            },
            None => {
                proof {
                    assert(d.take(i - start + 1) =~= t);
                    lemma_value_grows(d, i - start + 1);
                }
                return None;
            },
        }
    }
    assert(s@.subrange(start as int, n as int) =~= d);
    Some(v)
}

proof fn lemma_value_grows(d: Seq<char>, j: int)
    requires
        0 <= j <= d.len(),
        all_digits(d.take(j)),
    ensures
        all_digits(d) ==> digits_value(d) >= digits_value(d.take(j)),
    decreases d.len() - j,
{
    if j < d.len() {
        if all_digits(d) {
            assert(all_digits(d.take(j + 1)));
            lemma_value_grows(d, j + 1);
            assert(d.take(j + 1).drop_last() =~= d.take(j));
            assert(is_digit(d[j]));
            lemma_value_nonneg(d.take(j));
        }
    } else {
        assert(d.take(j) =~= d);
    }
}

proof fn lemma_value_nonneg(d: Seq<char>)
    requires
        all_digits(d),
    ensures
        digits_value(d) >= 0,
    decreases d.len(),
{
    if d.len() > 0 {
        assert(is_digit(d[d.len() - 1]));
        assert(all_digits(d.drop_last()));
        lemma_value_nonneg(d.drop_last());
    }
}

/// The pattern of a linter line: the first `line:col` pair, an optional
/// colon, whitespace, and the message.
pub open spec fn linter_pattern() -> Seq<char> {
    "(\\d+):(\\d+):?\\s*(.*)"@
}

pub open spec fn sat_dec(n: usize) -> usize {
    if n == 0 { 0 } else { (n - 1) as usize }
}

/// What one line of linter output gives: 0-based line and column and the
/// trimmed message, when it matches and both numbers parse.
pub open spec fn linter_item(line: Seq<char>) -> Option<(usize, usize, Seq<char>)> {
    match captures_of(linter_pattern(), line) {
        Some(caps) => {
            let g1 = if caps.len() > 1 { caps[1] } else { None };
            let g2 = if caps.len() > 2 { caps[2] } else { None };
            let g3 = if caps.len() > 3 { caps[3] } else { None };
            match (g1, g2) {
                (Some(a), Some(b)) => match (usize_parse(a), usize_parse(b)) {
                    (Some(ln), Some(col)) => Some((sat_dec(ln), sat_dec(col), match g3 {
                        Some(m) => trim(m),
                        None => Seq::empty(),
                    })),
                    _ => None,
                },
                _ => None,
            }
        },
        None => None,
    }
}

pub open spec fn linter_items(ls: Seq<Seq<char>>) -> Seq<(usize, usize, Seq<char>)>
    decreases ls.len(),
{
    if ls.len() == 0 {
        Seq::empty()
    } else {
        let prev = linter_items(ls.drop_last());
        match linter_item(ls.last()) {
            Some(x) => prev.push(x),
            None => prev,
        }
    }
}

fn group(caps: &Vec<Option<String>>, i: usize) -> (r: Option<&String>)
    ensures
        match r {
            Some(s) => i < caps@.len() && caps@[i as int] == Some(*s),
            None => i >= caps@.len() || caps@[i as int] is None,
        },
{
    if i < caps.len() {
        match &caps[i] {
            Some(s) => Some(s),
            None => None,
        }
    } else {
        None
    }
}

/// What one line of linter output gives (see `linter_item`).
fn linter_line(pattern: &str, line: &str) -> (r: Option<(usize, usize, String)>)
    requires
        pattern@ == linter_pattern(),
    ensures
        match (r, linter_item(line@)) {
            (Some(x), Some(v)) => (x.0, x.1, x.2@) == v,
            (None, None) => true,
            _ => false,
        },
{
    proof {
        reveal_strlit("");
    }
    let caps = match regex_captures(pattern, line) {
        Some(c) => c,
        None => {
            return None;
        },
    };
    let ghost cv = caps.deep_view();
    assert(cv.len() == caps@.len());
    assert(forall|k: int| 0 <= k < caps@.len() ==> #[trigger] cv[k] == caps@[k].deep_view());
    let a = match group(&caps, 1) {
        Some(a) => a,
        None => {
            return None;
        },
    };
    let b = match group(&caps, 2) {
        Some(b) => b,
        None => {
            return None;
        },
    };
    let ln = match parse_usize(a.as_str()) {
        Some(v) => v,
        None => {
            return None;
        },
    };
    let col = match parse_usize(b.as_str()) {
        Some(v) => v,
        None => {
            return None;
        },
    };
    let msg = match group(&caps, 3) {
        Some(m) => trim_str(m.as_str()),
        None => String::new(),
    };
    Some((if ln > 0 { ln - 1 } else { 0 }, if col > 0 { col - 1 } else { 0 }, msg))
}

/// Parses `path:line:col: message` lines into 0-based `(line, col, message)`,
/// skipping lines that do not match.
pub fn parse_linter_output(text: &str) -> (r: Vec<(usize, usize, String)>)
    ensures
        r@.map_values(|x: (usize, usize, String)| (x.0, x.1, x.2@)) == linter_items(lines(text@)),
{
    let pattern = "(\\d+):(\\d+):?\\s*(.*)";
    let ls = lines_of(text);
    let ghost lv = lines(text@);
    let mut out: Vec<(usize, usize, String)> = Vec::new();
    let n = ls.len();
    for i in 0..n
        invariant
            n == ls@.len(),
            n == lv.len(),
            lv == lines(text@),
            pattern@ == linter_pattern(),
            forall|k: int| 0 <= k < n ==> #[trigger] ls@[k]@ == lv[k],
            out@.map_values(|x: (usize, usize, String)| (x.0, x.1, x.2@)) == linter_items(lv.take(i as int)),
    {
        proof {
            assert(lv.take(i + 1).drop_last() =~= lv.take(i as int));
            assert(lv.take(i + 1).last() == lv[i as int]);
        }
        let ghost before = out@;
        match linter_line(pattern, ls[i].as_str()) {
            Some(item) => {
                out.push(item);
                assert(out@.map_values(|x: (usize, usize, String)| (x.0, x.1, x.2@)) =~= before.map_values(
                    |x: (usize, usize, String)| (x.0, x.1, x.2@),
                ).push((item.0, item.1, item.2@)));
            },
            None => {},
        }
    }
    assert(lv.take(n as int) =~= lv);
    out
}

} // verus!
