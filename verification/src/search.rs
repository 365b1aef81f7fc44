//! Workspace search and replace over the text of files: which lines match,
//! and what replacing on one line makes of a file.
use vstd::prelude::*;
use vstd::string::*;

use crate::model::SearchMatch;
use crate::split::{lines, lines_of};
use crate::text::{chars_of, copy_str, str_eq, string_of};

verus! {

/// The characters with a meaning in a regex (`regex_syntax::is_meta_character`).
pub open spec fn is_meta(c: char) -> bool {
    c == '\\' || c == '.' || c == '+' || c == '*' || c == '?' || c == '(' || c == ')' || c == '|' || c == '['
        || c == ']' || c == '{' || c == '}' || c == '^' || c == '$' || c == '#' || c == '&' || c == '-' || c == '~'
}

/// The pattern matching `s` literally: a backslash before each meta character.
pub open spec fn escaped_of(s: Seq<char>) -> Seq<char>
    decreases s.len(),
{
    if s.len() == 0 {
        Seq::empty()
    } else {
        escaped_of(s.drop_last()) + if is_meta(s.last()) {
            seq!['\\', s.last()]
        } else {
            seq![s.last()]
        }
    }
}

/// `regex::escape` (`regex_syntax::escape_into`): each character of the text,
/// with a backslash pushed before each meta character.
#[verifier::external_body]
fn regex_escape(s: &str) -> (r: String)
    ensures
        r@ == escaped_of(s@),
{
    regex::escape(s)
}

/// How many non-overlapping matches of `pattern` (compiled with
/// `RegexBuilder`, case-insensitive when `ci`) `find_iter` finds in `text`;
/// `None` when the pattern does not compile.
pub uninterp spec fn match_count_of(pattern: Seq<char>, ci: bool, text: Seq<char>) -> Option<usize>;

/// `RegexBuilder::new(pattern).case_insensitive(ci).build()` and
/// `Regex::find_iter(text).count()`. The result is named, not stated.
#[verifier::external_body]
fn regex_count(pattern: &str, ci: bool, text: &str) -> (r: Option<usize>)
    ensures
        r == match_count_of(pattern@, ci, text@),
{
    let re = regex::RegexBuilder::new(pattern).case_insensitive(ci).build().ok()?;
    Some(re.find_iter(text).count())
}

/// Whether `pattern` (as above) matches somewhere in `text`; `None` when it
/// does not compile.
pub uninterp spec fn is_match_of(pattern: Seq<char>, ci: bool, text: Seq<char>) -> Option<bool>;

/// `RegexBuilder::...build()` and `Regex::is_match(text)`. Named, not stated.
#[verifier::external_body]
fn regex_is_match(pattern: &str, ci: bool, text: &str) -> (r: Option<bool>)
    ensures
        r == is_match_of(pattern@, ci, text@),
{
    let re = regex::RegexBuilder::new(pattern).case_insensitive(ci).build().ok()?;
    Some(re.is_match(text))
}

/// `text` with every match of `pattern` (as above) replaced by `rep`, group
/// references (`$1`) in `rep` expanded; `None` when the pattern does not
/// compile.
pub uninterp spec fn expanded_replace_of(pattern: Seq<char>, ci: bool, text: Seq<char>, rep: Seq<char>) -> Option<Seq<char>>;

/// `text` with every match of `pattern` (as above) replaced by `rep` as it
/// stands; `None` when the pattern does not compile.
pub uninterp spec fn literal_replace_of(pattern: Seq<char>, ci: bool, text: Seq<char>, rep: Seq<char>) -> Option<Seq<char>>;

/// The replacement, with `$` references in `rep` expanded when `expand`,
/// else `rep` inserted literally.
pub open spec fn replaced_of(pattern: Seq<char>, ci: bool, text: Seq<char>, rep: Seq<char>, expand: bool) -> Option<Seq<char>> {
    if expand {
        expanded_replace_of(pattern, ci, text, rep)
    } else {
        literal_replace_of(pattern, ci, text, rep)
    }
}

/// `RegexBuilder::...build()` and `Regex::replace_all(text, rep)`, which
/// expands `$` references in `rep`. Named, not stated.
#[verifier::external_body]
fn regex_replace_expanding(pattern: &str, ci: bool, text: &str, rep: &str) -> (r: Option<String>)
    ensures
        match r {
            Some(s) => expanded_replace_of(pattern@, ci, text@, rep@) == Some(s@),
            None => expanded_replace_of(pattern@, ci, text@, rep@) is None,
        },
{
    let re = regex::RegexBuilder::new(pattern).case_insensitive(ci).build().ok()?;
    Some(re.replace_all(text, rep).into_owned())
}

/// `RegexBuilder::...build()` and `Regex::replace_all(text, NoExpand(rep))`,
/// which inserts `rep` as it stands. Named, not stated.
#[verifier::external_body]
fn regex_replace_literally(pattern: &str, ci: bool, text: &str, rep: &str) -> (r: Option<String>)
    ensures
        match r {
            Some(s) => literal_replace_of(pattern@, ci, text@, rep@) == Some(s@),
            None => literal_replace_of(pattern@, ci, text@, rep@) is None,
        },
{
    let re = regex::RegexBuilder::new(pattern).case_insensitive(ci).build().ok()?;
    Some(re.replace_all(text, regex::NoExpand(rep)).into_owned())
}

/// Every match replaced, `$` references expanded when `expand`.
fn regex_replace_all(pattern: &str, ci: bool, text: &str, rep: &str, expand: bool) -> (r: Option<String>)
    ensures
        r is Some <==> replaced_of(pattern@, ci, text@, rep@, expand) is Some,
        r is Some ==> r.unwrap()@ == replaced_of(pattern@, ci, text@, rep@, expand).unwrap(),
{
    if expand {
        regex_replace_expanding(pattern, ci, text, rep)
    } else {
        regex_replace_literally(pattern, ci, text, rep)
    }
}

/// The pattern a query searches with: itself as a regex, else escaped.
pub open spec fn pattern_of(query: Seq<char>, use_regex: bool) -> Seq<char> {
    if use_regex { query } else { escaped_of(query) }
}

fn build_pattern(query: &str, use_regex: bool) -> (r: String)
    ensures
        r@ == pattern_of(query@, use_regex),
{
    if use_regex { copy_str(query) } else { regex_escape(query) }
}

/// The pieces of `s` after each '\n', the '\n' kept (as `str::split_inclusive`).
pub open spec fn split_inclusive(s: Seq<char>) -> Seq<Seq<char>>
    decreases s.len(),
{
    if s.len() == 0 {
        Seq::empty()
    } else {
        let p = split_inclusive(s.drop_last());
        if p.len() == 0 || p.last().last() == '\n' {
            p.push(seq![s.last()])
        } else {
            p.update(p.len() - 1, p.last().push(s.last()))
        }
    }
}

pub open spec fn concat(ps: Seq<Seq<char>>) -> Seq<char>
    decreases ps.len(),
{
    if ps.len() == 0 { Seq::empty() } else { concat(ps.drop_last()) + ps.last() }
}

/// A line and its terminator ("\r\n", "\n" or none).
pub open spec fn split_terminator(seg: Seq<char>) -> (Seq<char>, Seq<char>) {
    if seg.len() > 0 && seg.last() == '\n' {
        let t = seg.drop_last();
        if t.len() > 0 && t.last() == '\r' { (t.drop_last(), seq!['\r', '\n']) } else { (t, seq!['\n']) }
    } else {
        (seg, Seq::empty())
    }
}

/// What replacing on 1-based line `line_no` of `content` makes of it: the
/// new content and the number of matches, when the query is not empty, the
/// pattern compiles, the line exists, something matched and the text changed.
pub open spec fn replaced_line(content: Seq<char>, line_no: int, query: Seq<char>, rep: Seq<char>, use_regex: bool, match_case: bool) -> Option<(Seq<char>, usize)> {
    let pat = pattern_of(query, use_regex);
    let segs = split_inclusive(content);
    if query.len() == 0 || line_no == 0 || line_no > segs.len() {
        None
    } else {
        let (body, term) = split_terminator(segs[line_no - 1]);
        match (match_count_of(pat, !match_case, body), replaced_of(pat, !match_case, body, rep, use_regex)) {
            (Some(count), Some(new_body)) => {
                let new_content = concat(segs.update(line_no - 1, new_body + term));
                if count == 0 || new_content == content { None } else { Some((new_content, count)) }
            },
            _ => None,
        }
    }
}

/// Replacing on a line searches it as the workspace search does: with the
/// query as a regex or escaped, case-sensitive exactly when Match Case is on.
/// When the line changes, the count is the number of matches of that pattern
/// on the line's text (without its terminator) and the line becomes that
/// text with the matches replaced, its terminator kept and every other line
/// as it was; a line where that pattern finds no match stays as it is.
pub proof fn law_replace_follows_match_case(
    content: Seq<char>,
    line_no: int,
    query: Seq<char>,
    rep: Seq<char>,
    use_regex: bool,
    match_case: bool,
)
    requires
        1 <= line_no <= split_inclusive(content).len(),
        query.len() > 0,
    ensures
        ({
            let segs = split_inclusive(content);
            let body = split_terminator(segs[line_no - 1]).0;
            let term = split_terminator(segs[line_no - 1]).1;
            let pat = if use_regex { query } else { escaped_of(query) };
            let case_insensitive = !match_case;
            &&& replaced_line(content, line_no, query, rep, use_regex, match_case) matches Some((c, n)) ==> {
                &&& match_count_of(pat, case_insensitive, body) == Some(n)
                &&& n > 0
                &&& replaced_of(pat, case_insensitive, body, rep, use_regex) matches Some(nb) && c == concat(
                    segs.update(line_no - 1, nb + term),
                )
            }
            &&& match_count_of(pat, case_insensitive, body) == Some(0usize) ==> replaced_line(
                content,
                line_no,
                query,
                rep,
                use_regex,
                match_case,
            ) is None
        }),
{
}

fn split_inclusive_exec(s: &str) -> (r: Vec<String>)
    ensures
        r@.map_values(|x: String| x@) == split_inclusive(s@),
{
    let cs = chars_of(s);
    let n = cs.len();
    let mut parts: Vec<Vec<char>> = Vec::new();
    for i in 0..n
        invariant
            n == cs@.len(),
            cs@ == s@,
            parts@.map_values(|w: Vec<char>| w@) == split_inclusive(s@.take(i as int)),
            forall|k: int| 0 <= k < parts@.len() ==> #[trigger] parts@[k]@.len() > 0,
    {
        let c = cs[i];
        let ghost before = parts@;
        proof {
            assert(s@.take(i + 1).drop_last() =~= s@.take(i as int));
            assert(s@.take(i + 1).last() == c);
        }
        let np = parts.len();
        if np == 0 || {
            let l = &parts[np - 1];
            l[l.len() - 1] == '\n'
        } {
            let mut w: Vec<char> = Vec::new();
            w.push(c);
            parts.push(w);
            assert(parts@.map_values(|w: Vec<char>| w@) =~= before.map_values(|w: Vec<char>| w@).push(seq![c]));
        } else {
            let mut last = parts.pop().unwrap();
            last.push(c);
            parts.push(last);
            assert(parts@.map_values(|w: Vec<char>| w@) =~= before.map_values(|w: Vec<char>| w@).update(
                np - 1, before.map_values(|w: Vec<char>| w@).last().push(c)));
        }
    }
    assert(s@.take(n as int) =~= s@);
    let mut r: Vec<String> = Vec::new();
    let m = parts.len();
    for j in 0..m
        invariant
            m == parts@.len(),
            r@.map_values(|x: String| x@) == parts@.map_values(|w: Vec<char>| w@).take(j as int),
    {
        let ghost before = r@;
        let piece = string_of(parts[j].as_slice());
        r.push(piece);
        assert(r@.map_values(|x: String| x@) =~= before.map_values(|x: String| x@).push(piece@));
        assert(r@.map_values(|x: String| x@) =~= parts@.map_values(|w: Vec<char>| w@).take(j + 1));
    }
    assert(parts@.map_values(|w: Vec<char>| w@).take(m as int) =~= parts@.map_values(|w: Vec<char>| w@));
    r
}

fn terminator_split(seg: &str) -> (r: (String, String))
    ensures
        (r.0@, r.1@) == split_terminator(seg@),
{
    let mut cs = chars_of(seg);
    let n = cs.len();
    if n > 0 && cs[n - 1] == '\n' {
        cs.pop();
        let m = cs.len();
        if m > 0 && cs[m - 1] == '\r' {
            cs.pop();
            let mut t = String::new();
            t.push('\r');
            t.push('\n');
            proof {
                reveal_strlit("");
            }
            assert(t@ =~= seq!['\r', '\n']);
            (string_of(cs.as_slice()), t)
        } else {
            let mut t = String::new();
            t.push('\n');
            proof {
                reveal_strlit("");
            }
            assert(t@ =~= seq!['\n']);
            (string_of(cs.as_slice()), t)
        }
    } else {
        proof {
            reveal_strlit("");
        }
        (string_of(cs.as_slice()), String::new())
    }
}

/// Replaces the query's matches on 1-based line `line_no` of `content` only:
/// the new content and how many matches were replaced, or `None` when
/// nothing changes (empty query, line 0 or past the end, a pattern that does
/// not compile, no match). Line terminators, "\r\n" included, are kept.
pub fn replace_in_line(content: &str, line_no: usize, query: &str, replace: &str, use_regex: bool, match_case: bool) -> (r: Option<(String, usize)>)
    ensures
        match (r, replaced_line(content@, line_no as int, query@, replace@, use_regex, match_case)) {
            (Some((c, n)), Some((vc, vn))) => c@ == vc && n == vn,
            (None, None) => true,
            _ => false,
        },
{
    if query.is_empty() || line_no == 0 {
        return None;
    }
    let pattern = build_pattern(query, use_regex);
    let segments = split_inclusive_exec(content);
    let ghost segs = split_inclusive(content@);
    if line_no > segments.len() {
        return None;
    }
    let (body, term) = terminator_split(segments[line_no - 1].as_str());
    let count = match regex_count(pattern.as_str(), !match_case, body.as_str()) {
        Some(c) => c,
        None => {
            return None;
        },
    };
    let replaced = match regex_replace_all(pattern.as_str(), !match_case, body.as_str(), replace, use_regex) {
        Some(r) => r,
        None => {
            return None;
        },
    };
    if count == 0 {
        return None;
    }
    let mut new_line = replaced;
    new_line.append(term.as_str());
    let ghost upd = segs.update(line_no - 1, new_line@);
    let mut new_content = String::new();
    let n = segments.len();
    for i in 0..n
        invariant
            n == segments@.len(),
            segments@.map_values(|x: String| x@) == segs,
            1 <= line_no <= n,
            upd == segs.update(line_no - 1, new_line@),
            new_content@ == concat(upd.take(i as int)),
    {
        proof {
            assert(upd.take(i + 1).drop_last() =~= upd.take(i as int));
            assert(upd.take(i + 1).last() == upd[i as int]);
        }
        if i == line_no - 1 {
            new_content.append(new_line.as_str());
        } else {
            assert(segments@[i as int]@ == segs[i as int]);
            new_content.append(segments[i].as_str());
        }
    }
    assert(upd.take(n as int) =~= upd);
    if str_eq(new_content.as_str(), content) {
        return None;
    }
    Some((new_content, count))
}

/// The first 200 characters of a line.
pub open spec fn clip(line: Seq<char>) -> Seq<char> {
    if line.len() > 200 { line.take(200) } else { line }
}

/// The lines of a file that match, numbered from 1, each clipped, at most
/// `limit` of them; empty when the pattern does not compile.
pub open spec fn matching_lines(ls: Seq<Seq<char>>, pat: Seq<char>, ci: bool, limit: nat) -> Seq<(nat, Seq<char>)>
    decreases ls.len(),
{
    if ls.len() == 0 {
        Seq::empty()
    } else {
        let prev = matching_lines(ls.drop_last(), pat, ci, limit);
        if prev.len() < limit && is_match_of(pat, ci, ls.last()) == Some(true) {
            prev.push((ls.len(), clip(ls.last())))
        } else {
            prev
        }
    }
}

pub open spec fn same_file(m: SearchMatch, path: Seq<char>, rel: Seq<char>) -> bool {
    m.path@ == path && m.rel@ == rel
}

/// The search hits in one file's text, in line order, at most `limit`.
pub fn search_text(path: &str, rel: &str, content: &str, query: &str, use_regex: bool, match_case: bool, limit: usize) -> (r: Vec<SearchMatch>)
    ensures
        query@.len() == 0 ==> r@.len() == 0,
        query@.len() > 0 ==> r@.map_values(|m: SearchMatch| (m.line_no as nat, m.line@))
            == matching_lines(lines(content@), pattern_of(query@, use_regex), !match_case, limit as nat),
        forall|i: int| 0 <= i < r@.len() ==> same_file(#[trigger] r@[i], path@, rel@),
{
    let mut out: Vec<SearchMatch> = Vec::new();
    if query.is_empty() {
        return out;
    }
    let pattern = build_pattern(query, use_regex);
    let ls = lines_of(content);
    let ghost lv = lines(content@);
    let n = ls.len();
    for i in 0..n
        invariant
            n == ls@.len(),
            n == lv.len(),
            forall|k: int| 0 <= k < n ==> #[trigger] ls@[k]@ == lv[k],
            out@.map_values(|m: SearchMatch| (m.line_no as nat, m.line@)) == matching_lines(lv.take(i as int), pattern@, !match_case, limit as nat),
            forall|j: int| 0 <= j < out@.len() ==> same_file(#[trigger] out@[j], path@, rel@),
            out@.len() <= limit,
    {
        proof {
            assert(lv.take(i + 1).drop_last() =~= lv.take(i as int));
            assert(lv.take(i + 1).last() == lv[i as int]);
        }
        let ghost before = out@;
        if out.len() < limit {
            let line = ls[i].as_str();
            match regex_is_match(pattern.as_str(), !match_case, line) {
                Some(true) => {
                    let cs = chars_of(line);
                    let keep = if cs.len() > 200 { 200 } else { cs.len() };
                    let mut t: Vec<char> = Vec::new();
                    for k in 0..keep
                        invariant
                            keep <= cs@.len(),
                            t@ == cs@.take(k as int),
                    {
                        t.push(cs[k]);
                        assert(cs@.take(k + 1) =~= cs@.take(k as int).push(cs@[k as int]));
                    }
                    let m = SearchMatch {
                        path: copy_str(path),
                        rel: copy_str(rel),
                        line_no: i + 1,
                        line: string_of(t.as_slice()),
                    };
                    assert(cs@.take(cs@.len() as int) =~= cs@);
                    assert(m.line@ == clip(lv[i as int]));
                    out.push(m);
                    assert(forall|j: int| 0 <= j < before.len() ==> #[trigger] out@[j] == before[j]);
                    assert(out@[before.len() as int] == m);
                    assert forall|j: int| 0 <= j < out@.len() implies same_file(#[trigger] out@[j], path@, rel@) by {
                        if j < before.len() {
                            assert(out@[j] == before[j]);
                        }
                    }
                    assert(out@.map_values(|m: SearchMatch| (m.line_no as nat, m.line@)) =~= before.map_values(
                        |m: SearchMatch| (m.line_no as nat, m.line@),
                    ).push(((i + 1) as nat, clip(lv[i as int]))));
                },
                _ => {},
            }
        }
    }
    assert(lv.take(n as int) =~= lv);
    out
}

} // verus!
