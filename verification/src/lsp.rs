//! Language-server data: what the client sends, and what it reads back from
//! the server's replies (diagnostics, completions, edits).
use vstd::prelude::*;

use crate::extensions::{lemma_lex_irreflexive, lemma_lex_total, lemma_lex_transitive, lex_lt, str_lt};
use crate::git::{contains_str, contains_text};
use crate::json::{jarray, jget, jget_str, jget_u64, jstr, JsonValue};
use crate::text::{chars_of, copy_str, lowercase_of, to_lowercase};
use crate::uri::{path_of_uri, uri_to_path};

verus! {

/// The `(tab index, buffer version)` a request was issued for, so a late
/// response can be discarded if the buffer moved on.
pub type Token = (usize, u64);

/// A client -> server intent.
pub enum LspClientMsg {
    DidOpen { uri: String, language_id: String, version: i32, text: String },
    DidChange { uri: String, version: i32, text: String },
    DidSave { uri: String },
    DidClose { uri: String },
    Completion { uri: String, line: u32, character: u32, token: Token },
    Formatting { uri: String, token: Token },
}

/// Diagnostic severity (LSP 1..=4).
#[derive(Debug, Clone, Copy, PartialEq, Eq, Structural)]
pub enum Severity {
    Error,
    Warning,
    Info,
    Hint,
}

impl Severity {
    /// The severity an LSP number stands for; anything unknown is a hint.
    pub fn from_lsp(n: u64) -> (s: Severity)
        ensures
            s == (if n == 1 {
                Severity::Error
            } else if n == 2 {
                Severity::Warning
            } else if n == 3 {
                Severity::Info
            } else {
                Severity::Hint
            }),
    {
        if n == 1 {
            Severity::Error
        } else if n == 2 {
            Severity::Warning
        } else if n == 3 {
            Severity::Info
        } else {
            Severity::Hint
        }
    }
}

/// A diagnostic in raw LSP coordinates (UTF-16).
#[derive(Debug, Clone)]
pub struct RawDiagnostic {
    pub start_line: usize,
    pub start_char: u32,
    pub end_line: usize,
    pub end_char: u32,
    pub severity: Severity,
    pub message: String,
}

/// A completion item, normalized from either shape the server may return.
#[derive(Debug, Clone)]
pub struct CompletionItem {
    pub label: String,
    pub insert_text: String,
    pub detail: Option<String>,
    /// Text the typed prefix is matched against (defaults to `label`).
    pub filter_text: String,
    /// Server-provided sort key, ranking items within a match tier.
    pub sort_text: String,
}

/// A text edit in raw LSP coordinates (UTF-16).
#[derive(Debug, Clone)]
pub struct RawTextEdit {
    pub start_line: usize,
    pub start_char: u32,
    pub end_line: usize,
    pub end_char: u32,
    pub new_text: String,
}

// ----- ranking completion items against the typed prefix -----

/// Whether `p` is a prefix of `s`.
pub open spec fn starts_with(s: Seq<char>, p: Seq<char>) -> bool {
    p.len() <= s.len() && s.subrange(0, p.len() as int) == p
}

/// Whether the characters of `n` appear in `h` in order (not necessarily adjacent).
pub open spec fn is_subsequence(n: Seq<char>, h: Seq<char>) -> bool
    decreases h.len(),
{
    if n.len() == 0 {
        true
    } else if h.len() == 0 {
        false
    } else if n[0] == h[0] {
        is_subsequence(n.drop_first(), h.drop_first())
    } else {
        is_subsequence(n, h.drop_first())
    }
}

/// How well an item matches the typed prefix, lower is better: exact-case
/// prefix 0, case-insensitive prefix 1, substring 2, subsequence 3; `None`
/// rejects it. An empty prefix matches everything with 0.
pub open spec fn score_of(filter_text: Seq<char>, prefix: Seq<char>) -> Option<u8> {
    let h = lowercase_of(filter_text);
    let n = lowercase_of(prefix);
    if prefix.len() == 0 || starts_with(filter_text, prefix) {
        Some(0)
    } else if starts_with(h, n) {
        Some(1)
    } else if contains_text(h, n) {
        Some(2)
    } else if is_subsequence(n, h) {
        Some(3)
    } else {
        None
    }
}

fn starts_with_chars(s: &[char], p: &[char]) -> (b: bool)
    ensures
        b == starts_with(s@, p@),
{
    if p.len() > s.len() {
        return false;
    }
    let n = p.len();
    for i in 0..n
        invariant
            n == p@.len(),
            n <= s@.len(),
            forall|k: int| 0 <= k < i ==> s@[k] == p@[k],
    {
        if s[i] != p[i] {
            assert(s@.subrange(0, n as int)[i as int] != p@[i as int]);
            return false;
        }
    }
    assert(s@.subrange(0, n as int) =~= p@);
    true
}

fn subsequence_chars(n: &[char], h: &[char]) -> (b: bool)
    ensures
        b == is_subsequence(n@, h@),
{
    let mut i: usize = 0;
    let mut j: usize = 0;
    let ln = n.len();
    let lh = h.len();
    assert(n@.skip(0) =~= n@);
    assert(h@.skip(0) =~= h@);
    while i < ln && j < lh
        invariant
            ln == n@.len(),
            lh == h@.len(),
            i <= ln,
            j <= lh,
            is_subsequence(n@, h@) == is_subsequence(n@.skip(i as int), h@.skip(j as int)),
        decreases lh - j,
    {
        proof {
            assert(n@.skip(i as int).drop_first() =~= n@.skip(i + 1));
            assert(h@.skip(j as int).drop_first() =~= h@.skip(j + 1));
        }
        if n[i] == h[j] {
            i += 1;
        }
        j += 1;
    }
    i == ln
}

/// How well an item's filter text matches the typed prefix (see `score_of`).
pub fn match_score(filter_text: &str, prefix: &str) -> (r: Option<u8>)
    ensures
        r == score_of(filter_text@, prefix@),
{
    let ft = chars_of(filter_text);
    let pf = chars_of(prefix);
    if pf.len() == 0 || starts_with_chars(ft.as_slice(), pf.as_slice()) {
        return Some(0);
    }
    let haystack = to_lowercase(filter_text);
    let needle = to_lowercase(prefix);
    let h = chars_of(haystack.as_str());
    let n = chars_of(needle.as_str());
    if starts_with_chars(h.as_slice(), n.as_slice()) {
        return Some(1);
    }
    if contains_str(haystack.as_str(), needle.as_str()) {
        return Some(2);
    }
    if subsequence_chars(n.as_slice(), h.as_slice()) {
        return Some(3);
    }
    None
}

/// The items that match, each with its score, in the order they came in.
pub open spec fn scored(items: Seq<CompletionItem>, prefix: Seq<char>) -> Seq<(u8, CompletionItem)>
    decreases items.len(),
{
    if items.len() == 0 {
        Seq::empty()
    } else {
        let prev = scored(items.drop_last(), prefix);
        match score_of(items.last().filter_text@, prefix) {
            Some(s) => prev.push((s, items.last())),
            None => prev,
        }
    }
}

/// The ranking order: by score, then by the server's sort text, then by the
/// position in the input (the sort is stable).
pub open spec fn ranks_before(a: (u8, CompletionItem), i: int, b: (u8, CompletionItem), j: int) -> bool {
    a.0 < b.0 || (a.0 == b.0 && lex_lt(a.1.sort_text@, b.1.sort_text@)) || (a.0 == b.0
        && a.1.sort_text@ == b.1.sort_text@ && i < j)
}

/// `perm` lists the positions of `s` in ranking order.
pub open spec fn ranked(s: Seq<(u8, CompletionItem)>, perm: Seq<int>) -> bool {
    &&& perm.len() == s.len()
    &&& forall|k: int| 0 <= k < perm.len() ==> 0 <= #[trigger] perm[k] < s.len()
    &&& forall|k: int, l: int| 0 <= k < l < perm.len() ==> perm[k] != perm[l]
    &&& forall|k: int, l: int|
        0 <= k < l < perm.len() ==> ranks_before(s[#[trigger] perm[k]], perm[k], s[#[trigger] perm[l]], perm[l])
}

proof fn lemma_ranks_total(a: (u8, CompletionItem), i: int, b: (u8, CompletionItem), j: int)
    requires
        i != j,
    ensures
        ranks_before(a, i, b, j) || ranks_before(b, j, a, i),
{
    lemma_lex_total(a.1.sort_text@, b.1.sort_text@);
}

proof fn lemma_ranks_transitive(a: (u8, CompletionItem), i: int, b: (u8, CompletionItem), j: int, c: (u8, CompletionItem), k: int)
    requires
        ranks_before(a, i, b, j),
        ranks_before(b, j, c, k),
    ensures
        ranks_before(a, i, c, k),
{
    if a.0 == b.0 && b.0 == c.0 {
        if lex_lt(a.1.sort_text@, b.1.sort_text@) && lex_lt(b.1.sort_text@, c.1.sort_text@) {
            lemma_lex_transitive(a.1.sort_text@, b.1.sort_text@, c.1.sort_text@);
        }
    }
}

proof fn lemma_ranks_asymmetric(a: (u8, CompletionItem), i: int, b: (u8, CompletionItem), j: int)
    requires
        ranks_before(a, i, b, j),
    ensures
        !ranks_before(b, j, a, i),
{
    if a.0 == b.0 && lex_lt(a.1.sort_text@, b.1.sort_text@) && lex_lt(b.1.sort_text@, a.1.sort_text@) {
        lemma_lex_transitive(a.1.sort_text@, b.1.sort_text@, a.1.sort_text@);
        lemma_lex_irreflexive(a.1.sort_text@);
    }
    if a.1.sort_text@ == b.1.sort_text@ {
        lemma_lex_irreflexive(a.1.sort_text@);
    }
}

/// Keeps only the items matching the typed prefix, best tier first; within a
/// tier by the server's sort text, then in the server's order.
pub fn filter_items(items: Vec<CompletionItem>, prefix: &str) -> (r: Vec<CompletionItem>)
    ensures
        exists|perm: Seq<int>| {
            &&& ranked(scored(items@, prefix@), perm)
            &&& r@.len() == perm.len()
            &&& forall|k: int| 0 <= k < r@.len() ==> #[trigger] r@[k] == scored(items@, prefix@)[perm[k]].1
        },
{
    let ghost all = items@;
    let mut kept: Vec<(u8, CompletionItem)> = Vec::new();
    let mut items = items;
    let n = items.len();
    let mut i: usize = 0;
    assert(all.skip(0) =~= all);
    while i < n
        invariant
            n == all.len(),
            i <= n,
            items@ == all.skip(i as int),
            kept@ == scored(all.take(i as int), prefix@),
        decreases n - i,
    {
        let it = items.remove(0);
        proof {
            assert(it == all[i as int]);
            assert(all.take(i + 1).drop_last() =~= all.take(i as int));
            assert(all.take(i + 1).last() == it);
            assert(items@ =~= all.skip(i + 1));
        }
        match match_score(it.filter_text.as_str(), prefix) {
            Some(sc) => kept.push((sc, it)),
            None => {},
        }
        i += 1;
    }
    assert(all.take(n as int) =~= all);
    let ghost s = kept@;
    // insertion sort by rank, stable
    let mut out: Vec<(u8, CompletionItem)> = Vec::new();
    let ghost mut perm: Seq<int> = Seq::empty();
    let m = kept.len();
    let mut j: usize = 0;
    assert(s.skip(0) =~= s);
    while j < m
        invariant
            m == s.len(),
            j <= m,
            kept@ == s.skip(j as int),
            perm.len() == out@.len(),
            perm.len() == j,
            forall|k: int| 0 <= k < perm.len() ==> 0 <= #[trigger] perm[k] < j,
            forall|k: int, l: int| 0 <= k < l < perm.len() ==> perm[k] != perm[l],
            forall|k: int| 0 <= k < perm.len() ==> #[trigger] out@[k] == s[perm[k]],
            forall|k: int, l: int|
                0 <= k < l < perm.len() ==> ranks_before(s[#[trigger] perm[k]], perm[k], s[#[trigger] perm[l]], perm[l]),
        decreases m - j,
    {
        let x = kept.remove(0);
        proof {
            assert(x == s[j as int]);
            assert(kept@ =~= s.skip(j + 1));
        }
        // first position whose entry ranks after x
        let mut p: usize = 0;
        let len = out.len();
        while p < len && !(x.0 < out[p].0 || (x.0 == out[p].0 && str_lt(x.1.sort_text.as_str(), out[p].1.sort_text.as_str())))
            invariant
                len == out@.len(),
                p <= len,
                perm.len() == len,
                forall|k: int| 0 <= k < perm.len() ==> 0 <= #[trigger] perm[k] < j,
                forall|k: int| 0 <= k < perm.len() ==> #[trigger] out@[k] == s[perm[k]],
                x == s[j as int],
                forall|k: int| 0 <= k < p ==> ranks_before(#[trigger] s[perm[k]], perm[k], x, j as int),
            decreases len - p,
        {
            proof {
                let y = s[perm[p as int]];
                assert(out@[p as int] == y);
                lemma_lex_total(x.1.sort_text@, y.1.sort_text@);
            }
            p += 1;
        }
        proof {
            if p < len {
                let y = s[perm[p as int]];
                assert(out@[p as int] == y);
                assert(ranks_before(x, j as int, y, perm[p as int]));
            }
        }
        let ghost old_out = out@;
        let ghost old_perm = perm;
        out.insert(p, x);
        proof {
            perm = old_perm.take(p as int).push(j as int) + old_perm.skip(p as int);
            assert forall|k: int| 0 <= k < perm.len() implies 0 <= #[trigger] perm[k] < j + 1 by {
                if k < p {
                    assert(perm[k] == old_perm[k]);
                } else if k > p {
                    assert(perm[k] == old_perm[k - 1]);
                }
            }
            assert forall|k: int, l: int| 0 <= k < l < perm.len() implies perm[k] != perm[l] by {
                if k < p && l < p {
                    assert(perm[k] == old_perm[k] && perm[l] == old_perm[l]);
                } else if k < p && l == p {
                    assert(perm[k] == old_perm[k]);
                } else if k < p {
                    assert(perm[k] == old_perm[k] && perm[l] == old_perm[l - 1]);
                } else if k == p {
                    assert(perm[l] == old_perm[l - 1]);
                } else {
                    assert(perm[k] == old_perm[k - 1] && perm[l] == old_perm[l - 1]);
                }
            }
            assert forall|k: int| 0 <= k < perm.len() implies #[trigger] out@[k] == s[perm[k]] by {
                if k < p {
                    assert(out@[k] == old_out[k] && perm[k] == old_perm[k]);
                } else if k > p {
                    assert(out@[k] == old_out[k - 1] && perm[k] == old_perm[k - 1]);
                }
            }
            assert forall|k: int, l: int|
                0 <= k < l < perm.len() implies ranks_before(s[#[trigger] perm[k]], perm[k], s[#[trigger] perm[l]], perm[l]) by {
                if k < p && l < p {
                    assert(perm[k] == old_perm[k] && perm[l] == old_perm[l]);
                } else if k < p && l == p {
                    assert(perm[k] == old_perm[k]);
                } else if k < p {
                    assert(perm[k] == old_perm[k] && perm[l] == old_perm[l - 1]);
                } else if k == p {
                    assert(perm[l] == old_perm[l - 1]);
                    let y = s[old_perm[p as int]];
                    if l - 1 > p {
                        lemma_ranks_transitive(x, j as int, y, old_perm[p as int], s[old_perm[l - 1]], old_perm[l - 1]);
                    }
                } else {
                    assert(perm[k] == old_perm[k - 1] && perm[l] == old_perm[l - 1]);
                }
            }
        }
        j += 1;
    }
    let mut r: Vec<CompletionItem> = Vec::new();
    let mut out = out;
    let ghost sorted = out@;
    let q = out.len();
    let mut t: usize = 0;
    assert(sorted.skip(0) =~= sorted);
    while t < q
        invariant
            q == sorted.len(),
            t <= q,
            out@ == sorted.skip(t as int),
            r@.len() == t,
            forall|k: int| 0 <= k < t ==> #[trigger] r@[k] == sorted[k].1,
        decreases q - t,
    {
        let (_, it) = out.remove(0);
        proof {
            assert(out@ =~= sorted.skip(t + 1));
        }
        r.push(it);
        t += 1;
    }
    assert(ranked(s, perm));
    r
}

// ----- reading the server's replies -----

/// A position object: its line and character, as the client stores them.
pub open spec fn position_of(p: JsonValue) -> Option<(usize, u32)> {
    match (jget_u64(p, "line"@), jget_u64(p, "character"@)) {
        (Some(l), Some(c)) => Some((l as usize, c as u32)),
        _ => None,
    }
}

/// The start and end positions of an object's "range".
pub open spec fn range_of(v: JsonValue) -> Option<((usize, u32), (usize, u32))> {
    match jget(v, "range"@) {
        Some(r) => match (jget(r, "start"@), jget(r, "end"@)) {
            (Some(a), Some(b)) => match (position_of(a), position_of(b)) {
                (Some(x), Some(y)) => Some((x, y)),
                _ => None,
            },
            _ => None,
        },
        None => None,
    }
}

fn parse_position(p: &JsonValue) -> (r: Option<(usize, u32)>)
    ensures
        r == position_of(*p),
{
    let line = match p.get_u64("line") {
        Some(l) => l,
        None => {
            return None;
        },
    };
    let character = match p.get_u64("character") {
        Some(c) => c,
        None => {
            return None;
        },
    };
    Some((line as usize, character as u32))
}

fn parse_range(v: &JsonValue) -> (r: Option<((usize, u32), (usize, u32))>)
    ensures
        r == range_of(*v),
{
    let range = match v.get("range") {
        Some(r) => r,
        None => {
            return None;
        },
    };
    let start = match range.get("start") {
        Some(a) => a,
        None => {
            return None;
        },
    };
    let end = match range.get("end") {
        Some(b) => b,
        None => {
            return None;
        },
    };
    match (parse_position(start), parse_position(end)) {
        (Some(x), Some(y)) => Some((x, y)),
        _ => None,
    }
}

/// What a diagnostic object holds: range, severity (an error when absent or
/// not a number) and message (empty when absent).
pub open spec fn diagnostic_of(d: JsonValue) -> Option<(usize, u32, usize, u32, Severity, Seq<char>)> {
    match range_of(d) {
        Some(((sl, sc), (el, ec))) => {
            let sev = match jget_u64(d, "severity"@) {
                Some(n) => severity_of(n),
                None => Severity::Error,
            };
            let msg = match jget_str(d, "message"@) {
                Some(m) => m,
                None => Seq::empty(),
            };
            Some((sl, sc, el, ec, sev, msg))
        },
        None => None,
    }
}

pub open spec fn severity_of(n: u64) -> Severity {
    if n == 1 {
        Severity::Error
    } else if n == 2 {
        Severity::Warning
    } else if n == 3 {
        Severity::Info
    } else {
        Severity::Hint
    }
}

pub open spec fn diag_view(d: RawDiagnostic) -> (usize, u32, usize, u32, Severity, Seq<char>) {
    (d.start_line, d.start_char, d.end_line, d.end_char, d.severity, d.message@)
}

/// The diagnostics of a list, skipping entries that are not diagnostics.
pub open spec fn diagnostics_of(ds: Seq<JsonValue>) -> Seq<(usize, u32, usize, u32, Severity, Seq<char>)>
    decreases ds.len(),
{
    if ds.len() == 0 {
        Seq::empty()
    } else {
        let prev = diagnostics_of(ds.drop_last());
        match diagnostic_of(ds.last()) {
            Some(x) => prev.push(x),
            None => prev,
        }
    }
}

pub fn parse_one_diagnostic(d: &JsonValue) -> (r: Option<RawDiagnostic>)
    ensures
        match (r, diagnostic_of(*d)) {
            (Some(x), Some(v)) => diag_view(x) == v,
            (None, None) => true,
            _ => false,
        },
{
    proof {
        reveal_strlit("");
    }
    let ((start_line, start_char), (end_line, end_char)) = match parse_range(d) {
        Some(r) => r,
        None => {
            return None;
        },
    };
    let severity = match d.get_u64("severity") {
        Some(n) => Severity::from_lsp(n),
        None => Severity::Error,
    };
    let message = match d.get_str("message") {
        Some(m) => copy_str(m),
        None => String::new(),
    };
    Some(RawDiagnostic { start_line, start_char, end_line, end_char, severity, message })
}

fn parse_diagnostic_list(ds: &Vec<JsonValue>) -> (r: Vec<RawDiagnostic>)
    ensures
        r@.map_values(|d: RawDiagnostic| diag_view(d)) == diagnostics_of(ds@),
{
    let mut out: Vec<RawDiagnostic> = Vec::new();
    let n = ds.len();
    for i in 0..n
        invariant
            n == ds@.len(),
            out@.map_values(|d: RawDiagnostic| diag_view(d)) == diagnostics_of(ds@.take(i as int)),
    {
        proof {
            assert(ds@.take(i + 1).drop_last() =~= ds@.take(i as int));
            assert(ds@.take(i + 1).last() == ds@[i as int]);
        }
        let ghost before = out@;
        match parse_one_diagnostic(&ds[i]) {
            Some(x) => {
                out.push(x);
                assert(out@.map_values(|d: RawDiagnostic| diag_view(d)) =~= before.map_values(|d: RawDiagnostic| diag_view(d)).push(diag_view(x)));
            },
            None => {},
        }
    }
    assert(ds@.take(n as int) =~= ds@);
    out
}

/// A `textDocument/publishDiagnostics` notification: the file its URI names
/// and its diagnostics (skipping malformed ones).
pub open spec fn publish_of(frame: JsonValue) -> Option<(Seq<char>, Seq<(usize, u32, usize, u32, Severity, Seq<char>)>)> {
    match jget(frame, "params"@) {
        Some(params) => match jget_str(params, "uri"@) {
            Some(uri) => match path_of_uri(encode_utf8_of(uri)) {
                Some(path) => match jget(params, "diagnostics"@) {
                    Some(ds) => match jarray(ds) {
                        Some(a) => Some((path, diagnostics_of(a))),
                        None => None,
                    },
                    None => None,
                },
                None => None,
            },
            None => None,
        },
        None => None,
    }
}

pub open spec fn encode_utf8_of(s: Seq<char>) -> Seq<u8> {
    vstd::utf8::encode_utf8(s)
}

pub fn parse_publish_diagnostics(frame: &JsonValue) -> (r: Option<(String, Vec<RawDiagnostic>)>)
    ensures
        match (r, publish_of(*frame)) {
            (Some((p, ds)), Some((vp, vds))) => p@ == vp && ds@.map_values(|d: RawDiagnostic| diag_view(d)) == vds,
            (None, None) => true,
            _ => false,
        },
{
    let params = match frame.get("params") {
        Some(p) => p,
        None => {
            return None;
        },
    };
    let uri = match params.get_str("uri") {
        Some(u) => u,
        None => {
            return None;
        },
    };
    let path = match uri_to_path(uri) {
        Some(p) => p,
        None => {
            return None;
        },
    };
    let ds = match params.get("diagnostics") {
        Some(d) => d,
        None => {
            return None;
        },
    };
    let list = match ds.as_array() {
        Some(a) => a,
        None => {
            return None;
        },
    };
    Some((path, parse_diagnostic_list(list)))
}

/// What a completion item object gives: the label, the text to insert (its
/// "insertText", else its text edit's "newText", else the label), the
/// detail, and the filter and sort texts (each defaulting to the label).
/// `None` for an item without a string label.
pub open spec fn completion_of(item: JsonValue) -> Option<(Seq<char>, Seq<char>, Option<Seq<char>>, Seq<char>, Seq<char>)> {
    match jget_str(item, "label"@) {
        Some(label) => {
            let insert = match jget_str(item, "insertText"@) {
                Some(t) => t,
                None => match jget(item, "textEdit"@) {
                    Some(e) => match jget_str(e, "newText"@) {
                        Some(t) => t,
                        None => label,
                    },
                    None => label,
                },
            };
            let filter = match jget_str(item, "filterText"@) {
                Some(t) => t,
                None => label,
            };
            let sort = match jget_str(item, "sortText"@) {
                Some(t) => t,
                None => label,
            };
            Some((label, insert, jget_str(item, "detail"@), filter, sort))
        },
        None => None,
    }
}

pub open spec fn item_view(c: CompletionItem) -> (Seq<char>, Seq<char>, Option<Seq<char>>, Seq<char>, Seq<char>) {
    (
        c.label@,
        c.insert_text@,
        match c.detail {
            Some(d) => Some(d@),
            None => None,
        },
        c.filter_text@,
        c.sort_text@,
    )
}

pub open spec fn completions_in(items: Seq<JsonValue>) -> Seq<(Seq<char>, Seq<char>, Option<Seq<char>>, Seq<char>, Seq<char>)>
    decreases items.len(),
{
    if items.len() == 0 {
        Seq::empty()
    } else {
        let prev = completions_in(items.drop_last());
        match completion_of(items.last()) {
            Some(x) => prev.push(x),
            None => prev,
        }
    }
}

/// The items of a completion reply: a `CompletionList` (its "items") or a
/// bare array; nothing for a null, missing or other result.
pub open spec fn completion_items_of(frame: JsonValue) -> Seq<JsonValue> {
    match jget(frame, "result"@) {
        Some(r) => if r is Null {
            Seq::empty()
        } else {
            match jget(r, "items"@) {
                Some(i) => match jarray(i) {
                    Some(a) => a,
                    None => match jarray(r) {
                        Some(a) => a,
                        None => Seq::empty(),
                    },
                },
                None => match jarray(r) {
                    Some(a) => a,
                    None => Seq::empty(),
                },
            }
        },
        None => Seq::empty(),
    }
}

fn parse_completion(item: &JsonValue) -> (r: Option<CompletionItem>)
    ensures
        match (r, completion_of(*item)) {
            (Some(c), Some(v)) => item_view(c) == v,
            (None, None) => true,
            _ => false,
        },
{
    let label = match item.get_str("label") {
        Some(l) => l,
        None => {
            return None;
        },
    };
    let insert_text = match item.get_str("insertText") {
        Some(t) => copy_str(t),
        None => match item.get("textEdit") {
            Some(e) => match e.get_str("newText") {
                Some(t) => copy_str(t),
                None => copy_str(label),
            },
            None => copy_str(label),
        },
    };
    let detail = match item.get_str("detail") {
        Some(d) => Some(copy_str(d)),
        None => None,
    };
    let filter_text = match item.get_str("filterText") {
        Some(t) => copy_str(t),
        None => copy_str(label),
    };
    let sort_text = match item.get_str("sortText") {
        Some(t) => copy_str(t),
        None => copy_str(label),
    };
    Some(CompletionItem { label: copy_str(label), insert_text, detail, filter_text, sort_text })
}

/// The completion items of a reply, in order, skipping items without a label.
pub fn parse_completions(frame: &JsonValue) -> (r: Vec<CompletionItem>)
    ensures
        r@.map_values(|c: CompletionItem| item_view(c)) == completions_in(completion_items_of(*frame)),
{
    let empty: Vec<CompletionItem> = Vec::new();
    let result = match frame.get("result") {
        Some(r) => r,
        None => {
            assert(empty@.map_values(|c: CompletionItem| item_view(c)) =~= completions_in(Seq::empty()));
            return empty;
        },
    };
    if result.is_null() {
        assert(empty@.map_values(|c: CompletionItem| item_view(c)) =~= completions_in(Seq::empty()));
        return empty;
    }
    let from_items = match result.get("items") {
        Some(i) => i.as_array(),
        None => None,
    };
    let items = match from_items {
        Some(a) => a,
        None => match result.as_array() {
            Some(a) => a,
            None => {
                assert(empty@.map_values(|c: CompletionItem| item_view(c)) =~= completions_in(Seq::empty()));
                return empty;
            },
        },
    };
    let mut out: Vec<CompletionItem> = Vec::new();
    let n = items.len();
    for i in 0..n
        invariant
            n == items@.len(),
            out@.map_values(|c: CompletionItem| item_view(c)) == completions_in(items@.take(i as int)),
    {
        proof {
            assert(items@.take(i + 1).drop_last() =~= items@.take(i as int));
            assert(items@.take(i + 1).last() == items@[i as int]);
        }
        let ghost before = out@;
        match parse_completion(&items[i]) {
            Some(c) => {
                out.push(c);
                assert(out@.map_values(|c: CompletionItem| item_view(c)) =~= before.map_values(|c: CompletionItem| item_view(c)).push(item_view(c)));
            },
            None => {},
        }
    }
    assert(items@.take(n as int) =~= items@);
    out
}

/// What a text edit object holds: its range and new text.
pub open spec fn edit_of(e: JsonValue) -> Option<(usize, u32, usize, u32, Seq<char>)> {
    match (range_of(e), jget_str(e, "newText"@)) {
        (Some(((sl, sc), (el, ec))), Some(t)) => Some((sl, sc, el, ec, t)),
        _ => None,
    }
}

pub open spec fn edit_view(e: RawTextEdit) -> (usize, u32, usize, u32, Seq<char>) {
    (e.start_line, e.start_char, e.end_line, e.end_char, e.new_text@)
}

pub open spec fn edits_in(es: Seq<JsonValue>) -> Seq<(usize, u32, usize, u32, Seq<char>)>
    decreases es.len(),
{
    if es.len() == 0 {
        Seq::empty()
    } else {
        let prev = edits_in(es.drop_last());
        match edit_of(es.last()) {
            Some(x) => prev.push(x),
            None => prev,
        }
    }
}

/// The edits of a formatting reply (its "result" array), skipping malformed ones.
pub fn parse_text_edits(frame: &JsonValue) -> (r: Vec<RawTextEdit>)
    ensures
        r@.map_values(|e: RawTextEdit| edit_view(e)) == match jget(*frame, "result"@) {
            Some(res) => match jarray(res) {
                Some(a) => edits_in(a),
                None => Seq::empty(),
            },
            None => Seq::empty(),
        },
{
    let empty: Vec<RawTextEdit> = Vec::new();
    let edits = match frame.get("result") {
        Some(r) => match r.as_array() {
            Some(a) => a,
            None => {
                assert(empty@.map_values(|e: RawTextEdit| edit_view(e)) =~= Seq::<(usize, u32, usize, u32, Seq<char>)>::empty());
                return empty;
            },
        },
        None => {
            assert(empty@.map_values(|e: RawTextEdit| edit_view(e)) =~= Seq::<(usize, u32, usize, u32, Seq<char>)>::empty());
            return empty;
        },
    };
    let mut out: Vec<RawTextEdit> = Vec::new();
    let n = edits.len();
    for i in 0..n
        invariant
            n == edits@.len(),
            out@.map_values(|e: RawTextEdit| edit_view(e)) == edits_in(edits@.take(i as int)),
    {
        proof {
            assert(edits@.take(i + 1).drop_last() =~= edits@.take(i as int));
            assert(edits@.take(i + 1).last() == edits@[i as int]);
        }
        let e = &edits[i];
        let ghost before = out@;
        match (parse_range(e), e.get_str("newText")) {
            (Some(((start_line, start_char), (end_line, end_char))), Some(t)) => {
                let x = RawTextEdit { start_line, start_char, end_line, end_char, new_text: copy_str(t) };
                out.push(x);
                assert(out@.map_values(|e: RawTextEdit| edit_view(e)) =~= before.map_values(|e: RawTextEdit| edit_view(e)).push(edit_view(x)));
            },
            _ => {},
        }
    }
    assert(edits@.take(n as int) =~= edits@);
    out
}

// ----- the identifier before the cursor -----

/// What `char::is_alphanumeric` says of a character (Unicode Alphabetic or
/// Numeric).
pub uninterp spec fn alphanumeric(c: char) -> bool;

/// `char::is_alphanumeric`. The result is named, not stated.
#[verifier::external_body]
pub(crate) fn is_alphanumeric(c: char) -> (b: bool)
    ensures
        b == alphanumeric(c),
{
    c.is_alphanumeric()
}

pub open spec fn is_word_char(c: char) -> bool {
    alphanumeric(c) || c == '_'
}

/// Start column of the identifier that ends at column `col` (clamped to the
/// line): the cursor column moved back over word characters.
pub open spec fn word_start_of(line: Seq<char>, col: int) -> int
    decreases col,
{
    let c = if col > line.len() { line.len() as int } else { col };
    if c > 0 && is_word_char(line[c - 1]) { word_start_of(line, c - 1) } else { c }
}

/// The column where the identifier before the cursor starts (the range a
/// completion replaces on accept).
pub fn word_start(line: &str, col: usize) -> (r: usize)
    ensures
        r == word_start_of(line@, col as int),
{
    let chars = chars_of(line);
    let mut s = if col < chars.len() { col } else { chars.len() };
    assert(word_start_of(line@, col as int) == word_start_of(line@, s as int));
    while s > 0 && (is_alphanumeric(chars[s - 1]) || chars[s - 1] == '_')
        invariant
            chars@ == line@,
            s <= line@.len(),
            word_start_of(line@, col as int) == word_start_of(line@, s as int),
        decreases s,
    {
        s -= 1;
    }
    s
}

/// The identifier text between `word_start` and the cursor.
pub fn typed_prefix(line: &str, col: usize) -> (r: String)
    ensures
        ({
            let a = word_start_of(line@, col as int);
            let e = if col > line@.len() { line@.len() as int } else { col as int };
            r@ == line@.subrange(a, e)
        }),
{
    let anchor = word_start(line, col);
    let chars = chars_of(line);
    let end = if col < chars.len() { col } else { chars.len() };
    proof {
        lemma_word_start_bounds(line@, col as int);
    }
    let mut out: Vec<char> = Vec::new();
    for k in anchor..end
        invariant
            anchor <= end,
            end <= chars@.len(),
            out@ == chars@.subrange(anchor as int, k as int),
    {
        out.push(chars[k]);
        assert(chars@.subrange(anchor as int, k + 1) =~= chars@.subrange(anchor as int, k as int).push(chars@[k as int]));
    }
    crate::text::string_of(out.as_slice())
}

proof fn lemma_word_start_bounds(line: Seq<char>, col: int)
    requires
        col >= 0,
    ensures
        0 <= word_start_of(line, col) <= (if col > line.len() { line.len() as int } else { col }),
    decreases col,
{
    let c = if col > line.len() { line.len() as int } else { col };
    if c > 0 && is_word_char(line[c - 1]) {
        lemma_word_start_bounds(line, c - 1);
    }
}

} // verus!
