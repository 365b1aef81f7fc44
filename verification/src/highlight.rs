//! Syntax highlighting with syntect, cached per buffer version: a prefix of
//! the file's lines is kept colored together with the parser state after
//! each line, so an edit re-highlights from the changed line only.
use vstd::prelude::*;

use syntect::highlighting::{HighlightState, Theme, ThemeSet};
use syntect::parsing::{ParseState, ScopeStackOp, SyntaxDefinition, SyntaxReference, SyntaxSet, SyntaxSetBuilder};

use crate::assets::{shipped_theme_names, shipped_theme_texts, shipped_themes, TOML_SYNTAX};

use crate::extensions::lex_lt;
use crate::keybindings::ascii_lower;
use vstd::utf8::{encode_utf8, is_char_boundary};
use vstd::string::*;
use crate::paths::{extension, extension_of, file_name, file_name_of};
use crate::text::{chars_of, string_of};

verus! {

#[verifier::external_type_specification]
#[verifier::external_body]
pub struct ExSyntaxSet(syntect::parsing::SyntaxSet);

#[verifier::external_type_specification]
#[verifier::external_body]
pub struct ExSyntaxSetBuilder(syntect::parsing::SyntaxSetBuilder);

#[verifier::external_type_specification]
#[verifier::external_body]
pub struct ExSyntaxDefinition(syntect::parsing::SyntaxDefinition);

#[verifier::external_type_specification]
#[verifier::external_body]
pub struct ExSyntaxReference(syntect::parsing::SyntaxReference);

#[verifier::external_type_specification]
#[verifier::external_body]
pub struct ExParseState(syntect::parsing::ParseState);

#[verifier::external_type_specification]
#[verifier::external_body]
pub struct ExScopeStackOp(syntect::parsing::ScopeStackOp);

#[verifier::external_type_specification]
#[verifier::external_body]
pub struct ExThemeSet(syntect::highlighting::ThemeSet);

#[verifier::external_type_specification]
#[verifier::external_body]
pub struct ExTheme(syntect::highlighting::Theme);

#[verifier::external_type_specification]
#[verifier::external_body]
pub struct ExHighlightState(syntect::highlighting::HighlightState);

/// `SyntaxSet::load_defaults_newlines`: syntect's bundled syntaxes, for lines
/// that keep their line ending. Nothing is claimed of what it holds.
#[verifier::external_body]
fn bundled_syntaxes() -> SyntaxSet {
    SyntaxSet::load_defaults_newlines()
}

/// `SyntaxSet::into_builder`: a builder holding the set's syntaxes, for more
/// to be added. What it holds is not stated.
#[verifier::external_body]
fn syntax_builder(ss: SyntaxSet) -> SyntaxSetBuilder {
    ss.into_builder()
}

/// `SyntaxDefinition::load_from_str` for lines that keep their ending, with no
/// fallback name: the syntax a `.sublime-syntax` text defines, or `None` when
/// syntect cannot read it. Which texts it reads is not stated.
#[verifier::external_body]
fn syntax_from_text(text: &str) -> Option<SyntaxDefinition> {
    SyntaxDefinition::load_from_str(text, true, None).ok()
}

/// `SyntaxSetBuilder::add`: puts the syntax after those the builder holds (not
/// stated).
#[verifier::external_body]
fn add_syntax(b: &mut SyntaxSetBuilder, d: SyntaxDefinition) {
    b.add(d)
}

/// `SyntaxSetBuilder::build`: the syntax set of the builder's syntaxes, their
/// references linked. Which syntaxes the set holds is not stated.
#[verifier::external_body]
fn build_syntaxes(b: SyntaxSetBuilder) -> SyntaxSet {
    b.build()
}

/// The theme names `ThemeSet::load_defaults` documents (dumps.rs): the keys
/// of its map.
pub open spec fn bundled_theme_names() -> Set<Seq<char>> {
    set![
        "base16-ocean.dark"@,
        "base16-eighties.dark"@,
        "base16-mocha.dark"@,
        "base16-ocean.light"@,
        "InspiredGitHub"@,
        "Solarized (dark)"@,
        "Solarized (light)"@,
    ]
}

/// `ThemeSet::load_defaults`: syntect's bundled themes, under the seven names
/// its documentation lists.
#[verifier::external_body]
fn bundled_themes() -> (r: ThemeSet)
    ensures
        theme_set_names(r) == bundled_theme_names(),
{
    ThemeSet::load_defaults()
}

/// The names a theme set holds themes under: the keys of its `themes` map.
pub uninterp spec fn theme_set_names(ts: ThemeSet) -> Set<Seq<char>>;

/// Whether syntect reads a text as a theme (`ThemeSet::load_from_reader`
/// succeeds on it); it depends on the text alone.
pub uninterp spec fn theme_reads(text: Seq<char>) -> bool;

/// `ThemeSet::load_from_reader` over a `.tmTheme` text: the theme, or `None`
/// when the text is not a theme syntect can read. Which texts it reads is
/// named, not stated.
#[verifier::external_body]
fn theme_from_text(text: &str) -> (r: Option<Theme>)
    ensures
        r is Some <==> theme_reads(text@),
{
    ThemeSet::load_from_reader(&mut std::io::Cursor::new(text.as_bytes())).ok()
}

/// `BTreeMap::insert` on a theme set's themes: the set then holds a theme
/// under that name (replacing any before), and its other names stay.
#[verifier::external_body]
fn add_theme(ts: &mut ThemeSet, name: String, theme: Theme)
    ensures
        theme_set_names(*final(ts)) == theme_set_names(*old(ts)).insert(name@),
{
    ts.themes.insert(name, theme);
}

/// The names of a theme set's themes: the keys of its `BTreeMap`, each once,
/// which std documents to be visited in ascending order, so the names come
/// strictly ascending.
#[verifier::external_body]
fn theme_keys(ts: &ThemeSet) -> (r: Vec<String>)
    ensures
        forall|i: int, j: int| 0 <= i < j < r@.len() ==> lex_lt(#[trigger] r@[i]@, #[trigger] r@[j]@),
        forall|s: Seq<char>|
            theme_set_names(*ts).contains(s) <==> exists|i: int| 0 <= i < r@.len() && #[trigger] r@[i]@ == s,
{
    ts.themes.keys().cloned().collect()
}

/// The theme a theme set holds under a name.
pub uninterp spec fn theme_ref_named(ts: ThemeSet, name: Seq<char>) -> Option<Theme>;

/// `BTreeMap::get` on a theme set's themes: the theme of that name, present
/// exactly when the set holds a theme under that name.
#[verifier::external_body]
fn theme_named<'a>(ts: &'a ThemeSet, name: &str) -> (r: Option<&'a Theme>)
    ensures
        r is Some <==> theme_set_names(*ts).contains(name@),
        r matches Some(t) ==> theme_ref_named(*ts, name@) == Some(*t),
        r is None ==> theme_ref_named(*ts, name@) is None,
{
    ts.themes.get(name)
}

/// The syntaxes a syntax set holds, in order: each one's name and the file
/// extensions it claims.
pub uninterp spec fn syntax_set_entries(ss: SyntaxSet) -> Seq<(Seq<char>, Seq<Seq<char>>)>;

/// Whether a syntax is one of the set's (its contexts are the set's).
pub uninterp spec fn syntax_in(ss: SyntaxSet, s: SyntaxReference) -> bool;

/// Whether a parser state runs on the set: it was started from one of the
/// set's syntaxes, so the contexts it refers to are the set's.
pub uninterp spec fn runs_on(ss: SyntaxSet, ps: ParseState) -> bool;

/// The last position (syntect searches from the end) in `es` before `n`
/// whose entry satisfies `f`.
pub open spec fn last_where(es: Seq<(Seq<char>, Seq<Seq<char>>)>, n: int, f: spec_fn((Seq<char>, Seq<Seq<char>>)) -> bool) -> Option<int>
    decreases n,
{
    if n <= 0 {
        None
    } else if f(es[n - 1]) {
        Some(n - 1)
    } else {
        last_where(es, n - 1, f)
    }
}

/// The name of the last syntax satisfying `f`.
pub open spec fn name_where(es: Seq<(Seq<char>, Seq<Seq<char>>)>, f: spec_fn((Seq<char>, Seq<Seq<char>>)) -> bool) -> Option<Seq<char>> {
    match last_where(es, es.len() as int, f) {
        Some(k) => Some(es[k].0),
        None => None,
    }
}

/// A syntax claims extension `ext`, compared ignoring ASCII case.
pub open spec fn claims_extension(ext: Seq<char>) -> spec_fn((Seq<char>, Seq<Seq<char>>)) -> bool {
    |e: (Seq<char>, Seq<Seq<char>>)| exists|j: int| 0 <= j < e.1.len() && ascii_lower(#[trigger] e.1[j]) == ascii_lower(ext)
}

/// A syntax is named `name` exactly.
pub open spec fn named(name: Seq<char>) -> spec_fn((Seq<char>, Seq<Seq<char>>)) -> bool {
    |e: (Seq<char>, Seq<Seq<char>>)| e.0 == name
}

/// A syntax is named `name`, ignoring ASCII case.
pub open spec fn named_ci(name: Seq<char>) -> spec_fn((Seq<char>, Seq<Seq<char>>)) -> bool {
    |e: (Seq<char>, Seq<Seq<char>>)| ascii_lower(e.0) == ascii_lower(name)
}

/// The syntax `SyntaxSet::find_syntax_by_name` finds in a set under a name.
pub uninterp spec fn syntax_ref_named(ss: SyntaxSet, name: Seq<char>) -> Option<SyntaxReference>;

/// `SyntaxSet::find_syntax_by_name`: the last syntax of that exact name, if
/// any; it is one of the set's.
#[verifier::external_body]
fn syntax_named<'a>(ss: &'a SyntaxSet, name: &str) -> (r: Option<&'a SyntaxReference>)
    ensures
        r is Some <==> name_where(syntax_set_entries(*ss), named(name@)) is Some,
        r matches Some(s) ==> syntax_in(*ss, *s) && syntax_ref_named(*ss, name@) == Some(*s),
        r is None ==> syntax_ref_named(*ss, name@) is None,
{
    ss.find_syntax_by_name(name)
}

/// `SyntaxSet::find_syntax_by_extension`, read back as the syntax's name: the
/// last syntax claiming the extension, compared ignoring ASCII case.
#[verifier::external_body]
fn syntax_for_extension(ss: &SyntaxSet, ext: &str) -> (r: Option<String>)
    ensures
        match r {
            Some(n) => name_where(syntax_set_entries(*ss), claims_extension(ext@)) == Some(n@),
            None => name_where(syntax_set_entries(*ss), claims_extension(ext@)) is None,
        },
{
    ss.find_syntax_by_extension(ext).map(|s| s.name.clone())
}

/// `SyntaxSet::find_syntax_by_token`, read back as the syntax's name: by
/// extension, then the last syntax whose name matches ignoring ASCII case.
#[verifier::external_body]
fn syntax_for_token(ss: &SyntaxSet, token: &str) -> (r: Option<String>)
    ensures
        ({
            let es = syntax_set_entries(*ss);
            let want = match name_where(es, claims_extension(token@)) {
                Some(n) => Some(n),
                None => name_where(es, named_ci(token@)),
            };
            match r {
                Some(n) => want == Some(n@),
                None => want is None,
            }
        }),
{
    ss.find_syntax_by_token(token).map(|s| s.name.clone())
}

/// `ParseState::new`: the parser state at the top of a file in that syntax,
/// running on whichever set the syntax is one of. syntect indexes the
/// syntax's start context, which every syntax of a built set has; that is not
/// stated.
#[verifier::external_body]
fn parse_start(s: &SyntaxReference) -> (r: ParseState)
    ensures
        forall|ss: SyntaxSet| syntax_in(ss, *s) ==> runs_on(ss, r),
        r == parse_start_of(*s),
{
    ParseState::new(s)
}

/// The parser state `ParseState::new` gives for a syntax.
pub uninterp spec fn parse_start_of(s: SyntaxReference) -> ParseState;

/// The style state `HighlightState::new` gives for a theme's highlighter and
/// an empty scope stack.
pub uninterp spec fn style_start_of(theme: Theme) -> HighlightState;

/// `HighlightState::new` with an empty scope stack, for a highlighter of the
/// theme: the style state at the top of a file.
#[verifier::external_body]
fn style_start(theme: &Theme) -> (r: HighlightState)
    ensures
        r == style_start_of(*theme),
{
    HighlightState::new(&syntect::highlighting::Highlighter::new(theme), syntect::parsing::ScopeStack::new())
}

/// What `ParseState::parse_line` gives for a state, a line and a syntax set:
/// the line's scope changes (`None` on a parse error) and the next state.
pub uninterp spec fn parse_of(ps: ParseState, line: Seq<char>, ss: SyntaxSet) -> (Option<Seq<(usize, ScopeStackOp)>>, ParseState);

/// `ParseState::parse_line`: the scope changes of one line, advancing the
/// parser state, which keeps running on the set; `None` when syntect reports
/// a parse error. syntect documents that the set must be the one the state
/// came from. The changes and the next state are named, not stated.
#[verifier::external_body]
fn parse_line(ps: &mut ParseState, line: &str, ss: &SyntaxSet) -> (r: Option<Vec<(usize, ScopeStackOp)>>)
    requires
        runs_on(*ss, *old(ps)),
    ensures
        runs_on(*ss, *final(ps)),
        *final(ps) == parse_of(*old(ps), line@, *ss).1,
        match r {
            Some(v) => parse_of(*old(ps), line@, *ss).0 == Some(v@),
            None => parse_of(*old(ps), line@, *ss).0 is None,
        },
{
    ps.parse_line(line, ss).ok()
}

/// Scope changes that fit a text: their positions come in order and each is
/// a character boundary of the text's UTF-8 (at most its length).
pub open spec fn changes_fit(ops: Seq<(usize, ScopeStackOp)>, text: Seq<char>) -> bool {
    &&& forall|k: int| 0 <= k < ops.len() ==> is_char_boundary(encode_utf8(text), (#[trigger] ops[k]).0 as int)
    &&& forall|k: int, j: int| 0 <= k < j < ops.len() ==> (#[trigger] ops[k]).0 <= (#[trigger] ops[j]).0
}

/// What a `HighlightIterator` yields over a style state, scope changes, a text
/// and a theme: the colored pieces (foreground, text), and the next state.
pub uninterp spec fn style_of(hs: HighlightState, ops: Seq<(usize, ScopeStackOp)>, text: Seq<char>, theme: Theme) -> (Seq<((u8, u8, u8), Seq<char>)>, HighlightState);

/// `HighlightIterator` over a line and its scope changes, advancing the style
/// state; each piece is given as its foreground (red, green, blue) and text.
/// syntect slices the text at the changes' positions, so they must fit it.
/// It yields the text from the start of the line, piece after piece, each
/// non-empty; it stops early if a scope change cannot be applied. The pieces
/// and the next state are named; their colors are not stated.
#[verifier::external_body]
fn style_pieces(hs: &mut HighlightState, ops: &Vec<(usize, ScopeStackOp)>, text: &str, theme: &Theme) -> (r: Vec<((u8, u8, u8), String)>)
    requires
        changes_fit(ops@, text@),
    ensures
        line_view(r) == style_of(*old(hs), ops@, text@, *theme).0,
        *final(hs) == style_of(*old(hs), ops@, text@, *theme).1,
        concat(texts(r@)).len() <= text@.len(),
        concat(texts(r@)) == text@.take(concat(texts(r@)).len() as int),
        forall|k: int| 0 <= k < r@.len() ==> (#[trigger] r@[k]).1@.len() > 0,
{
    let h = syntect::highlighting::Highlighter::new(theme);
    syntect::highlighting::HighlightIterator::new(hs, ops, text, &h)
        .map(|(style, piece)| ((style.foreground.r, style.foreground.g, style.foreground.b), piece.to_string()))
        .collect()
}

/// Whether scope changes fit a text.
fn changes_fit_text(ops: &Vec<(usize, ScopeStackOp)>, text: &str) -> (b: bool)
    ensures
        b == changes_fit(ops@, text@),
{
    let n = ops.len();
    let mut prev: usize = 0;
    for k in 0..n
        invariant
            n == ops@.len(),
            forall|i: int| 0 <= i < k ==> is_char_boundary(encode_utf8(text@), (#[trigger] ops@[i]).0 as int),
            forall|i: int, j: int| 0 <= i < j < k ==> (#[trigger] ops@[i]).0 <= (#[trigger] ops@[j]).0,
            k > 0 ==> prev == ops@[k - 1].0,
            forall|i: int| 0 <= i < k ==> (#[trigger] ops@[i]).0 <= prev,
    {
        let p = ops[k].0;
        if !text.is_char_boundary(p) {
            return false;
        }
        if k > 0 && p < prev {
            return false;
        }
        prev = p;
    }
    true
}

/// The foreground of `Highlighter::get_default` for a theme.
pub uninterp spec fn plain_of(theme: Theme) -> (u8, u8, u8);

/// `Highlighter::get_default`'s foreground: the color of plain text in the
/// theme (named, not stated).
#[verifier::external_body]
fn plain_color(theme: &Theme) -> (r: (u8, u8, u8))
    ensures
        r == plain_of(*theme),
{
    let c = syntect::highlighting::Highlighter::new(theme).get_default().foreground;
    (c.r, c.g, c.b)
}

/// `==` on two line-end states: syntect derives `PartialEq` for both states and
/// everything they hold, so it is equality.
#[verifier::external_body]
fn same_state(a: &(ParseState, HighlightState), b: &(ParseState, HighlightState)) -> (r: bool)
    ensures
        r == (*a == *b),
{
    a == b
}

/// `Clone` of a line-end state: syntect derives `Clone` for both states and
/// everything they hold, so the copy equals the state it was taken from.
#[verifier::external_body]
fn copy_state(a: &(ParseState, HighlightState)) -> (r: (ParseState, HighlightState))
    ensures
        r == *a,
{
    a.clone()
}

/// The texts of colored pieces.
pub open spec fn texts(ps: Seq<((u8, u8, u8), String)>) -> Seq<Seq<char>> {
    ps.map_values(|p: ((u8, u8, u8), String)| p.1@)
}

/// Texts joined.
pub open spec fn concat(ts: Seq<Seq<char>>) -> Seq<char>
    decreases ts.len(),
{
    if ts.len() == 0 {
        Seq::empty()
    } else {
        concat(ts.drop_last()) + ts.last()
    }
}

/// The lines of a text, each keeping its '\n' (the last may have none), as
/// syntect's `LinesWithEndings` gives them: built character by character, a
/// character opens a new line after a '\n' and extends the open line otherwise.
pub open spec fn lines_with_endings(t: Seq<char>) -> Seq<Seq<char>>
    decreases t.len(),
{
    if t.len() == 0 {
        Seq::empty()
    } else {
        let ls = lines_with_endings(t.drop_last());
        if ls.len() == 0 || ls.last().last() == '\n' {
            ls.push(seq![t.last()])
        } else {
            ls.update(ls.len() - 1, ls.last().push(t.last()))
        }
    }
}

/// The lines of `text`, each with its line ending.
fn split_lines(text: &str) -> (r: Vec<String>)
    ensures
        r@.map_values(|s: String| s@) == lines_with_endings(text@),
{
    let cs = chars_of(text);
    let n = cs.len();
    let mut done: Vec<String> = Vec::new();
    let mut cur: Vec<char> = Vec::new();
    for i in 0..n
        invariant
            n == text@.len(),
            cs@ == text@,
            lines_with_endings(text@.take(i as int)) == done@.map_values(|s: String| s@) + if cur@.len() > 0 {
                seq![cur@]
            } else {
                Seq::empty()
            },
            forall|k: int| 0 <= k < done@.len() ==> (#[trigger] done@[k])@.len() > 0 && done@[k]@.last() == '\n',
            cur@.len() == 0 || cur@.last() != '\n',
    {
        let c = cs[i];
        let ghost t = text@.take(i + 1);
        let ghost dv = done@.map_values(|s: String| s@);
        proof {
            assert(t.drop_last() =~= text@.take(i as int));
            assert(t.last() == c);
        }
        let ghost old_cur = cur@;
        proof {
            if cur@.len() == 0 {
                assert(lines_with_endings(text@.take(i as int)) =~= dv);
                assert(dv.len() == 0 || dv.last().last() == '\n');
                assert(old_cur.push(c) =~= seq![c]);
                assert(lines_with_endings(t) =~= dv.push(old_cur.push(c)));
            } else {
                let ls = lines_with_endings(text@.take(i as int));
                assert(ls =~= dv.push(cur@));
                assert(lines_with_endings(t) =~= dv.push(old_cur.push(c)));
            }
        }
        cur.push(c);
        if c == '\n' {
            let line = string_of(cur.as_slice());
            let ghost before = done@;
            done.push(line);
            cur = Vec::new();
            proof {
                assert(done@.map_values(|s: String| s@) =~= before.map_values(|s: String| s@).push(line@));
                assert(lines_with_endings(t) =~= done@.map_values(|s: String| s@) + Seq::<Seq<char>>::empty());
            }
        } else {
            proof {
                assert(lines_with_endings(t) =~= done@.map_values(|s: String| s@) + seq![cur@]);
            }
        }
    }
    proof {
        assert(text@.take(n as int) =~= text@);
    }
    if cur.len() > 0 {
        let line = string_of(cur.as_slice());
        let ghost before = done@;
        done.push(line);
        assert(done@.map_values(|s: String| s@) =~= before.map_values(|s: String| s@).push(line@));
    } else {
        assert(done@.map_values(|s: String| s@) =~= done@.map_values(|s: String| s@) + Seq::<Seq<char>>::empty());
    }
    done
}

/// Longest line head syntect parses: past it a line is drawn plain, which
/// bounds the cost of syntaxes that backtrack over a whole line.
pub const MAX_HL_LINE: usize = 512;

/// How many characters of a line syntect parses.
pub open spec fn head_len(line: Seq<char>) -> int {
    if line.len() <= MAX_HL_LINE {
        line.len() as int
    } else {
        MAX_HL_LINE as int
    }
}

/// A line cut after its first `MAX_HL_LINE` characters.
fn split_head(line: &str) -> (r: (String, String))
    ensures
        r.0@ == line@.take(head_len(line@)),
        r.1@ == line@.skip(head_len(line@)),
{
    let cs = chars_of(line);
    let n = cs.len();
    let h = if n <= MAX_HL_LINE { n } else { MAX_HL_LINE };
    let mut head: Vec<char> = Vec::new();
    let mut tail: Vec<char> = Vec::new();
    for i in 0..n
        invariant
            n == cs@.len(),
            cs@ == line@,
            h == head_len(line@),
            head@ == line@.take(if i <= h { i as int } else { h as int }),
            tail@ == if i <= h { Seq::<char>::empty() } else { line@.subrange(h as int, i as int) },
    {
        if i < h {
            head.push(cs[i]);
            assert(line@.take(i + 1) =~= line@.take(i as int).push(cs@[i as int]));
        } else {
            tail.push(cs[i]);
            assert(line@.subrange(h as int, i + 1) =~= (if i <= h { Seq::<char>::empty() } else { line@.subrange(h as int, i as int) }).push(cs@[i as int]));
        }
    }
    assert(line@.subrange(h as int, n as int) =~= line@.skip(h as int));
    assert(line@.take(h as int) =~= head@);
    (string_of(head.as_slice()), string_of(tail.as_slice()))
}

/// A piece without its trailing '\n' and '\r' characters.
pub open spec fn trim_newlines(s: Seq<char>) -> Seq<char>
    decreases s.len(),
{
    if s.len() > 0 && (s.last() == '\n' || s.last() == '\r') {
        trim_newlines(s.drop_last())
    } else {
        s
    }
}

fn trim_newlines_of(s: &str) -> (r: String)
    ensures
        r@ == trim_newlines(s@),
{
    let cs = chars_of(s);
    let mut k = cs.len();
    assert(s@.take(k as int) =~= s@);
    while k > 0 && (cs[k - 1] == '\n' || cs[k - 1] == '\r')
        invariant
            cs@ == s@,
            k <= cs@.len(),
            trim_newlines(s@) == trim_newlines(s@.take(k as int)),
        decreases k,
    {
        assert(s@.take(k as int).drop_last() =~= s@.take(k - 1));
        k -= 1;
    }
    let mut out: Vec<char> = Vec::new();
    for i in 0..k
        invariant
            cs@ == s@,
            k <= cs@.len(),
            out@ == s@.take(i as int),
    {
        out.push(cs[i]);
        assert(s@.take(i + 1) =~= s@.take(i as int).push(cs@[i as int]));
    }
    assert(trim_newlines(s@.take(k as int)) == s@.take(k as int));
    string_of(out.as_slice())
}

/// Texts without their line endings, the ones left empty dropped.
pub open spec fn cleaned(ts: Seq<Seq<char>>) -> Seq<Seq<char>>
    decreases ts.len(),
{
    if ts.len() == 0 {
        Seq::empty()
    } else {
        cleaned(ts.drop_last()) + if trim_newlines(ts.last()).len() > 0 {
            seq![trim_newlines(ts.last())]
        } else {
            Seq::empty()
        }
    }
}

/// A colored line as plain values.
pub open spec fn line_view(l: Vec<((u8, u8, u8), String)>) -> Seq<((u8, u8, u8), Seq<char>)> {
    l@.map_values(|p: ((u8, u8, u8), String)| (p.0, p.1@))
}

pub open spec fn piece_texts(l: Seq<((u8, u8, u8), Seq<char>)>) -> Seq<Seq<char>> {
    l.map_values(|p: ((u8, u8, u8), Seq<char>)| p.1)
}

/// `hl` colors `line`: its pieces are syntect's pieces of the line's head
/// (which run from the head's start, none empty) without line endings,
/// followed by the rest of the line, plain, when one is left.
pub open spec fn colors_line(hl: Seq<((u8, u8, u8), Seq<char>)>, line: Seq<char>) -> bool {
    exists|raw: Seq<Seq<char>>|
        #![trigger cleaned(raw)]
        {
            &&& forall|k: int| 0 <= k < raw.len() ==> (#[trigger] raw[k]).len() > 0
            &&& concat(raw).len() <= head_len(line)
            &&& concat(raw) == line.take(concat(raw).len() as int)
            &&& piece_texts(hl) == cleaned(raw) + cleaned(seq![line.skip(head_len(line))])
        }
}

/// Colored pieces without their line endings, the ones left empty dropped.
pub open spec fn cleaned_pieces(ps: Seq<((u8, u8, u8), Seq<char>)>) -> Seq<((u8, u8, u8), Seq<char>)>
    decreases ps.len(),
{
    if ps.len() == 0 {
        Seq::empty()
    } else {
        cleaned_pieces(ps.drop_last()) + if trim_newlines(ps.last().1).len() > 0 {
            seq![(ps.last().0, trim_newlines(ps.last().1))]
        } else {
            Seq::empty()
        }
    }
}

/// One line colored from the parser and style states entering it: the head
/// parsed (scope changes that do not fit it dropped) and styled, its pieces
/// without line endings, the rest of the line plain; and the states after it.
pub open spec fn line_step(ps: ParseState, hs: HighlightState, line: Seq<char>, ss: SyntaxSet, theme: Theme) -> (
    Seq<((u8, u8, u8), Seq<char>)>,
    ParseState,
    HighlightState,
) {
    let head = line.take(head_len(line));
    let tail = line.skip(head_len(line));
    let parsed = parse_of(ps, head, ss);
    let found = match parsed.0 {
        Some(o) => o,
        None => Seq::empty(),
    };
    let ops = if changes_fit(found, head) { found } else { Seq::empty() };
    let styled = style_of(hs, ops, head, theme);
    let t = trim_newlines(tail);
    (cleaned_pieces(styled.0) + if t.len() > 0 { seq![(plain_of(theme), t)] } else { Seq::empty() }, parsed.1, styled.1)
}

/// Colors one line, advancing the parser and style states.
fn highlight_line(ps: &mut ParseState, hs: &mut HighlightState, line: &str, ss: &SyntaxSet, theme: &Theme) -> (r: Vec<((u8, u8, u8), String)>)
    requires
        runs_on(*ss, *old(ps)),
    ensures
        colors_line(line_view(r), line@),
        runs_on(*ss, *final(ps)),
        (line_view(r), *final(ps), *final(hs)) == line_step(*old(ps), *old(hs), line@, *ss, *theme),
{
    let ghost ps0 = *ps;
    let ghost hs0 = *hs;
    let (head, tail) = split_head(line);
    let parsed = match parse_line(ps, &head, ss) {
        Some(v) => v,
        None => Vec::new(),
    };
    // Changes that do not fit the line are not applied: the head is drawn plain.
    let ops = if changes_fit_text(&parsed, &head) {
        parsed
    } else {
        Vec::new()
    };
    let ghost hs_mid = *hs;
    let raw = style_pieces(hs, &ops, &head, theme);
    let ghost rt = texts(raw@);
    let ghost rv = line_view(raw);
    let mut out: Vec<((u8, u8, u8), String)> = Vec::new();
    let n = raw.len();
    for k in 0..n
        invariant
            n == raw@.len(),
            rt == texts(raw@),
            rv == line_view(raw),
            piece_texts(line_view(out)) == cleaned(rt.take(k as int)),
            line_view(out) == cleaned_pieces(rv.take(k as int)),
    {
        let t = trim_newlines_of(&raw[k].1);
        proof {
            assert(rt.take(k + 1).drop_last() =~= rt.take(k as int));
            assert(rt.take(k + 1).last() == raw@[k as int].1@);
            assert(rv.take(k + 1).drop_last() =~= rv.take(k as int));
            assert(rv.take(k + 1).last() == (raw@[k as int].0, raw@[k as int].1@));
        }
        if !t.as_str().is_empty() {
            let ghost before = out;
            out.push((raw[k].0, t));
            assert(piece_texts(line_view(out)) =~= piece_texts(line_view(before)).push(t@));
            assert(line_view(out) =~= line_view(before).push((raw@[k as int].0, t@)));
        } else {
            assert(cleaned_pieces(rv.take(k + 1)) =~= cleaned_pieces(rv.take(k as int)));
        }
    }
    let t = trim_newlines_of(&tail);
    let ghost body = out;
    proof {
        assert(rv.take(n as int) =~= rv);
    }
    if !t.as_str().is_empty() {
        let c = plain_color(theme);
        out.push((c, t));
        assert(piece_texts(line_view(out)) =~= piece_texts(line_view(body)).push(t@));
        assert(line_view(out) =~= line_view(body) + seq![(c, t@)]);
    } else {
        assert(line_view(out) =~= line_view(body) + Seq::<((u8, u8, u8), Seq<char>)>::empty());
    }
    proof {
        let tl = line@.skip(head_len(line@));
        assert(rt.take(n as int) =~= rt);
        assert(seq![tl].drop_last() =~= Seq::<Seq<char>>::empty());
        assert(seq![tl].last() == tl);
        assert(cleaned(Seq::<Seq<char>>::empty()) == Seq::<Seq<char>>::empty());
        assert(piece_texts(line_view(out)) =~= cleaned(rt) + cleaned(seq![tl]));
        assert forall|k: int| 0 <= k < rt.len() implies (#[trigger] rt[k]).len() > 0 by {
            assert(rt[k] == raw@[k].1@);
        }
        assert(head@ == line@.take(head_len(line@)));
        assert(concat(rt) =~= line@.take(concat(rt).len() as int));
    }
    out
}

/// The syntaxes and themes highlighting draws on.
pub struct HlSets {
    pub syntaxes: SyntaxSet,
    pub themes: ThemeSet,
}

impl HlSets {
    /// syntect's bundled syntaxes (for lines that keep their endings) with the
    /// shipped TOML syntax added, and syntect's bundled themes with the shipped
    /// color schemes added under their names (each one syntect can read).
    pub fn load() -> (r: HlSets)
        ensures
            bundled_theme_names().subset_of(theme_set_names(r.themes)),
            forall|i: int|
                0 <= i < shipped_theme_names().len() && theme_reads(#[trigger] shipped_theme_texts()[i])
                    ==> theme_set_names(r.themes).contains(shipped_theme_names()[i]),
            forall|n: Seq<char>| #[trigger] theme_set_names(r.themes).contains(n) ==> bundled_theme_names().contains(n)
                || shipped_theme_names().contains(n),
    {
        let none: Vec<(String, String)> = Vec::new();
        HlSets::load_with(&none, &Vec::new())
    }

    /// The sets `load` gives, with the given themes and syntaxes added: each
    /// `(name, .tmTheme text)` that syntect can read is put in under its name,
    /// a later one replacing an earlier one or a shipped or bundled one; each
    /// `.sublime-syntax` text that syntect can read is added after the shipped
    /// syntaxes.
    pub fn load_with(themes: &Vec<(String, String)>, syntaxes: &Vec<String>) -> (r: HlSets)
        ensures
            bundled_theme_names().subset_of(theme_set_names(r.themes)),
            forall|i: int|
                0 <= i < shipped_theme_names().len() && theme_reads(#[trigger] shipped_theme_texts()[i])
                    ==> theme_set_names(r.themes).contains(shipped_theme_names()[i]),
            forall|n: Seq<char>| #[trigger] theme_set_names(r.themes).contains(n) ==> bundled_theme_names().contains(n)
                || shipped_theme_names().contains(n) || exists|i: int| 0 <= i < themes@.len() && (#[trigger] themes@[i]).0@ == n,
    {
        let mut ts = bundled_themes();
        let shipped = shipped_themes();
        let k = shipped.len();
        for i in 0..k
            invariant
                k == shipped@.len(),
                k == shipped_theme_names().len(),
                forall|j: int| 0 <= j < k ==> (#[trigger] shipped@[j]).0@ == shipped_theme_names()[j],
                forall|j: int| 0 <= j < k ==> (#[trigger] shipped@[j]).1@ == shipped_theme_texts()[j],
                forall|j: int|
                    0 <= j < i && theme_reads(#[trigger] shipped_theme_texts()[j]) ==> theme_set_names(ts).contains(
                        shipped_theme_names()[j],
                    ),
                bundled_theme_names().subset_of(theme_set_names(ts)),
                forall|n: Seq<char>| #[trigger] theme_set_names(ts).contains(n) ==> bundled_theme_names().contains(n)
                    || shipped_theme_names().contains(n),
        {
            let (name, text) = shipped[i];
            match theme_from_text(text) {
                Some(t) => {
                    add_theme(&mut ts, crate::text::copy_str(name), t);
                    assert(shipped@[i as int].0@ == shipped_theme_names()[i as int]);
                },
                None => {
                    assert(shipped@[i as int].1@ == shipped_theme_texts()[i as int]);
                },
            }
        }
        let k = themes.len();
        for i in 0..k
            invariant
                k == themes@.len(),
                forall|j: int|
                    0 <= j < shipped_theme_names().len() && theme_reads(#[trigger] shipped_theme_texts()[j])
                        ==> theme_set_names(ts).contains(shipped_theme_names()[j]),
                bundled_theme_names().subset_of(theme_set_names(ts)),
                forall|n: Seq<char>| #[trigger] theme_set_names(ts).contains(n) ==> bundled_theme_names().contains(n)
                    || shipped_theme_names().contains(n) || exists|j: int| 0 <= j < i && (#[trigger] themes@[j]).0@ == n,
        {
            match theme_from_text(themes[i].1.as_str()) {
                Some(t) => {
                    add_theme(&mut ts, crate::text::copy_str(themes[i].0.as_str()), t);
                    assert(themes@[i as int].0@ == themes@[i as int].0@);
                },
                None => {},
            }
        }
        let mut builder = syntax_builder(bundled_syntaxes());
        match syntax_from_text(TOML_SYNTAX) {
            Some(d) => add_syntax(&mut builder, d),
            None => {},
        }
        for i in 0..syntaxes.len() {
            match syntax_from_text(syntaxes[i].as_str()) {
                Some(d) => add_syntax(&mut builder, d),
                None => {},
            }
        }
        HlSets { syntaxes: build_syntaxes(builder), themes: ts }
    }

    /// The names of the loaded themes, each once, in ascending order.
    pub fn theme_names(&self) -> (r: Vec<String>)
        ensures
            forall|i: int, j: int| 0 <= i < j < r@.len() ==> lex_lt(#[trigger] r@[i]@, #[trigger] r@[j]@),
            forall|s: Seq<char>|
                theme_set_names(self.themes).contains(s) <==> exists|i: int| 0 <= i < r@.len() && #[trigger] r@[i]@ == s,
    {
        theme_keys(&self.themes)
    }
}

/// The syntax theme the editor starts with.
pub open spec fn default_theme() -> Seq<char> {
    "base16-eighties.dark"@
}

fn default_theme_name() -> (r: String)
    ensures
        r@ == default_theme(),
{
    String::from_str("base16-eighties.dark")
}

/// The syntax of files that no syntax claims.
fn plain_text_name() -> (r: String)
    ensures
        r@ == "Plain Text"@,
{
    String::from_str("Plain Text")
}

/// A cached line: its colored pieces, and the parser and style states after it.
struct CachedLine {
    colored: Vec<((u8, u8, u8), String)>,
    state: (ParseState, HighlightState),
}

/// The colored lines of a cache.
pub closed spec fn colored_lines(es: Seq<CachedLine>) -> Seq<Seq<((u8, u8, u8), Seq<char>)>> {
    es.map_values(|e: CachedLine| line_view(e.colored))
}

/// A copy of a colored line.
fn copy_line(l: &Vec<((u8, u8, u8), String)>) -> (r: Vec<((u8, u8, u8), String)>)
    ensures
        line_view(r) == line_view(*l),
{
    let mut out: Vec<((u8, u8, u8), String)> = Vec::new();
    let n = l.len();
    for k in 0..n
        invariant
            n == l@.len(),
            line_view(out) == line_view(*l).take(k as int),
    {
        let ghost prev = out;
        out.push((l[k].0, crate::text::copy_str(&l[k].1)));
        assert(line_view(out) =~= line_view(prev).push((l@[k as int].0, l@[k as int].1@)));
        assert(line_view(*l).take(k + 1) =~= line_view(*l).take(k as int).push(line_view(*l)[k as int]));
        assert(line_view(out) =~= line_view(*l).take(k + 1));
    }
    assert(line_view(*l).take(n as int) =~= line_view(*l));
    out
}

/// The syntax syntect gives a token (a file name): the one claiming it as an
/// extension, else the last named after it, ignoring ASCII case.
pub open spec fn token_syntax(es: Seq<(Seq<char>, Seq<Seq<char>>)>, token: Seq<char>) -> Option<Seq<char>> {
    match name_where(es, claims_extension(token)) {
        Some(n) => Some(n),
        None => name_where(es, named_ci(token)),
    }
}

/// The syntax a file gets: the one claiming its extension, else the one its
/// file name gives as a token, else plain text.
pub open spec fn chosen_syntax(es: Seq<(Seq<char>, Seq<Seq<char>>)>, path: Option<Seq<char>>) -> Seq<char> {
    let by_ext = match path {
        Some(p) => match extension_of(p) {
            Some(e) => name_where(es, claims_extension(e)),
            None => None,
        },
        None => None,
    };
    match by_ext {
        Some(n) => n,
        None => match path {
            Some(p) => match file_name_of(p) {
                Some(f) => match token_syntax(es, f) {
                    Some(n) => n,
                    None => "Plain Text"@,
                },
                None => "Plain Text"@,
            },
            None => "Plain Text"@,
        },
    }
}

/// A file whose extension some syntax claims gets the last such syntax.
pub proof fn law_syntax_by_extension(es: Seq<(Seq<char>, Seq<Seq<char>>)>, p: Seq<char>, e: Seq<char>, n: Seq<char>)
    requires
        extension_of(p) == Some(e),
        name_where(es, claims_extension(e)) == Some(n),
    ensures
        chosen_syntax(es, Some(p)) == n,
{
}

/// A file whose extension no syntax claims (or that has none) gets the syntax
/// its file name gives as a token: the last one claiming the file name as an
/// extension, else the last one named like it ignoring ASCII case. So a
/// `Makefile` gets the syntax named "Makefile".
pub proof fn law_syntax_by_file_name(es: Seq<(Seq<char>, Seq<Seq<char>>)>, p: Seq<char>, f: Seq<char>, n: Seq<char>)
    requires
        extension_of(p) is None || name_where(es, claims_extension(extension_of(p)->0)) is None,
        file_name_of(p) == Some(f),
        name_where(es, claims_extension(f)) == Some(n) || (name_where(es, claims_extension(f)) is None && name_where(
            es,
            named_ci(f),
        ) == Some(n)),
    ensures
        chosen_syntax(es, Some(p)) == n,
{
}

/// A file that neither its extension nor its file name gives a syntax, and a
/// buffer without a path, is plain text.
pub proof fn law_syntax_plain(es: Seq<(Seq<char>, Seq<Seq<char>>)>, p: Seq<char>)
    requires
        extension_of(p) is None || name_where(es, claims_extension(extension_of(p)->0)) is None,
        file_name_of(p) matches Some(f) ==> name_where(es, claims_extension(f)) is None && name_where(es, named_ci(f)) is None,
    ensures
        chosen_syntax(es, Some(p)) == "Plain Text"@,
        chosen_syntax(es, None) == "Plain Text"@,
{
}

/// Whether a highlighter can color: its syntax or plain text is in the set,
/// and its theme or the default theme is.
pub open spec fn can_color(
    es: Seq<(Seq<char>, Seq<Seq<char>>)>,
    themes: Set<Seq<char>>,
    syntax: Seq<char>,
    theme: Seq<char>,
) -> bool {
    &&& name_where(es, named(syntax)) is Some || name_where(es, named("Plain Text"@)) is Some
    &&& themes.contains(theme) || themes.contains(default_theme())
}

/// The syntax and theme a set gives for a syntax name and a theme name: the
/// named ones, else plain text and the default theme; `None` when either is
/// missing.
pub open spec fn picked(ss: SyntaxSet, ts: ThemeSet, syntax: Seq<char>, theme: Seq<char>) -> Option<(SyntaxReference, Theme)> {
    let syn = match syntax_ref_named(ss, syntax) {
        Some(s) => Some(s),
        None => syntax_ref_named(ss, "Plain Text"@),
    };
    let th = match theme_ref_named(ts, theme) {
        Some(t) => Some(t),
        None => theme_ref_named(ts, default_theme()),
    };
    match (syn, th) {
        (Some(s), Some(t)) => Some((s, t)),
        _ => None,
    }
}

/// The syntax and theme to color with: the named ones, else plain text and
/// the default theme.
fn pick<'a>(sets: &'a HlSets, syntax_name: &str, theme_name: &str) -> (r: Option<(&'a SyntaxReference, &'a Theme)>)
    ensures
        r is Some <==> can_color(syntax_set_entries(sets.syntaxes), theme_set_names(sets.themes), syntax_name@, theme_name@),
        r matches Some((s, t)) ==> syntax_in(sets.syntaxes, *s) && picked(sets.syntaxes, sets.themes, syntax_name@, theme_name@)
            == Some((*s, *t)),
        r is None ==> picked(sets.syntaxes, sets.themes, syntax_name@, theme_name@) is None,
{
    let ss = &sets.syntaxes;
    let plain = plain_text_name();
    let syntax = match syntax_named(ss, syntax_name) {
        Some(s) => s,
        None => match syntax_named(ss, &plain) {
            Some(s) => s,
            None => return None,
        },
    };
    let fallback = default_theme_name();
    let theme = match theme_named(&sets.themes, theme_name) {
        Some(t) => t,
        None => match theme_named(&sets.themes, &fallback) {
            Some(t) => t,
            None => return None,
        },
    };
    Some((syntax, theme))
}

/// The texts of a list of strings.
pub open spec fn views(ls: Seq<String>) -> Seq<Seq<char>> {
    ls.map_values(|s: String| s@)
}

/// The parser and style states after the first `k` lines of `ls`, colored
/// from the top of the text in syntax `syn` with theme `th`.
pub open spec fn states_after(ss: SyntaxSet, syn: SyntaxReference, th: Theme, ls: Seq<Seq<char>>, k: nat) -> (
    ParseState,
    HighlightState,
)
    decreases k,
{
    if k == 0 {
        (parse_start_of(syn), style_start_of(th))
    } else {
        let prev = states_after(ss, syn, th, ls, (k - 1) as nat);
        let step = line_step(prev.0, prev.1, ls[k - 1], ss, th);
        (step.1, step.2)
    }
}

/// Line `k` of `ls` as coloring from the top of the text colors it.
pub open spec fn fresh_line(ss: SyntaxSet, syn: SyntaxReference, th: Theme, ls: Seq<Seq<char>>, k: nat) -> Seq<
    ((u8, u8, u8), Seq<char>),
> {
    let st = states_after(ss, syn, th, ls, k);
    line_step(st.0, st.1, ls[k as int], ss, th).0
}

/// Line `k` of `ls` colored from the top of the text with the syntax and
/// theme that `picked` gives (nothing when it gives none).
pub open spec fn fresh_colored(ss: SyntaxSet, ts: ThemeSet, syntax: Seq<char>, theme: Seq<char>, ls: Seq<Seq<char>>, k: int) -> Seq<
    ((u8, u8, u8), Seq<char>),
> {
    match picked(ss, ts, syntax, theme) {
        Some((syn, th)) => fresh_line(ss, syn, th, ls, k as nat),
        None => Seq::empty(),
    }
}

/// Coloring from the top depends on the lines only: where two texts reach
/// line `i` in the same states and agree on lines `i..k`, they reach line `k`
/// in the same states.
proof fn lemma_states_agree(ss: SyntaxSet, syn: SyntaxReference, th: Theme, a: Seq<Seq<char>>, b: Seq<Seq<char>>, i: nat, k: nat)
    requires
        i <= k,
        states_after(ss, syn, th, a, i) == states_after(ss, syn, th, b, i),
        forall|j: int| i <= j < k ==> a[j] == b[j],
    ensures
        states_after(ss, syn, th, a, k) == states_after(ss, syn, th, b, k),
    decreases k,
{
    if k > i {
        lemma_states_agree(ss, syn, th, a, b, i, (k - 1) as nat);
    }
}

/// A cached line is line `k` of `ls` colored from the top: its pieces, and the
/// states after it (the parser's running on the set).
spec fn valid_entry(e: CachedLine, ss: SyntaxSet, syn: SyntaxReference, th: Theme, ls: Seq<Seq<char>>, k: int) -> bool {
    &&& line_view(e.colored) == fresh_line(ss, syn, th, ls, k as nat)
    &&& colors_line(line_view(e.colored), ls[k])
    &&& e.state == states_after(ss, syn, th, ls, (k + 1) as nat)
    &&& runs_on(ss, e.state.0)
}

/// A cache holds the first lines of `ls`, each colored from the top.
spec fn cache_fresh(es: Seq<CachedLine>, ss: SyntaxSet, syn: SyntaxReference, th: Theme, ls: Seq<Seq<char>>) -> bool {
    &&& es.len() <= ls.len()
    &&& forall|k: int| 0 <= k < es.len() ==> #[trigger] valid_entry(es[k], ss, syn, th, ls, k)
}

/// The cached lines before the first line where two texts differ stay valid
/// for the second text.
proof fn lemma_prefix_stays(es: Seq<CachedLine>, ss: SyntaxSet, syn: SyntaxReference, th: Theme, a: Seq<Seq<char>>, b: Seq<Seq<char>>, keep: int)
    requires
        cache_fresh(es, ss, syn, th, a),
        0 <= keep <= es.len(),
        keep <= b.len(),
        forall|j: int| 0 <= j < keep ==> a[j] == b[j],
    ensures
        cache_fresh(es.take(keep), ss, syn, th, b),
{
    assert forall|k: int| 0 <= k < keep implies #[trigger] valid_entry(es.take(keep)[k], ss, syn, th, b, k) by {
        assert(valid_entry(es[k], ss, syn, th, a, k));
        lemma_states_agree(ss, syn, th, a, b, 0, k as nat);
        lemma_states_agree(ss, syn, th, a, b, 0, (k + 1) as nat);
    }
}

/// How many lines two texts share from the top.
fn common_prefix(a: &Vec<String>, b: &Vec<String>) -> (r: usize)
    ensures
        r <= a@.len(),
        r <= b@.len(),
        forall|j: int| 0 <= j < r ==> a@[j]@ == b@[j]@,
        r < a@.len() && r < b@.len() ==> a@[r as int]@ != b@[r as int]@,
{
    let n = if a.len() <= b.len() { a.len() } else { b.len() };
    let mut i: usize = 0;
    while i < n
        invariant
            n <= a@.len(),
            n <= b@.len(),
            n == a@.len() || n == b@.len(),
            i <= n,
            forall|j: int| 0 <= j < i ==> a@[j]@ == b@[j]@,
        decreases n - i,
    {
        if !crate::text::str_eq(&a[i], &b[i]) {
            return i;
        }
        i += 1;
    }
    i
}

/// Whether two texts have the same number of lines and differ at most in
/// line `d`.
fn agree_except(a: &Vec<String>, b: &Vec<String>, d: usize) -> (r: bool)
    ensures
        r == (a@.len() == b@.len() && forall|j: int| 0 <= j < a@.len() && j != d ==> a@[j]@ == b@[j]@),
{
    if a.len() != b.len() {
        return false;
    }
    let n = a.len();
    for i in 0..n
        invariant
            n == a@.len(),
            n == b@.len(),
            forall|j: int| 0 <= j < i && j != d ==> a@[j]@ == b@[j]@,
    {
        if i != d && !crate::text::str_eq(&a[i], &b[i]) {
            return false;
        }
    }
    true
}

/// The larger of two integers.
pub open spec fn max_int(a: int, b: int) -> int {
    if a >= b { a } else { b }
}

/// The smaller of two integers.
pub open spec fn min_int(a: int, b: int) -> int {
    if a <= b { a } else { b }
}

/// Incremental highlighting of one file: the syntaxes and themes it draws
/// on, the lines of the text last highlighted, and the colored lines computed
/// so far (a prefix of that text) with the states after each.
pub struct Highlighter {
    sets: HlSets,
    syntax_name: String,
    theme_name: String,
    cached_version: Option<u64>,
    lines: Vec<String>,
    entries: Vec<CachedLine>,
}

impl Highlighter {
    /// Each cached line is the line of the last text colored from the top with
    /// the highlighter's syntax and theme; nothing is cached when they are
    /// missing.
    #[verifier::type_invariant]
    spec fn cache_is_fresh(self) -> bool {
        match picked(self.sets.syntaxes, self.sets.themes, self.syntax_name@, self.theme_name@) {
            Some((syn, th)) => cache_fresh(self.entries@, self.sets.syntaxes, syn, th, views(self.lines@)),
            None => self.entries@.len() == 0,
        }
    }

    /// The colored lines computed so far, from the top of the file.
    pub closed spec fn cache(&self) -> Seq<Seq<((u8, u8, u8), Seq<char>)>> {
        colored_lines(self.entries@)
    }

    /// The buffer version the cache was computed for.
    pub closed spec fn version(&self) -> Option<u64> {
        self.cached_version
    }

    /// The name of the syntax theme.
    pub closed spec fn theme(&self) -> Seq<char> {
        self.theme_name@
    }

    /// The name of the file's syntax.
    pub closed spec fn syntax(&self) -> Seq<char> {
        self.syntax_name@
    }

    /// The syntaxes the highlighter draws on.
    pub closed spec fn syntaxes(&self) -> Seq<(Seq<char>, Seq<Seq<char>>)> {
        syntax_set_entries(self.sets.syntaxes)
    }

    /// The names of the themes the highlighter draws on.
    pub closed spec fn themes(&self) -> Set<Seq<char>> {
        theme_set_names(self.sets.themes)
    }

    /// The syntax set the highlighter draws on.
    pub closed spec fn syntax_set(&self) -> SyntaxSet {
        self.sets.syntaxes
    }

    /// The theme set the highlighter draws on.
    pub closed spec fn theme_set(&self) -> ThemeSet {
        self.sets.themes
    }

    /// The name of the file's syntax.
    pub fn syntax_name(&self) -> (r: &str)
        ensures
            r@ == self.syntax(),
    {
        self.syntax_name.as_str()
    }

    /// A highlighter for a file, drawing on `sets`: the syntax claiming its
    /// extension, else the one its file name gives, else plain text; the
    /// default theme; nothing cached.
    pub fn for_path(sets: HlSets, path: Option<&str>) -> (h: Highlighter)
        ensures
            h.syntax() == chosen_syntax(syntax_set_entries(sets.syntaxes), match path {
                Some(p) => Some(p@),
                None => None,
            }),
            h.syntaxes() == syntax_set_entries(sets.syntaxes),
            h.themes() == theme_set_names(sets.themes),
            h.syntax_set() == sets.syntaxes,
            h.theme_set() == sets.themes,
            h.cache().len() == 0,
            h.version() is None,
            h.theme() == default_theme(),
    {
        let by_ext = match path {
            Some(p) => match extension(p) {
                Some(e) => syntax_for_extension(&sets.syntaxes, &e),
                None => None,
            },
            None => None,
        };
        let found = match by_ext {
            Some(n) => Some(n),
            None => match path {
                Some(p) => match file_name(p) {
                    Some(f) => syntax_for_token(&sets.syntaxes, &f),
                    None => None,
                },
                None => None,
            },
        };
        let syntax_name = match found {
            Some(n) => n,
            None => plain_text_name(),
        };
        let h = Highlighter {
            sets,
            syntax_name,
            theme_name: default_theme_name(),
            cached_version: None,
            lines: Vec::new(),
            entries: Vec::new(),
        };
        assert(h.cache() =~= Seq::<Seq<((u8, u8, u8), Seq<char>)>>::empty());
        h
    }

    /// Changes the theme; a new theme drops the cache.
    pub fn set_theme(&mut self, name: &str)
        ensures
            final(self).theme() == name@,
            final(self).syntax() == old(self).syntax(),
            final(self).syntaxes() == old(self).syntaxes(),
            final(self).themes() == old(self).themes(),
            final(self).syntax_set() == old(self).syntax_set(),
            final(self).theme_set() == old(self).theme_set(),
            old(self).theme() == name@ ==> final(self).cache() == old(self).cache() && final(self).version()
                == old(self).version(),
            old(self).theme() != name@ ==> final(self).cache().len() == 0 && final(self).version() is None,
    {
        proof {
            use_type_invariant(&*self);
        }
        if !crate::text::str_eq(&self.theme_name, name) {
            self.invalidate();
            self.theme_name = crate::text::copy_str(name);
        }
    }

    /// Drops the cache, so the next highlight starts over (the text was
    /// replaced without a new version).
    pub fn invalidate(&mut self)
        ensures
            final(self).cache().len() == 0,
            final(self).version() is None,
            final(self).theme() == old(self).theme(),
            final(self).syntax() == old(self).syntax(),
            final(self).syntaxes() == old(self).syntaxes(),
            final(self).themes() == old(self).themes(),
            final(self).syntax_set() == old(self).syntax_set(),
            final(self).theme_set() == old(self).theme_set(),
    {
        proof {
            use_type_invariant(&*self);
        }
        self.cached_version = None;
        self.entries = Vec::new();
        assert(self.cache() =~= Seq::<Seq<((u8, u8, u8), Seq<char>)>>::empty());
    }

    /// The colored lines computed so far, from line `base` on (none when the
    /// cache is shorter).
    pub fn cached_from(&self, base: usize) -> (r: Vec<Vec<((u8, u8, u8), String)>>)
        ensures
            r@.map_values(|l: Vec<((u8, u8, u8), String)>| line_view(l)) == self.cache().skip(
                if base <= self.cache().len() { base as int } else { self.cache().len() as int },
            ),
    {
        let n = self.entries.len();
        let b = if base <= n { base } else { n };
        let mut out: Vec<Vec<((u8, u8, u8), String)>> = Vec::new();
        for k in b..n
            invariant
                n == self.entries@.len(),
                b <= n,
                out@.map_values(|l: Vec<((u8, u8, u8), String)>| line_view(l)) == self.cache().subrange(b as int, k as int),
        {
            let line = copy_line(&self.entries[k].colored);
            let ghost before = out@;
            out.push(line);
            assert(self.cache()[k as int] == line_view(self.entries@[k as int].colored));
            assert(out@.map_values(|l: Vec<((u8, u8, u8), String)>| line_view(l)) =~= before.map_values(
                |l: Vec<((u8, u8, u8), String)>| line_view(l),
            ).push(line_view(line)));
            assert(self.cache().subrange(b as int, k + 1) =~= self.cache().subrange(b as int, k as int).push(self.cache()[k as int]));
            assert(out@.map_values(|l: Vec<((u8, u8, u8), String)>| line_view(l)) =~= self.cache().subrange(b as int, k + 1));
        }
        assert(self.cache().subrange(b as int, n as int) =~= self.cache().skip(b as int));
        out
    }

    /// The parser and style states entering line `line`: those cached after
    /// the line before, or fresh ones at the top of the file.
    fn resume_state(
        entries: &Vec<CachedLine>,
        ss: &SyntaxSet,
        syntax: &SyntaxReference,
        theme: &Theme,
        Ghost(ls): Ghost<Seq<Seq<char>>>,
        line: usize,
    ) -> (r: (ParseState, HighlightState))
        requires
            syntax_in(*ss, *syntax),
            line <= entries@.len(),
            forall|k: int| 0 <= k < line ==> #[trigger] valid_entry(entries@[k], *ss, *syntax, *theme, ls, k),
        ensures
            r == states_after(*ss, *syntax, *theme, ls, line as nat),
            runs_on(*ss, r.0),
    {
        if line >= 1 {
            assert(valid_entry(entries@[line - 1], *ss, *syntax, *theme, ls, line - 1));
            copy_state(&entries[line - 1].state)
        } else {
            (parse_start(syntax), style_start(theme))
        }
    }

    /// Colors line `idx` of the text from the states entering it; gives the
    /// cached line, valid for the text.
    fn color_line(
        st: &mut (ParseState, HighlightState),
        ss: &SyntaxSet,
        syntax: &SyntaxReference,
        theme: &Theme,
        lines: &Vec<String>,
        idx: usize,
    ) -> (e: CachedLine)
        requires
            idx < lines@.len(),
            *old(st) == states_after(*ss, *syntax, *theme, views(lines@), idx as nat),
            runs_on(*ss, old(st).0),
        ensures
            valid_entry(e, *ss, *syntax, *theme, views(lines@), idx as int),
            *final(st) == e.state,
    {
        let ghost ls = views(lines@);
        let ghost before = *st;
        let hl = highlight_line(&mut st.0, &mut st.1, &lines[idx], ss, theme);
        proof {
            assert(ls[idx as int] == lines@[idx as int]@);
            assert(states_after(*ss, *syntax, *theme, ls, (idx + 1) as nat) == (
                line_step(before.0, before.1, ls[idx as int], *ss, *theme).1,
                line_step(before.0, before.1, ls[idx as int], *ss, *theme).2,
            ));
        }
        CachedLine { colored: hl, state: copy_state(st) }
    }

    /// Re-highlights from line `from` after an edit within that line (the
    /// text keeps its line count and its other lines): each line is recolored
    /// until its end states match the cached ones (every line below then
    /// colors as before), or until the window is passed, when the rest is
    /// dropped to be computed again on demand.
    fn rehighlight(
        entries: &mut Vec<CachedLine>,
        ss: &SyntaxSet,
        syntax: &SyntaxReference,
        theme: &Theme,
        Ghost(old_ls): Ghost<Seq<Seq<char>>>,
        lines: &Vec<String>,
        from: usize,
        needed: usize,
    )
        requires
            syntax_in(*ss, *syntax),
            from < old(entries)@.len(),
            cache_fresh(old(entries)@, *ss, *syntax, *theme, old_ls),
            old_ls.len() == lines@.len(),
            forall|j: int| 0 <= j < old_ls.len() && j != from ==> old_ls[j] == lines@[j]@,
        ensures
            cache_fresh(final(entries)@, *ss, *syntax, *theme, views(lines@)),
            final(entries)@.len() >= min_int(needed as int, lines@.len() as int) || final(entries)@.len() == old(
                entries,
            )@.len(),
            final(entries)@.len() <= max_int(old(entries)@.len() as int, min_int(needed as int, lines@.len() as int)),
    {
        let ghost ls = views(lines@);
        let ghost es0 = entries@;
        let olen = entries.len();
        proof {
            assert forall|j: int| 0 <= j < from implies old_ls[j] == ls[j] by {
                assert(ls[j] == lines@[j]@);
            }
            assert forall|k: int| 0 <= k < from implies #[trigger] valid_entry(entries@[k], *ss, *syntax, *theme, ls, k) by {
                assert(valid_entry(es0[k], *ss, *syntax, *theme, old_ls, k));
                lemma_states_agree(*ss, *syntax, *theme, old_ls, ls, 0, k as nat);
                lemma_states_agree(*ss, *syntax, *theme, old_ls, ls, 0, (k + 1) as nat);
            }
        }
        let mut st = Self::resume_state(entries, ss, syntax, theme, Ghost(ls), from);
        let mut idx = from;
        let nl = lines.len();
        while idx < nl
            invariant
                ls == views(lines@),
                nl == ls.len(),
                old_ls.len() == nl,
                forall|j: int| 0 <= j < nl && j != from ==> old_ls[j] == #[trigger] ls[j],
                olen == es0.len(),
                olen == old(entries)@.len(),
                olen <= nl,
                idx <= nl,
                from < olen,
                from <= idx,
                idx > olen ==> idx <= needed && idx <= nl,
                entries@.len() == if idx <= olen { olen as int } else { idx as int },
                forall|k: int| 0 <= k < idx ==> #[trigger] valid_entry(entries@[k], *ss, *syntax, *theme, ls, k),
                forall|k: int| idx <= k < entries@.len() ==> #[trigger] valid_entry(entries@[k], *ss, *syntax, *theme, old_ls, k),
                st == states_after(*ss, *syntax, *theme, ls, idx as nat),
                runs_on(*ss, st.0),
                syntax_in(*ss, *syntax),
            ensures
                idx >= nl || idx >= olen,
                entries@.len() == if idx <= olen { olen as int } else { idx as int },
                forall|k: int| 0 <= k < idx ==> #[trigger] valid_entry(entries@[k], *ss, *syntax, *theme, ls, k),
                idx > olen ==> idx <= needed && idx <= nl,
                idx >= nl || (idx >= needed && idx == entries@.len()),
            decreases nl - idx,
        {
            if idx >= entries.len() && idx >= needed {
                break;
            }
            let e = Self::color_line(&mut st, ss, syntax, theme, lines, idx);
            if idx < entries.len() {
                let converged = same_state(&e.state, &entries[idx].state);
                proof {
                    assert(valid_entry(entries@[idx as int], *ss, *syntax, *theme, old_ls, idx as int));
                }
                let ghost prev = entries@;
                entries.set(idx, e);
                idx += 1;
                if converged {
                    proof {
                        assert forall|k: int| 0 <= k < entries@.len() implies #[trigger] valid_entry(
                            entries@[k],
                            *ss,
                            *syntax,
                            *theme,
                            ls,
                            k,
                        ) by {
                            if k >= idx {
                                assert(entries@[k] == prev[k]);
                                assert(valid_entry(prev[k], *ss, *syntax, *theme, old_ls, k));
                                lemma_states_agree(*ss, *syntax, *theme, old_ls, ls, idx as nat, k as nat);
                                lemma_states_agree(*ss, *syntax, *theme, old_ls, ls, idx as nat, (k + 1) as nat);
                            } else if k < idx - 1 {
                                assert(entries@[k] == prev[k]);
                            }
                        }
                    }
                    return;
                }
                if idx >= needed {
                    entries.truncate(idx);
                    proof {
                        assert forall|k: int| 0 <= k < entries@.len() implies #[trigger] valid_entry(
                            entries@[k],
                            *ss,
                            *syntax,
                            *theme,
                            ls,
                            k,
                        ) by {
                            if k < idx - 1 {
                                assert(entries@[k] == prev[k]);
                            }
                        }
                    }
                    return;
                }
                proof {
                    assert forall|k: int| 0 <= k < entries@.len() && k != idx - 1 implies entries@[k] == prev[k] by {}
                }
            } else {
                entries.push(e);
                idx += 1;
            }
        }
    }

    /// Extends the cache down to `needed` lines (or the end of the text).
    fn extend(
        entries: &mut Vec<CachedLine>,
        ss: &SyntaxSet,
        syntax: &SyntaxReference,
        theme: &Theme,
        lines: &Vec<String>,
        needed: usize,
    )
        requires
            syntax_in(*ss, *syntax),
            cache_fresh(old(entries)@, *ss, *syntax, *theme, views(lines@)),
        ensures
            cache_fresh(final(entries)@, *ss, *syntax, *theme, views(lines@)),
            final(entries)@.len() == max_int(old(entries)@.len() as int, min_int(needed as int, lines@.len() as int)),
    {
        let ghost ls = views(lines@);
        let start = entries.len();
        if start >= needed {
            return;
        }
        let mut st = Self::resume_state(entries, ss, syntax, theme, Ghost(ls), start);
        let nl = lines.len();
        let mut k = start;
        while k < nl && k < needed
            invariant
                ls == views(lines@),
                nl == ls.len(),
                start <= k,
                start <= nl,
                start < needed,
                k == entries@.len(),
                k <= nl,
                k <= needed,
                forall|j: int| 0 <= j < k ==> #[trigger] valid_entry(entries@[j], *ss, *syntax, *theme, ls, j),
                st == states_after(*ss, *syntax, *theme, ls, k as nat),
                runs_on(*ss, st.0),
                syntax_in(*ss, *syntax),
            decreases nl - k,
        {
            let e = Self::color_line(&mut st, ss, syntax, theme, lines, k);
            entries.push(e);
            k += 1;
        }
    }

    /// Highlights `text` (buffer version `version`) down to `needed` lines
    /// from the top, reusing what is cached: an edit across lines (`wide`)
    /// drops the cache from line `dirty_from` down; an edit within line
    /// `dirty_from` recolors from there until the parser converges with the
    /// cache; otherwise the cache is extended. Where the text does not match
    /// what the call says of the edit (lines before `dirty_from` changed, or a
    /// narrow edit that changed the line count or another line), the cache is
    /// cut back to the lines the two texts share from the top. Either way each
    /// cached line is the line colored from the top of the text. `false`
    /// exactly when neither the file's syntax nor plain text, or neither its
    /// theme nor the default theme, is loaded: then nothing is colored.
    pub fn highlight(&mut self, text: &str, version: u64, dirty_from: usize, wide: bool, needed: usize) -> (done: bool)
        ensures
            done == can_color(old(self).syntaxes(), old(self).themes(), old(self).syntax(), old(self).theme()),
            final(self).version() == Some(version),
            final(self).theme() == old(self).theme(),
            final(self).syntax() == old(self).syntax(),
            final(self).syntaxes() == old(self).syntaxes(),
            final(self).themes() == old(self).themes(),
            final(self).syntax_set() == old(self).syntax_set(),
            final(self).theme_set() == old(self).theme_set(),
            ({
                let o = old(self).cache();
                let n = final(self).cache();
                let ls = lines_with_endings(text@);
                &&& n.len() <= ls.len()
                &&& !done ==> n.len() == 0
                &&& n.len() <= max_int(o.len() as int, min_int(needed as int, ls.len() as int))
                &&& done ==> n.len() >= min_int(needed as int, ls.len() as int) || (n.len() == o.len() && dirty_from < o.len()
                    && !wide && old(self).version() != Some(version))
                &&& forall|k: int|
                    0 <= k < n.len() ==> #[trigger] n[k] == fresh_colored(
                        old(self).syntax_set(),
                        old(self).theme_set(),
                        old(self).syntax(),
                        old(self).theme(),
                        ls,
                        k,
                    ) && colors_line(n[k], ls[k])
            }),
    {
        proof {
            use_type_invariant(&*self);
        }
        let ghost o = self.cache();
        let version_changed = match self.cached_version {
            Some(v) => v != version,
            None => true,
        };
        self.cached_version = Some(version);
        let lines = split_lines(text);
        let ghost ls = views(lines@);
        assert(ls == lines_with_endings(text@));
        let mut entries: Vec<CachedLine> = Vec::new();
        std::mem::swap(&mut entries, &mut self.entries);
        let mut old_lines: Vec<String> = Vec::new();
        std::mem::swap(&mut old_lines, &mut self.lines);
        let ghost old_ls = views(old_lines@);
        let ghost es0 = entries@;
        assert(colored_lines(es0) == o);
        let (syntax, theme) = match pick(&self.sets, &self.syntax_name, &self.theme_name) {
            Some(p) => p,
            None => {
                self.lines = lines;
                self.entries = entries;
                assert(self.cache() =~= Seq::<Seq<((u8, u8, u8), Seq<char>)>>::empty());
                return false;
            },
        };
        let ghost syn = *syntax;
        let ghost th = *theme;
        let ss = &self.sets.syntaxes;
        let olen = entries.len();
        if version_changed && !wide && dirty_from < olen && agree_except(&old_lines, &lines, dirty_from) {
            Self::rehighlight(&mut entries, ss, syntax, theme, Ghost(old_ls), &lines, dirty_from, needed);
        } else {
            let agree = common_prefix(&old_lines, &lines);
            let mut keep = if agree < olen { agree } else { olen };
            if version_changed && wide && dirty_from < keep {
                keep = dirty_from;
            }
            entries.truncate(keep);
            proof {
                assert forall|j: int| 0 <= j < keep implies old_ls[j] == ls[j] by {}
                lemma_prefix_stays(es0, *ss, syn, th, old_ls, ls, keep as int);
                assert(entries@ == es0.take(keep as int));
            }
            Self::extend(&mut entries, ss, syntax, theme, &lines, needed);
        }
        let ghost es1 = entries@;
        proof {
            assert forall|k: int| 0 <= k < es1.len() implies #[trigger] colored_lines(es1)[k] == fresh_colored(
                *ss,
                self.sets.themes,
                self.syntax_name@,
                self.theme_name@,
                ls,
                k,
            ) && colors_line(colored_lines(es1)[k], ls[k]) by {
                assert(valid_entry(es1[k], *ss, syn, th, ls, k));
            }
        }
        self.lines = lines;
        self.entries = entries;
        true
    }
}

} // verus!
