//! Language tooling: maps a language to a language server plus optional
//! standalone formatter and linter commands, from the per-language sections
//! of the config file.
use vstd::prelude::*;
use vstd::string::*;

use crate::chars::{char_is_whitespace, is_whitespace};
use crate::paths::{extension, extension_of};
use crate::text::{chars_of, copy_str, str_eq, string_of};

verus! {

/// One `[<name>]` language section of the config file.
pub struct LanguageConfig {
    /// File extensions (without the dot) the language claims.
    pub extensions: Vec<String>,
    /// Command strings; empty means "not configured".
    pub lsp: String,
    pub formatter: String,
    pub linter: String,
}

/// One language group: a name and the languages it supports (one per config section).
pub struct ExtensionManifest {
    pub name: String,
    pub languages: Vec<LanguageDef>,
}

/// A single language's capabilities.
pub struct LanguageDef {
    /// Language identifier (e.g. "rust", "python").
    pub id: String,
    /// File extensions (without the dot) this language claims.
    pub extensions: Vec<String>,
    /// Language server to launch.
    pub lsp: Option<ServerSpec>,
    /// Standalone formatter: stdin -> stdout.
    pub formatter: Option<ToolSpec>,
    /// Standalone linter: stdin -> stdout diagnostics.
    pub linter: Option<ToolSpec>,
}

/// A language-server command.
pub struct ServerSpec {
    pub command: String,
    pub args: Vec<String>,
    /// Extra environment variables passed to the server process.
    pub env: Vec<(String, String)>,
}

/// A standalone command-line tool that reads stdin and writes stdout.
pub struct ToolSpec {
    pub command: String,
    pub args: Vec<String>,
}

/// The texts of a list of strings.
pub open spec fn strs(v: Seq<String>) -> Seq<Seq<char>> {
    v.map_values(|x: String| x@)
}

/// The whitespace-separated words of `s` (as `str::split_whitespace`).
pub open spec fn words(s: Seq<char>) -> Seq<Seq<char>>
    decreases s.len(),
{
    if s.len() == 0 {
        Seq::empty()
    } else {
        let w = words(s.drop_last());
        let c = s.last();
        if is_whitespace(c) {
            w
        } else if s.len() >= 2 && !is_whitespace(s[s.len() - 2]) {
            w.update(w.len() - 1, w.last().push(c))
        } else {
            w.push(seq![c])
        }
    }
}

proof fn lemma_words_nonempty(s: Seq<char>)
    requires
        s.len() > 0,
        !is_whitespace(s.last()),
    ensures
        words(s).len() > 0,
    decreases s.len(),
{
    if s.len() >= 2 && !is_whitespace(s[s.len() - 2]) {
        assert(s.drop_last().last() == s[s.len() - 2]);
        lemma_words_nonempty(s.drop_last());
    }
}

/// The whitespace-separated words of `s`.
pub fn split_words(s: &str) -> (r: Vec<String>)
    ensures
        strs(r@) == words(s@),
{
    let cs = chars_of(s);
    let n = cs.len();
    let mut ws: Vec<Vec<char>> = Vec::new();
    for i in 0..n
        invariant
            n == cs@.len(),
            cs@ == s@,
            ws@.map_values(|w: Vec<char>| w@) == words(s@.take(i as int)),
    {
        let c = cs[i];
        let ghost t = s@.take(i + 1);
        proof {
            assert(t.drop_last() =~= s@.take(i as int));
            assert(t.last() == c);
        }
        if char_is_whitespace(c) {
        } else if i > 0 && !char_is_whitespace(cs[i - 1]) {
            proof {
                assert(t[t.len() - 2] == cs@[i - 1]);
                assert(s@.take(i as int).last() == cs@[i - 1]);
                lemma_words_nonempty(s@.take(i as int));
            }
            let ghost before = ws@;
            let mut last = ws.pop().unwrap();
            last.push(c);
            ws.push(last);
            proof {
                assert(ws@.map_values(|w: Vec<char>| w@) =~= before.map_values(|w: Vec<char>| w@).update(
                    before.len() - 1, before.map_values(|w: Vec<char>| w@).last().push(c)));
            }
        } else {
            let ghost before = ws@;
            let mut w: Vec<char> = Vec::new();
            w.push(c);
            ws.push(w);
            proof {
                assert(ws@.map_values(|w: Vec<char>| w@) =~= before.map_values(|w: Vec<char>| w@).push(seq![c]));
            }
        }
    }
    assert(s@.take(n as int) =~= s@);
    let mut r: Vec<String> = Vec::new();
    let m = ws.len();
    for j in 0..m
        invariant
            m == ws@.len(),
            strs(r@) == ws@.map_values(|w: Vec<char>| w@).take(j as int),
    {
        let ghost before = r@;
        let piece = string_of(ws[j].as_slice());
        r.push(piece);
        proof {
            assert(r@ == before.push(piece));
            assert(strs(before) == ws@.map_values(|w: Vec<char>| w@).take(j as int));
            assert(strs(r@) =~= strs(before).push(piece@));
            assert(piece@ == ws@[j as int]@);
            assert(strs(r@) =~= ws@.map_values(|w: Vec<char>| w@).take(j + 1));
        }
    }
    assert(ws@.map_values(|w: Vec<char>| w@).take(m as int) =~= ws@.map_values(|w: Vec<char>| w@));
    r
}

/// A command string read as (binary, args); `None` when it has no word.
pub open spec fn command_of(s: Seq<char>) -> Option<(Seq<char>, Seq<Seq<char>>)> {
    let w = words(s);
    if w.len() == 0 { None } else { Some((w[0], w.drop_first())) }
}

/// Splits a shell-style command string into (binary, args): whitespace-split
/// only, no quoting. `None` for an empty or whitespace-only string.
pub fn parse_command(spec: &str) -> (r: Option<(String, Vec<String>)>)
    ensures
        match (r, command_of(spec@)) {
            (Some((c, a)), Some((wc, wa))) => c@ == wc && strs(a@) == wa,
            (None, None) => true,
            _ => false,
        },
{
    let mut ws = split_words(spec);
    if ws.len() == 0 {
        return None;
    }
    let ghost all = ws@;
    let command = ws.remove(0);
    assert(strs(ws@) =~= strs(all).drop_first());
    Some((command, ws))
}

/// Whether an optional server matches a command string.
pub open spec fn server_from(s: Option<ServerSpec>, text: Seq<char>) -> bool {
    match (s, command_of(text)) {
        (Some(x), Some((c, a))) => x.command@ == c && strs(x.args@) == a && x.env@.len() == 0,
        (None, None) => true,
        _ => false,
    }
}

/// Whether an optional tool matches a command string.
pub open spec fn tool_from(t: Option<ToolSpec>, text: Seq<char>) -> bool {
    match (t, command_of(text)) {
        (Some(x), Some((c, a))) => x.command@ == c && strs(x.args@) == a,
        (None, None) => true,
        _ => false,
    }
}

/// The manifest a config section becomes: one language named after it, with
/// its extensions and its command strings split into binary and args.
pub open spec fn manifest_from(m: ExtensionManifest, name: Seq<char>, lc: LanguageConfig) -> bool {
    &&& m.name@ == name
    &&& m.languages@.len() == 1
    &&& m.languages@[0].id@ == name
    &&& strs(m.languages@[0].extensions@) == strs(lc.extensions@)
    &&& server_from(m.languages@[0].lsp, lc.lsp@)
    &&& tool_from(m.languages@[0].formatter, lc.formatter@)
    &&& tool_from(m.languages@[0].linter, lc.linter@)
}

fn copy_strings(v: &Vec<String>) -> (r: Vec<String>)
    ensures
        strs(r@) == strs(v@),
{
    let mut r: Vec<String> = Vec::new();
    let n = v.len();
    for i in 0..n
        invariant
            n == v@.len(),
            strs(r@) == strs(v@).take(i as int),
    {
        let ghost before = r@;
        let piece = copy_str(v[i].as_str());
        r.push(piece);
        proof {
            assert(strs(r@) =~= strs(before).push(piece@));
            assert(strs(r@) =~= strs(v@).take(i + 1));
        }
    }
    assert(strs(v@).take(n as int) =~= strs(v@));
    r
}

/// All loaded extensions.
pub struct ExtensionRegistry {
    manifests: Vec<ExtensionManifest>,
}

impl View for ExtensionRegistry {
    type V = Seq<ExtensionManifest>;

    closed spec fn view(&self) -> Seq<ExtensionManifest> {
        self.manifests@
    }
}

/// The languages of the manifests in order, each with its place.
pub open spec fn language_at(ms: Seq<ExtensionManifest>, m: int, l: int) -> LanguageDef {
    ms[m].languages@[l]
}

/// Whether language `(m, l)` claims extension `e`.
pub open spec fn claims(ms: Seq<ExtensionManifest>, m: int, l: int, e: Seq<char>) -> bool {
    0 <= m < ms.len() && 0 <= l < ms[m].languages@.len() && strs(ms[m].languages@[l].extensions@).contains(e)
}

/// Pairs `(m, l)` in manifest-then-language order.
pub open spec fn before(m1: int, l1: int, m2: int, l2: int) -> bool {
    m1 < m2 || (m1 == m2 && l1 < l2)
}

impl ExtensionRegistry {
    /// The installed extensions, for the Extensions panel.
    pub fn manifests(&self) -> (r: &[ExtensionManifest])
        ensures
            r@ == self@,
    {
        self.manifests.as_slice()
    }

    /// Builds a registry from the config's language sections, in order: each
    /// becomes a one-language manifest with its command strings split.
    pub fn from_config(languages: &Vec<(String, LanguageConfig)>) -> (r: ExtensionRegistry)
        ensures
            r@.len() == languages@.len(),
            forall|i: int| 0 <= i < languages@.len() ==> manifest_from(#[trigger] r@[i], languages@[i].0@, languages@[i].1),
    {
        let mut manifests: Vec<ExtensionManifest> = Vec::new();
        let n = languages.len();
        for i in 0..n
            invariant
                n == languages@.len(),
                manifests@.len() == i,
                forall|k: int| 0 <= k < i ==> manifest_from(#[trigger] manifests@[k], languages@[k].0@, languages@[k].1),
        {
            let name = &languages[i].0;
            let lc = &languages[i].1;
            let lsp = match parse_command(lc.lsp.as_str()) {
                Some((command, args)) => Some(ServerSpec { command, args, env: Vec::new() }),
                None => None,
            };
            let formatter = match parse_command(lc.formatter.as_str()) {
                Some((command, args)) => Some(ToolSpec { command, args }),
                None => None,
            };
            let linter = match parse_command(lc.linter.as_str()) {
                Some((command, args)) => Some(ToolSpec { command, args }),
                None => None,
            };
            let lang = LanguageDef {
                id: copy_str(name.as_str()),
                extensions: copy_strings(&lc.extensions),
                lsp,
                formatter,
                linter,
            };
            let mut langs: Vec<LanguageDef> = Vec::new();
            langs.push(lang);
            manifests.push(ExtensionManifest { name: copy_str(name.as_str()), languages: langs });
        }
        ExtensionRegistry { manifests }
    }
}

/// A binary and its args as one command string, single spaces between.
pub open spec fn join_command(c: Seq<char>, args: Seq<Seq<char>>) -> Seq<char>
    decreases args.len(),
{
    if args.len() == 0 { c } else { join_command(c, args.drop_last()) + " "@ + args.last() }
}

pub open spec fn server_text(s: Option<ServerSpec>) -> Seq<char> {
    match s {
        Some(x) => join_command(x.command@, strs(x.args@)),
        None => Seq::empty(),
    }
}

pub open spec fn tool_text(t: Option<ToolSpec>) -> Seq<char> {
    match t {
        Some(x) => join_command(x.command@, strs(x.args@)),
        None => Seq::empty(),
    }
}

/// Whether a config section holds what a language was loaded with.
pub open spec fn config_from(lc: LanguageConfig, l: LanguageDef) -> bool {
    &&& strs(lc.extensions@) == strs(l.extensions@)
    &&& lc.lsp@ == server_text(l.lsp)
    &&& lc.formatter@ == tool_text(l.formatter)
    &&& lc.linter@ == tool_text(l.linter)
}

/// Every (manifest name, language) pair, manifest by manifest.
pub open spec fn named_languages(ms: Seq<ExtensionManifest>) -> Seq<(Seq<char>, LanguageDef)>
    decreases ms.len(),
{
    if ms.len() == 0 {
        Seq::empty()
    } else {
        named_languages(ms.drop_last()) + ms.last().languages@.map_values(|l: LanguageDef| (ms.last().name@, l))
    }
}

fn join_args(command: &String, args: &Vec<String>) -> (r: String)
    ensures
        r@ == join_command(command@, strs(args@)),
{
    let mut out = copy_str(command.as_str());
    let n = args.len();
    for i in 0..n
        invariant
            n == args@.len(),
            out@ == join_command(command@, strs(args@).take(i as int)),
    {
        out.append(" ");
        out.append(args[i].as_str());
        assert(strs(args@).take(i + 1).drop_last() =~= strs(args@).take(i as int));
    }
    assert(strs(args@).take(n as int) =~= strs(args@));
    out
}

fn server_string(s: &Option<ServerSpec>) -> (r: String)
    ensures
        r@ == server_text(*s),
{
    match s {
        Some(x) => join_args(&x.command, &x.args),
        None => String::new(),
    }
}

fn tool_string(t: &Option<ToolSpec>) -> (r: String)
    ensures
        r@ == tool_text(*t),
{
    match t {
        Some(x) => join_args(&x.command, &x.args),
        None => String::new(),
    }
}

/// The sections by name, as a map collects them: a later pair replaces an
/// earlier one of the same name.
pub open spec fn config_map(ls: Seq<(Seq<char>, LanguageDef)>) -> Map<Seq<char>, LanguageDef>
    decreases ls.len(),
{
    if ls.len() == 0 {
        Map::empty()
    } else {
        config_map(ls.drop_last()).insert(ls.last().0, ls.last().1)
    }
}

/// Named sections in strictly ascending name order, so each name once.
pub open spec fn names_ascending(v: Seq<(String, LanguageConfig)>) -> bool {
    forall|i: int, j: int| 0 <= i < j < v.len() ==> lex_lt(#[trigger] v[i].0@, #[trigger] v[j].0@)
}

/// `v` holds the map `m` of sections as a map keeps it: ascending by name,
/// one entry per name of `m`, each with the section for that name.
pub open spec fn holds_map(v: Seq<(String, LanguageConfig)>, m: Map<Seq<char>, LanguageDef>) -> bool {
    &&& names_ascending(v)
    &&& forall|i: int| 0 <= i < v.len() ==> m.contains_key(#[trigger] v[i].0@) && config_from(v[i].1, m[v[i].0@])
    &&& forall|n: Seq<char>| #[trigger] m.contains_key(n) ==> exists|i: int| 0 <= i < v.len() && v[i].0@ == n
}

/// Puts a section into a name-ordered list: replacing the one of the same
/// name, else inserted in its place.
fn upsert(
    out: &mut Vec<(String, LanguageConfig)>,
    name: String,
    cfg: LanguageConfig,
    Ghost(m): Ghost<Map<Seq<char>, LanguageDef>>,
    Ghost(l): Ghost<LanguageDef>,
)
    requires
        holds_map(old(out)@, m),
        config_from(cfg, l),
    ensures
        holds_map(final(out)@, m.insert(name@, l)),
{
    let ghost before = out@;
    let len = out.len();
    let mut p: usize = 0;
    while p < len && str_lt(out[p].0.as_str(), name.as_str())
        invariant
            len == out@.len(),
            before == out@,
            p <= len,
            forall|k: int| 0 <= k < p ==> lex_lt(#[trigger] before[k].0@, name@),
        decreases len - p,
    {
        p += 1;
    }
    let ghost mm = m.insert(name@, l);
    if p < len && str_eq(out[p].0.as_str(), name.as_str()) {
        out.set(p, (name, cfg));
        proof {
            let after = out@;
            assert(after =~= before.update(p as int, after[p as int]));
            assert forall|i: int, j: int| 0 <= i < j < after.len() implies lex_lt(#[trigger] after[i].0@, #[trigger] after[j].0@) by {
                if i == p as int {
                    assert(after[i].0@ == before[i].0@);
                } else if j == p as int {
                    assert(after[j].0@ == before[j].0@);
                }
            }
            assert forall|i: int| 0 <= i < after.len() implies mm.contains_key(#[trigger] after[i].0@) && config_from(
                after[i].1,
                mm[after[i].0@],
            ) by {
                if i != p as int {
                    assert(after[i] == before[i]);
                    if after[i].0@ == name@ {
                        lemma_lex_irreflexive(name@);
                        if i < p {
                        } else {
                            assert(lex_lt(before[p as int].0@, before[i].0@));
                        }
                    }
                }
            }
            assert forall|n: Seq<char>| #[trigger] mm.contains_key(n) implies exists|i: int| 0 <= i < after.len() && after[i].0@ == n by {
                if n == name@ {
                    assert(after[p as int].0@ == n);
                } else {
                    let i = choose|i: int| 0 <= i < before.len() && before[i].0@ == n;
                    if i == p as int {
                    } else {
                        assert(after[i] == before[i]);
                    }
                }
            }
        }
    } else {
        proof {
            if p < len {
                lemma_lex_total(before[p as int].0@, name@);
                assert(lex_lt(name@, before[p as int].0@));
                assert forall|k: int| p <= k < len implies lex_lt(name@, #[trigger] before[k].0@) by {
                    if k > p {
                        lemma_lex_transitive(name@, before[p as int].0@, before[k].0@);
                    }
                }
            }
        }
        out.insert(p, (name, cfg));
        proof {
            let after = out@;
            assert(after =~= before.insert(p as int, after[p as int]));
            assert forall|i: int, j: int| 0 <= i < j < after.len() implies lex_lt(#[trigger] after[i].0@, #[trigger] after[j].0@) by {
                if i < p && j < p {
                } else if i < p && j == p {
                    assert(after[i] == before[i]);
                } else if i < p {
                    assert(after[i] == before[i] && after[j] == before[j - 1]);
                    lemma_lex_transitive(before[i].0@, name@, before[j - 1].0@);
                } else if i == p {
                    assert(after[j] == before[j - 1]);
                } else {
                    assert(after[i] == before[i - 1] && after[j] == before[j - 1]);
                }
            }
            assert forall|i: int| 0 <= i < after.len() implies mm.contains_key(#[trigger] after[i].0@) && config_from(
                after[i].1,
                mm[after[i].0@],
            ) by {
                if i != p as int {
                    let k = if i < p { i } else { i - 1 };
                    assert(after[i] == before[k]);
                    if before[k].0@ == name@ {
                        lemma_lex_irreflexive(name@);
                    }
                }
            }
            assert forall|n: Seq<char>| #[trigger] mm.contains_key(n) implies exists|i: int| 0 <= i < after.len() && after[i].0@ == n by {
                if n == name@ {
                    assert(after[p as int].0@ == n);
                } else {
                    let i = choose|i: int| 0 <= i < before.len() && before[i].0@ == n;
                    if i < p {
                        assert(after[i] == before[i]);
                    } else {
                        assert(after[i + 1] == before[i]);
                    }
                }
            }
        }
    }
}

impl ExtensionRegistry {
    /// The config sections the registry was loaded from, as the config's map
    /// of sections by name: one per manifest name, in ascending name order,
    /// with each command joined back into a string; when several languages
    /// carry the same manifest name, the last one's section is kept.
    pub fn to_language_configs(&self) -> (r: Vec<(String, LanguageConfig)>)
        ensures
            holds_map(r@, config_map(named_languages(self@))),
    {
        let mut out: Vec<(String, LanguageConfig)> = Vec::new();
        let n = self.manifests.len();
        assert(named_languages(self@.take(0)) =~= Seq::<(Seq<char>, LanguageDef)>::empty());
        for m in 0..n
            invariant
                n == self@.len(),
                holds_map(out@, config_map(named_languages(self@.take(m as int)))),
        {
            let manifest = &self.manifests[m];
            let ghost prev = named_languages(self@.take(m as int));
            let ghost add = manifest.languages@.map_values(|l: LanguageDef| (manifest.name@, l));
            proof {
                assert(self@.take(m + 1).drop_last() =~= self@.take(m as int));
                assert(self@.take(m + 1).last() == *manifest);
                assert(named_languages(self@.take(m + 1)) == prev + add);
            }
            let k = manifest.languages.len();
            for l in 0..k
                invariant
                    k == manifest.languages@.len(),
                    add == manifest.languages@.map_values(|l: LanguageDef| (manifest.name@, l)),
                    holds_map(out@, config_map(prev + add.take(l as int))),
            {
                let lang = &manifest.languages[l];
                let cfg = LanguageConfig {
                    extensions: copy_strings(&lang.extensions),
                    lsp: server_string(&lang.lsp),
                    formatter: tool_string(&lang.formatter),
                    linter: tool_string(&lang.linter),
                };
                proof {
                    assert((prev + add.take(l + 1)).drop_last() =~= prev + add.take(l as int));
                    assert((prev + add.take(l + 1)).last() == (manifest.name@, *lang));
                }
                upsert(&mut out, copy_str(manifest.name.as_str()), cfg, Ghost(config_map(prev + add.take(l as int))), Ghost(*lang));
            }
            proof {
                assert(add.take(k as int) =~= add);
            }
        }
        assert(self@.take(n as int) =~= self@);
        out
    }
}

/// Binaries, in order: each language's server, formatter and linter command
/// where configured.
pub open spec fn commands_of(ls: Seq<(Seq<char>, LanguageDef)>) -> Seq<Seq<char>>
    decreases ls.len(),
{
    if ls.len() == 0 {
        Seq::empty()
    } else {
        let l = ls.last().1;
        commands_of(ls.drop_last()) + server_cmd(l.lsp) + tool_cmd(l.formatter) + tool_cmd(l.linter)
    }
}

pub open spec fn server_cmd(s: Option<ServerSpec>) -> Seq<Seq<char>> {
    match s {
        Some(x) => seq![x.command@],
        None => Seq::empty(),
    }
}

pub open spec fn tool_cmd(t: Option<ToolSpec>) -> Seq<Seq<char>> {
    match t {
        Some(x) => seq![x.command@],
        None => Seq::empty(),
    }
}

/// Lexicographic order by character (the order of `String`'s `Ord`).
pub open spec fn lex_lt(a: Seq<char>, b: Seq<char>) -> bool
    decreases a.len(),
{
    if a.len() == 0 {
        b.len() > 0
    } else if b.len() == 0 {
        false
    } else if a[0] != b[0] {
        a[0] < b[0]
    } else {
        lex_lt(a.drop_first(), b.drop_first())
    }
}

pub proof fn lemma_lex_irreflexive(a: Seq<char>)
    ensures
        !lex_lt(a, a),
    decreases a.len(),
{
    if a.len() > 0 {
        lemma_lex_irreflexive(a.drop_first());
    }
}

pub proof fn lemma_lex_total(a: Seq<char>, b: Seq<char>)
    ensures
        a == b || lex_lt(a, b) || lex_lt(b, a),
    decreases a.len(),
{
    if a.len() > 0 && b.len() > 0 && a[0] == b[0] {
        lemma_lex_total(a.drop_first(), b.drop_first());
        if a.drop_first() == b.drop_first() {
            assert(a =~= seq![a[0]] + a.drop_first());
            assert(b =~= seq![b[0]] + b.drop_first());
        }
    } else if a.len() == 0 && b.len() == 0 {
        assert(a =~= b);
    }
}

pub proof fn lemma_lex_transitive(a: Seq<char>, b: Seq<char>, c: Seq<char>)
    requires
        lex_lt(a, b),
        lex_lt(b, c),
    ensures
        lex_lt(a, c),
    decreases a.len(),
{
    if a.len() > 0 && b.len() > 0 && c.len() > 0 && a[0] == b[0] && b[0] == c[0] {
        lemma_lex_transitive(a.drop_first(), b.drop_first(), c.drop_first());
    }
}

/// Whether `a` comes strictly before `b` by character.
pub fn str_lt(a: &str, b: &str) -> (r: bool)
    ensures
        r == lex_lt(a@, b@),
{
    let x = chars_of(a);
    let y = chars_of(b);
    let n = x.len();
    let m = y.len();
    let mut i: usize = 0;
    assert(a@.skip(0) =~= a@);
    assert(b@.skip(0) =~= b@);
    while i < n && i < m && x[i] == y[i]
        invariant
            n == a@.len(),
            m == b@.len(),
            x@ == a@,
            y@ == b@,
            i <= n,
            i <= m,
            lex_lt(a@, b@) == lex_lt(a@.skip(i as int), b@.skip(i as int)),
        decreases n - i,
    {
        proof {
            assert(a@.skip(i as int).drop_first() =~= a@.skip(i + 1));
            assert(b@.skip(i as int).drop_first() =~= b@.skip(i + 1));
        }
        i += 1;
    }
    if i == n {
        i < m
    } else if i == m {
        false
    } else {
        x[i] < y[i]
    }
}

/// Whether a sequence is strictly increasing.
pub open spec fn strictly_sorted(s: Seq<Seq<char>>) -> bool {
    forall|i: int, j: int| 0 <= i < j < s.len() ==> lex_lt(#[trigger] s[i], #[trigger] s[j])
}

/// Inserts `x` into a strictly sorted list unless it is there already.
fn insert_sorted(v: &mut Vec<String>, x: String)
    requires
        strictly_sorted(strs(old(v)@)),
    ensures
        strictly_sorted(strs(final(v)@)),
        forall|y: Seq<char>| strs(final(v)@).contains(y) <==> (strs(old(v)@).contains(y) || y == x@),
{
    let n = v.len();
    let mut p: usize = 0;
    while p < n && str_lt(v[p].as_str(), x.as_str())
        invariant
            n == v@.len(),
            p <= n,
            forall|k: int| 0 <= k < p ==> lex_lt(#[trigger] v@[k]@, x@),
        decreases n - p,
    {
        p += 1;
    }
    let ghost s = strs(v@);
    if p < n && str_eq(v[p].as_str(), x.as_str()) {
        assert(s[p as int] == x@);
        return;
    }
    proof {
        if p < n {
            lemma_lex_total(x@, v@[p as int]@);
        }
    }
    let ghost old_v = v@;
    v.insert(p, x);
    proof {
        let t = strs(v@);
        assert(t =~= s.take(p as int).push(x@) + s.skip(p as int));
        assert forall|i: int, j: int| 0 <= i < j < t.len() implies lex_lt(#[trigger] t[i], #[trigger] t[j]) by {
            if j < p {
                assert(t[i] == s[i] && t[j] == s[j]);
            } else if j == p {
                assert(t[i] == s[i] && t[j] == x@);
                assert(lex_lt(old_v[i]@, x@));
            } else if i > p {
                assert(t[i] == s[i - 1] && t[j] == s[j - 1]);
            } else if i == p {
                assert(t[i] == x@ && t[j] == s[j - 1]);
                assert(lex_lt(x@, s[p as int]));
                if j - 1 > p {
                    lemma_lex_transitive(x@, s[p as int], s[j - 1]);
                }
            } else {
                assert(t[i] == s[i] && t[j] == s[j - 1]);
            }
        }
        assert forall|y: Seq<char>| t.contains(y) <==> (s.contains(y) || y == x@) by {
            if t.contains(y) {
                let i = choose|i: int| 0 <= i < t.len() && t[i] == y;
                if i < p {
                    assert(s[i] == y);
                } else if i > p {
                    assert(s[i - 1] == y);
                }
            }
            if s.contains(y) {
                let i = choose|i: int| 0 <= i < s.len() && s[i] == y;
                if i < p {
                    assert(t[i] == y);
                } else {
                    assert(t[i + 1] == y);
                }
            }
            if y == x@ {
                assert(t[p as int] == y);
            }
        }
    }
}

impl ExtensionRegistry {
    /// Every distinct binary referenced by the configured languages (server,
    /// formatter and linter commands), sorted and de-duplicated.
    pub fn tool_commands(&self) -> (r: Vec<String>)
        ensures
            strictly_sorted(strs(r@)),
            forall|y: Seq<char>| strs(r@).contains(y) <==> commands_of(named_languages(self@)).contains(y),
    {
        let mut out: Vec<String> = Vec::new();
        let n = self.manifests.len();
        for m in 0..n
            invariant
                n == self@.len(),
                strictly_sorted(strs(out@)),
                forall|y: Seq<char>| strs(out@).contains(y) <==> commands_of(named_languages(self@.take(m as int))).contains(y),
        {
            let manifest = &self.manifests[m];
            let ghost prev = named_languages(self@.take(m as int));
            let ghost add = manifest.languages@.map_values(|l: LanguageDef| (manifest.name@, l));
            proof {
                assert(self@.take(m + 1).drop_last() =~= self@.take(m as int));
                assert(self@.take(m + 1).last() == *manifest);
                assert(named_languages(self@.take(m + 1)) == prev + add);
            }
            let k = manifest.languages.len();
            for l in 0..k
                invariant
                    k == manifest.languages@.len(),
                    add == manifest.languages@.map_values(|l: LanguageDef| (manifest.name@, l)),
                    strictly_sorted(strs(out@)),
                    forall|y: Seq<char>| strs(out@).contains(y) <==> commands_of(prev + add.take(l as int)).contains(y),
            {
                let lang = &manifest.languages[l];
                let ghost before = prev + add.take(l as int);
                let ghost after = prev + add.take(l + 1);
                proof {
                    assert(after.drop_last() =~= before);
                    assert(after.last() == (manifest.name@, *lang));
                }
                let ghost c0 = commands_of(before);
                let ghost s1 = server_cmd(lang.lsp);
                let ghost s2 = tool_cmd(lang.formatter);
                let ghost s3 = tool_cmd(lang.linter);
                assert(commands_of(after) == c0 + s1 + s2 + s3);
                match &lang.lsp {
                    Some(x) => insert_sorted(&mut out, copy_str(x.command.as_str())),
                    None => {},
                }
                assert forall|y: Seq<char>| strs(out@).contains(y) <==> (c0 + s1).contains(y) by {
                    if (c0 + s1).contains(y) {
                        let i = choose|i: int| 0 <= i < (c0 + s1).len() && (c0 + s1)[i] == y;
                        if i < c0.len() {
                            assert(c0[i] == y);
                        } else {
                            assert(s1[i - c0.len()] == y);
                        }
                    }
                    if c0.contains(y) {
                        let i = choose|i: int| 0 <= i < c0.len() && c0[i] == y;
                        assert((c0 + s1)[i] == y);
                    }
                    if s1.len() > 0 && y == s1[0] {
                        assert((c0 + s1)[c0.len() as int] == y);
                    }
                }
                match &lang.formatter {
                    Some(x) => insert_sorted(&mut out, copy_str(x.command.as_str())),
                    None => {},
                }
                assert forall|y: Seq<char>| strs(out@).contains(y) <==> (c0 + s1 + s2).contains(y) by {
                    let c1 = c0 + s1;
                    if (c1 + s2).contains(y) {
                        let i = choose|i: int| 0 <= i < (c1 + s2).len() && (c1 + s2)[i] == y;
                        if i < c1.len() {
                            assert(c1[i] == y);
                        } else {
                            assert(s2[i - c1.len()] == y);
                        }
                    }
                    if c1.contains(y) {
                        let i = choose|i: int| 0 <= i < c1.len() && c1[i] == y;
                        assert((c1 + s2)[i] == y);
                    }
                    if s2.len() > 0 && y == s2[0] {
                        assert((c1 + s2)[c1.len() as int] == y);
                    }
                }
                match &lang.linter {
                    Some(x) => insert_sorted(&mut out, copy_str(x.command.as_str())),
                    None => {},
                }
                assert forall|y: Seq<char>| strs(out@).contains(y) <==> (c0 + s1 + s2 + s3).contains(y) by {
                    let c2 = c0 + s1 + s2;
                    if (c2 + s3).contains(y) {
                        let i = choose|i: int| 0 <= i < (c2 + s3).len() && (c2 + s3)[i] == y;
                        if i < c2.len() {
                            assert(c2[i] == y);
                        } else {
                            assert(s3[i - c2.len()] == y);
                        }
                    }
                    if c2.contains(y) {
                        let i = choose|i: int| 0 <= i < c2.len() && c2[i] == y;
                        assert((c2 + s3)[i] == y);
                    }
                    if s3.len() > 0 && y == s3[0] {
                        assert((c2 + s3)[c2.len() as int] == y);
                    }
                }
            }
            assert(add.take(k as int) =~= add);
        }
        assert(self@.take(n as int) =~= self@);
        out
    }
}

/// The last language (in manifest-then-language order) that claims `e`.
pub open spec fn last_claim(ls: Seq<(Seq<char>, LanguageDef)>, e: Seq<char>) -> Option<LanguageDef>
    decreases ls.len(),
{
    if ls.len() == 0 {
        None
    } else if strs(ls.last().1.extensions@).contains(e) {
        Some(ls.last().1)
    } else {
        last_claim(ls.drop_last(), e)
    }
}

fn has_string(v: &Vec<String>, x: &str) -> (b: bool)
    ensures
        b == strs(v@).contains(x@),
{
    let n = v.len();
    for i in 0..n
        invariant
            n == v@.len(),
            forall|k: int| 0 <= k < i ==> v@[k]@ != x@,
    {
        if str_eq(v[i].as_str(), x) {
            assert(strs(v@)[i as int] == x@);
            return true;
        }
    }
    assert(!strs(v@).contains(x@)) by {
        if strs(v@).contains(x@) {
            let k = choose|k: int| 0 <= k < strs(v@).len() && strs(v@)[k] == x@;
            assert(v@[k]@ == x@);
        }
    }
    false
}

impl ExtensionRegistry {
    /// The language of a file, by its extension: the last loaded language
    /// that claims it.
    pub fn language_for_path(&self, path: &str) -> (r: Option<&LanguageDef>)
        ensures
            match extension_of(path@) {
                Some(e) => match (r, last_claim(named_languages(self@), e)) {
                    (Some(a), Some(b)) => *a == b,
                    (None, None) => true,
                    _ => false,
                },
                None => r is None,
            },
    {
        let ext = match extension(path) {
            Some(e) => e,
            None => {
                return None;
            },
        };
        let mut found: Option<&LanguageDef> = None;
        let n = self.manifests.len();
        for m in 0..n
            invariant
                n == self@.len(),
                match (found, last_claim(named_languages(self@.take(m as int)), ext@)) {
                    (Some(a), Some(b)) => *a == b,
                    (None, None) => true,
                    _ => false,
                },
        {
            let manifest = &self.manifests[m];
            let ghost prev = named_languages(self@.take(m as int));
            let ghost add = manifest.languages@.map_values(|l: LanguageDef| (manifest.name@, l));
            proof {
                assert(self@.take(m + 1).drop_last() =~= self@.take(m as int));
                assert(self@.take(m + 1).last() == *manifest);
                assert(named_languages(self@.take(m + 1)) == prev + add);
                assert(prev + add.take(0) =~= prev);
            }
            let k = manifest.languages.len();
            for l in 0..k
                invariant
                    k == manifest.languages@.len(),
                    add == manifest.languages@.map_values(|l: LanguageDef| (manifest.name@, l)),
                    match (found, last_claim(prev + add.take(l as int), ext@)) {
                        (Some(a), Some(b)) => *a == b,
                        (None, None) => true,
                        _ => false,
                    },
            {
                let lang = &manifest.languages[l];
                proof {
                    assert((prev + add.take(l + 1)).drop_last() =~= prev + add.take(l as int));
                    assert((prev + add.take(l + 1)).last() == (manifest.name@, *lang));
                }
                if has_string(&lang.extensions, ext.as_str()) {
                    found = Some(lang);
                }
            }
            assert(add.take(k as int) =~= add);
        }
        assert(self@.take(n as int) =~= self@);
        found
    }
}

/// A command string with its whitespace normalized: its words joined by
/// single spaces (empty when it has none).
pub open spec fn normalized(s: Seq<char>) -> Seq<char> {
    match command_of(s) {
        Some((c, a)) => join_command(c, a),
        None => Seq::empty(),
    }
}

/// A section read back after loading: the same extensions, each command
/// string normalized.
pub open spec fn read_back(lc: LanguageConfig, back: LanguageConfig) -> bool {
    &&& strs(back.extensions@) == strs(lc.extensions@)
    &&& back.lsp@ == normalized(lc.lsp@)
    &&& back.formatter@ == normalized(lc.formatter@)
    &&& back.linter@ == normalized(lc.linter@)
}

/// Languages of one-language manifests, in order.
proof fn lemma_single_languages(ms: Seq<ExtensionManifest>)
    requires
        forall|i: int| 0 <= i < ms.len() ==> (#[trigger] ms[i]).languages@.len() == 1,
    ensures
        named_languages(ms).len() == ms.len(),
        forall|i: int| 0 <= i < ms.len() ==> #[trigger] named_languages(ms)[i] == (ms[i].name@, ms[i].languages@[0]),
    decreases ms.len(),
{
    if ms.len() > 0 {
        let pre = ms.drop_last();
        assert forall|i: int| 0 <= i < pre.len() implies (#[trigger] pre[i]).languages@.len() == 1 by {
            assert(pre[i] == ms[i]);
        }
        lemma_single_languages(pre);
        let last = ms.last();
        assert(last.languages@.len() == 1);
        let add = last.languages@.map_values(|l: LanguageDef| (last.name@, l));
        assert(add.len() == 1);
        assert forall|i: int| 0 <= i < ms.len() implies #[trigger] named_languages(ms)[i] == (
            ms[i].name@,
            ms[i].languages@[0],
        ) by {
            if i < ms.len() - 1 {
                assert(pre[i] == ms[i]);
            } else {
                assert(add[0] == (last.name@, last.languages@[0]));
            }
        }
    }
}

/// A map built from pairs with distinct names holds each pair.
proof fn lemma_distinct_map(ls: Seq<(Seq<char>, LanguageDef)>)
    requires
        forall|i: int, j: int| 0 <= i < j < ls.len() ==> (#[trigger] ls[i]).0 != (#[trigger] ls[j]).0,
    ensures
        forall|i: int| 0 <= i < ls.len() ==> #[trigger] config_map(ls).contains_key(ls[i].0) && config_map(ls)[ls[i].0] == ls[i].1,
        forall|n: Seq<char>| #[trigger] config_map(ls).contains_key(n) ==> exists|i: int| 0 <= i < ls.len() && ls[i].0 == n,
    decreases ls.len(),
{
    if ls.len() > 0 {
        let pre = ls.drop_last();
        assert forall|i: int, j: int| 0 <= i < j < pre.len() implies (#[trigger] pre[i]).0 != (#[trigger] pre[j]).0 by {
            assert(pre[i] == ls[i] && pre[j] == ls[j]);
        }
        lemma_distinct_map(pre);
        assert forall|i: int| 0 <= i < ls.len() implies #[trigger] config_map(ls).contains_key(ls[i].0) && config_map(ls)[ls[i].0]
            == ls[i].1 by {
            assert(config_map(ls) == config_map(pre).insert(ls.last().0, ls.last().1));
            if i < ls.len() - 1 {
                assert(pre[i] == ls[i]);
                assert(ls[i].0 != ls[ls.len() - 1].0);
                assert(config_map(pre).contains_key(pre[i].0) && config_map(pre)[pre[i].0] == pre[i].1);
            }
        }
        assert forall|n: Seq<char>| #[trigger] config_map(ls).contains_key(n) implies exists|i: int| 0 <= i < ls.len() && ls[i].0
            == n by {
            if n != ls.last().0 {
                assert(config_map(pre).contains_key(n));
                let i = choose|i: int| 0 <= i < pre.len() && pre[i].0 == n;
                assert(ls[i] == pre[i]);
            } else {
                assert(ls[ls.len() - 1].0 == n);
            }
        }
    }
}

/// Two lists of sections with distinct names, each name of one found in the
/// other, are as long as each other.
proof fn lemma_same_names_len(a: Seq<(String, LanguageConfig)>, b: Seq<(String, LanguageConfig)>)
    requires
        forall|i: int, j: int| 0 <= i < j < a.len() ==> (#[trigger] a[i]).0@ != (#[trigger] a[j]).0@,
        names_ascending(b),
        forall|i: int| 0 <= i < a.len() ==> exists|j: int| 0 <= j < b.len() && (#[trigger] b[j]).0@ == (#[trigger] a[i]).0@,
        forall|j: int| 0 <= j < b.len() ==> exists|i: int| 0 <= i < a.len() && (#[trigger] a[i]).0@ == (#[trigger] b[j]).0@,
    ensures
        a.len() == b.len(),
{
    let na = a.map_values(|p: (String, LanguageConfig)| p.0@);
    let nb = b.map_values(|p: (String, LanguageConfig)| p.0@);
    assert(na.no_duplicates()) by {
        assert forall|i: int, j: int| 0 <= i < na.len() && 0 <= j < na.len() && i != j implies na[i] != na[j] by {
            if i < j {
                assert(a[i].0@ != a[j].0@);
            } else {
                assert(a[j].0@ != a[i].0@);
            }
        }
    }
    assert(nb.no_duplicates()) by {
        assert forall|i: int, j: int| 0 <= i < nb.len() && 0 <= j < nb.len() && i != j implies nb[i] != nb[j] by {
            if i < j {
                assert(lex_lt(b[i].0@, b[j].0@));
                lemma_lex_irreflexive(b[i].0@);
            } else {
                assert(lex_lt(b[j].0@, b[i].0@));
                lemma_lex_irreflexive(b[j].0@);
            }
        }
    }
    assert(na.to_set() =~= nb.to_set()) by {
        assert forall|n: Seq<char>| na.to_set().contains(n) implies nb.to_set().contains(n) by {
            let i = choose|i: int| 0 <= i < na.len() && na[i] == n;
            assert(a[i].0@ == n);
            let j = choose|j: int| 0 <= j < b.len() && (#[trigger] b[j]).0@ == a[i].0@;
            assert(nb[j] == n);
        }
        assert forall|n: Seq<char>| nb.to_set().contains(n) implies na.to_set().contains(n) by {
            let j = choose|j: int| 0 <= j < nb.len() && nb[j] == n;
            assert(b[j].0@ == n);
            let i = choose|i: int| 0 <= i < a.len() && (#[trigger] a[i]).0@ == b[j].0@;
            assert(na[i] == n);
        }
    }
    na.unique_seq_to_set();
    nb.unique_seq_to_set();
}

/// Loading the config's language sections (`from_config`) and writing them
/// back (`to_language_configs`) gives the same sections: the same names, and
/// for each the same extensions and its command strings with their whitespace
/// normalized (so a command of single-space-separated words comes back
/// unchanged). The sections have distinct names, as a map keeps them.
pub proof fn law_config_round_trip(
    languages: Seq<(String, LanguageConfig)>,
    ms: Seq<ExtensionManifest>,
    back: Seq<(String, LanguageConfig)>,
)
    requires
        forall|i: int, j: int| 0 <= i < j < languages.len() ==> (#[trigger] languages[i]).0@ != (#[trigger] languages[j]).0@,
        ms.len() == languages.len(),
        forall|i: int| 0 <= i < languages.len() ==> manifest_from(#[trigger] ms[i], languages[i].0@, languages[i].1),
        holds_map(back, config_map(named_languages(ms))),
    ensures
        back.len() == languages.len(),
        forall|i: int|
            0 <= i < languages.len() ==> exists|j: int|
                0 <= j < back.len() && (#[trigger] back[j]).0@ == (#[trigger] languages[i]).0@ && read_back(languages[i].1, back[j].1),
        forall|j: int| 0 <= j < back.len() ==> exists|i: int| 0 <= i < languages.len() && (#[trigger] languages[i]).0@ == (#[trigger] back[j]).0@,
{
    assert forall|i: int| 0 <= i < ms.len() implies (#[trigger] ms[i]).languages@.len() == 1 by {
        assert(manifest_from(ms[i], languages[i].0@, languages[i].1));
    }
    lemma_single_languages(ms);
    let ls = named_languages(ms);
    assert forall|i: int, j: int| 0 <= i < j < ls.len() implies (#[trigger] ls[i]).0 != (#[trigger] ls[j]).0 by {
        assert(manifest_from(ms[i], languages[i].0@, languages[i].1));
        assert(manifest_from(ms[j], languages[j].0@, languages[j].1));
    }
    lemma_distinct_map(ls);
    let m = config_map(ls);
    assert forall|i: int| 0 <= i < languages.len() implies exists|j: int|
        0 <= j < back.len() && (#[trigger] back[j]).0@ == (#[trigger] languages[i]).0@ && read_back(languages[i].1, back[j].1) by {
        assert(manifest_from(ms[i], languages[i].0@, languages[i].1));
        assert(ls[i] == (ms[i].name@, ms[i].languages@[0]));
        assert(m.contains_key(ls[i].0));
        let j = choose|j: int| 0 <= j < back.len() && back[j].0@ == ls[i].0;
        assert(m.contains_key(back[j].0@) && config_from(back[j].1, m[back[j].0@]));
        let l = ms[i].languages@[0];
        assert(m[back[j].0@] == l);
    }
    assert forall|j: int| 0 <= j < back.len() implies exists|i: int| 0 <= i < languages.len() && (#[trigger] languages[i]).0@
        == (#[trigger] back[j]).0@ by {
        assert(m.contains_key(back[j].0@));
        let i = choose|i: int| 0 <= i < ls.len() && ls[i].0 == back[j].0@;
        assert(manifest_from(ms[i], languages[i].0@, languages[i].1));
    }
    // Distinct names on both sides, each matched: as many sections back as went in.
    lemma_same_names_len(languages, back);
}

/// A non-empty text without whitespace.
pub open spec fn is_word(w: Seq<char>) -> bool {
    w.len() > 0 && forall|i: int| 0 <= i < w.len() ==> !is_whitespace(#[trigger] w[i])
}

proof fn lemma_words_after_space(a: Seq<char>, w: Seq<char>)
    requires
        is_word(w),
        a.len() == 0 || is_whitespace(a.last()),
    ensures
        words(a + w) == words(a).push(w),
    decreases w.len(),
{
    if w.len() == 1 {
        assert((a + w).drop_last() =~= a);
        assert((a + w).last() == w[0]);
        assert(!is_whitespace(w[0]));
        if a.len() > 0 {
            assert((a + w)[(a + w).len() - 2] == a.last());
        }
        assert(w =~= seq![w[0]]);
    } else {
        let v = w.drop_last();
        assert(is_word(v)) by {
            assert forall|i: int| 0 <= i < v.len() implies !is_whitespace(#[trigger] v[i]) by {
                assert(v[i] == w[i]);
            }
        }
        lemma_words_after_space(a, v);
        assert((a + w).drop_last() =~= a + v);
        assert((a + w).last() == w.last());
        assert(!is_whitespace(w.last()));
        assert((a + w)[(a + w).len() - 2] == w[w.len() - 2]);
        assert(!is_whitespace(w[w.len() - 2]));
        assert(v.push(w.last()) =~= w);
    }
}

/// A command joined back into one string (`to_language_configs`) splits into
/// the same binary and args again (`from_config`), whenever each of them is a
/// non-empty word without whitespace.
pub proof fn law_command_round_trip(c: Seq<char>, args: Seq<Seq<char>>)
    requires
        is_word(c),
        forall|i: int| 0 <= i < args.len() ==> is_word(#[trigger] args[i]),
    ensures
        command_of(join_command(c, args)) == Some((c, args)),
    decreases args.len(),
{
    lemma_join_words(c, args);
    assert((seq![c] + args).drop_first() =~= args);
}

proof fn lemma_join_words(c: Seq<char>, args: Seq<Seq<char>>)
    requires
        is_word(c),
        forall|i: int| 0 <= i < args.len() ==> is_word(#[trigger] args[i]),
    ensures
        words(join_command(c, args)) == seq![c] + args,
    decreases args.len(),
{
    reveal_strlit(" ");
    if args.len() == 0 {
        lemma_words_after_space(Seq::empty(), c);
        assert(Seq::<char>::empty() + c =~= c);
        assert(seq![c] + args =~= seq![c]);
    } else {
        let prev = join_command(c, args.drop_last());
        lemma_join_words(c, args.drop_last());
        let a = prev + " "@;
        assert(a.drop_last() =~= prev);
        assert(is_whitespace(a.last()));
        assert(words(a) == words(prev));
        assert(is_word(args.last()));
        lemma_words_after_space(a, args.last());
        assert(seq![c] + args =~= (seq![c] + args.drop_last()).push(args.last()));
    }
}

} // verus!
