//! Application state: panels, focus, tabs, the git and search panels, dialogs,
//! menus and the quickbar.
use vstd::prelude::*;
use vstd::string::*;

use crate::buffer::{display_name_of, Buffer, Cursor};
use crate::filetree::FileTree;
use crate::git::{CommitDiff, CommitRow, GitCommit, GitEntry};
use crate::lsp::{CompletionItem, Severity};
use crate::text::{copy_str, lowercase_of, to_lowercase};
use crate::text_input::TextInputState;

verus! {

/// Left activity bar panels.
#[derive(Clone, Copy, Debug, PartialEq, Eq, Structural)]
pub enum Panel {
    Files,
    Search,
    Git,
    Extensions,
    Themes,
    Settings,
}

pub open spec fn panel_title(p: Panel) -> Seq<char> {
    match p {
        Panel::Files => "EXPLORER"@,
        Panel::Search => "SEARCH"@,
        Panel::Git => "SOURCE CONTROL"@,
        Panel::Extensions => "EXTENSIONS"@,
        Panel::Themes => "THEMES"@,
        Panel::Settings => "SETTINGS"@,
    }
}

impl Panel {
    /// Every panel, top to bottom.
    pub fn all() -> (v: Vec<Panel>)
        ensures
            v@ == seq![Panel::Files, Panel::Search, Panel::Git, Panel::Extensions, Panel::Themes, Panel::Settings],
    {
        vec![Panel::Files, Panel::Search, Panel::Git, Panel::Extensions, Panel::Themes, Panel::Settings]
    }

    /// The Nerd Font glyph of the panel.
    pub fn icon(&self) -> (s: &'static str)
        ensures
            s@ == match *self {
                Panel::Files => "\u{f4a5}"@,
                Panel::Search => "\u{f002}"@,
                Panel::Git => "\u{f419}"@,
                Panel::Extensions => "\u{f12e}"@,
                Panel::Themes => "\u{f1fc}"@,
                Panel::Settings => "\u{f013}"@,
            },
    {
        match self {
            Panel::Files => "\u{f4a5}",
            Panel::Search => "\u{f002}",
            Panel::Git => "\u{f419}",
            Panel::Extensions => "\u{f12e}",
            Panel::Themes => "\u{f1fc}",
            Panel::Settings => "\u{f013}",
        }
    }

    /// A three-letter stand-in for terminals without the icon font.
    pub fn ascii_icon(&self) -> (s: &'static str)
        ensures
            s@ == match *self {
                Panel::Files => "Fil"@,
                Panel::Search => "Src"@,
                Panel::Git => "Git"@,
                Panel::Extensions => "Ext"@,
                Panel::Themes => "Thm"@,
                Panel::Settings => "Set"@,
            },
    {
        match self {
            Panel::Files => "Fil",
            Panel::Search => "Src",
            Panel::Git => "Git",
            Panel::Extensions => "Ext",
            Panel::Themes => "Thm",
            Panel::Settings => "Set",
        }
    }

    pub fn title(&self) -> (s: &'static str)
        ensures
            s@ == panel_title(*self),
    {
        match self {
            Panel::Files => "EXPLORER",
            Panel::Search => "SEARCH",
            Panel::Git => "SOURCE CONTROL",
            Panel::Extensions => "EXTENSIONS",
            Panel::Themes => "THEMES",
            Panel::Settings => "SETTINGS",
        }
    }
}

/// Editor preferences applied at save time.
pub struct SettingsState {
    /// Master switch: run the enabled format actions when saving.
    pub format_on_save: bool,
    /// Strip trailing spaces/tabs from each line on save.
    pub trim_trailing_whitespace: bool,
    /// Ensure the file ends with a single newline on save.
    pub insert_final_newline: bool,
    /// Show diagnostics inline at the end of their line.
    pub inline_diagnostics: bool,
}

impl Default for SettingsState {
    fn default() -> (s: Self)
        ensures
            !s.format_on_save,
            s.trim_trailing_whitespace,
            s.insert_final_newline,
            s.inline_diagnostics,
    {
        SettingsState {
            format_on_save: false,
            trim_trailing_whitespace: true,
            insert_final_newline: true,
            inline_diagnostics: true,
        }
    }
}

/// State of the theme picker panel.
pub struct ThemesState {
    /// Names of the loaded themes.
    pub names: Vec<String>,
    /// Index of the selected theme.
    pub selected: usize,
}

impl ThemesState {
    /// The picker over `names`, selecting `current` (the first theme when it is
    /// not among them).
    pub fn with_names(names: Vec<String>, current: &str) -> (t: ThemesState)
        ensures
            t.names@ == names@,
            (exists|i: int| 0 <= i < names@.len() && names@[i]@ == current@) ==> (
                t.selected < names@.len() && names@[t.selected as int]@ == current@
                && forall|j: int| 0 <= j < t.selected ==> names@[j]@ != current@),
            !(exists|i: int| 0 <= i < names@.len() && names@[i]@ == current@) ==> t.selected == 0,
    {
        let n = names.len();
        let mut i: usize = 0;
        while i < n
            invariant
                n == names@.len(),
                i <= n,
                forall|j: int| 0 <= j < i ==> names@[j]@ != current@,
            decreases n - i,
        {
            if crate::text::str_eq(names[i].as_str(), current) {
                return ThemesState { names, selected: i };
            }
            i += 1;
        }
        ThemesState { names, selected: 0 }
    }
}

/// The target that keyboard events are routed to.
#[derive(Clone, Copy, Debug, PartialEq, Eq, Structural)]
pub enum Focus {
    Editor,
    Terminal,
    Sidebar,
    SearchInput,
    /// The commit message input in the Git panel.
    GitCommit,
    /// The in-editor find/replace widget.
    Find,
}

/// Which input field of the in-editor find widget is active.
#[derive(Clone, Copy, Debug, PartialEq, Eq, Structural)]
pub enum FindField {
    Query,
    Replace,
}

impl Default for FindField {
    fn default() -> (f: Self)
        ensures
            f == FindField::Query,
    {
        FindField::Query
    }
}

/// In-editor find / find-and-replace widget.
pub struct FindState {
    pub open: bool,
    /// Whether the replace row is shown.
    pub replace_mode: bool,
    pub query: TextInputState,
    pub replace: TextInputState,
    pub field: FindField,
    /// Match ranges in the active buffer, as [start, end) character indices.
    pub matches: Vec<(usize, usize)>,
    /// Index of the current match within `matches`.
    pub current: Option<usize>,
}

impl Default for FindState {
    fn default() -> (f: Self)
        ensures
            !f.open,
            !f.replace_mode,
            f.query@ == (Seq::<char>::empty(), 0nat),
            f.replace@ == (Seq::<char>::empty(), 0nat),
            f.field == FindField::Query,
            f.matches@.len() == 0,
            f.current is None,
    {
        FindState {
            open: false,
            replace_mode: false,
            query: TextInputState::new(),
            replace: TextInputState::new(),
            field: FindField::Query,
            matches: Vec::new(),
            current: None,
        }
    }
}

/// "cur/total" with `cur` 1-based and 0 when there is no current match.
pub open spec fn count_label_of(current: Option<usize>, total: nat) -> Seq<char> {
    let cur: nat = match current {
        Some(i) => (i + 1) as nat,
        None => 0,
    };
    crate::num::dec(cur) + "/"@ + crate::num::dec(total)
}

impl FindState {
    /// Tab between the find and replace fields; only while the replace row is shown.
    pub fn toggle_field(&mut self)
        ensures
            final(self).field == if old(self).replace_mode {
                match old(self).field {
                    FindField::Query => FindField::Replace,
                    FindField::Replace => FindField::Query,
                }
            } else {
                old(self).field
            },
            final(self).open == old(self).open,
            final(self).replace_mode == old(self).replace_mode,
            final(self).query@ == old(self).query@,
            final(self).replace@ == old(self).replace@,
            final(self).matches@ == old(self).matches@,
            final(self).current == old(self).current,
    {
        if self.replace_mode {
            self.field = match self.field {
                FindField::Query => FindField::Replace,
                FindField::Replace => FindField::Query,
            };
        }
    }

    /// "cur/total" indicator (1-based); "0/0" when there are no matches.
    pub fn count_label(&self) -> (s: String)
        requires
            self.current matches Some(i) ==> i < usize::MAX,
        ensures
            s@ == count_label_of(self.current, self.matches@.len()),
    {
        let total = self.matches.len();
        let cur: u64 = match self.current {
            Some(i) => i as u64 + 1,
            None => 0,
        };
        let mut s = crate::num::u64_to_string(cur);
        s.append("/");
        let t = crate::num::u64_to_string(total as u64);
        s.append(t.as_str());
        s
    }
}

/// Mouse drag target (panel resizing / text selection).
#[derive(Clone, Copy, Debug, PartialEq, Eq, Structural)]
pub enum DragTarget {
    SidebarBorder,
    TerminalBorder,
    EditorSelect,
    Scrollbar,
    TerminalSelect,
    TerminalScrollbar,
}

pub struct Tab {
    pub buffer: Buffer,
    /// The file's content at git HEAD, for the change gutter.
    pub head_text: Option<String>,
    /// Opened from the Git panel as a diff: changed lines get a colored background.
    pub diff_mode: bool,
    /// Set for files that could not be opened: the editor shows this message
    /// instead of the buffer, and editing is disabled.
    pub notice: Option<String>,
    /// Tab bar label override, for tabs that are not a file on disk.
    pub label: Option<String>,
    /// Generated content that must never be edited or saved.
    pub read_only: bool,
    /// What each buffer line of a commit's diff view is; empty for a normal file.
    pub commit_rows: Vec<CommitRow>,
}

/// A copy of a row list.
fn copy_rows(rows: &Vec<CommitRow>) -> (r: Vec<CommitRow>)
    ensures
        r@ == rows@,
{
    let mut r: Vec<CommitRow> = Vec::new();
    let n = rows.len();
    for i in 0..n
        invariant
            n == rows@.len(),
            r@ == rows@.take(i as int),
    {
        r.push(rows[i]);
        assert(rows@.take(i + 1) =~= rows@.take(i as int).push(rows@[i as int]));
    }
    assert(rows@.take(n as int) =~= rows@);
    r
}

/// The synthetic file name of a commit's diff tab: `<hash>.<ext>`, or the hash.
pub open spec fn commit_tab_name(hash: Seq<char>, ext: Option<String>) -> Seq<char> {
    match ext {
        Some(e) => hash + "."@ + e@,
        None => hash,
    }
}

impl Tab {
    pub fn new(buffer: Buffer) -> (t: Tab)
        ensures
            t.buffer == buffer,
            t.head_text is None,
            !t.diff_mode,
            t.notice is None,
            t.label is None,
            !t.read_only,
            t.commit_rows@.len() == 0,
    {
        Tab {
            buffer,
            head_text: None,
            diff_mode: false,
            notice: None,
            label: None,
            read_only: false,
            commit_rows: Vec::new(),
        }
    }

    /// A read-only diff tab for a history commit, titled "<hash> diff": the
    /// commit's side is the buffer and the parent's side its "HEAD" text, under
    /// a synthetic `<hash>.<ext>` path that only picks the syntax.
    pub fn commit_diff(hash: &str, diff: &CommitDiff) -> (t: Tab)
        ensures
            t.buffer.path is Some,
            t.buffer.path.unwrap()@ == commit_tab_name(hash@, diff.syntax_ext),
            t.buffer.text@ == diff.new@,
            !t.buffer.dirty,
            t.head_text is Some,
            t.head_text.unwrap()@ == diff.old@,
            t.commit_rows@ == diff.rows@,
            t.diff_mode,
            t.label is Some,
            t.label.unwrap()@ == hash@ + " diff"@,
            t.read_only,
            t.notice is None,
    {
        let mut name = copy_str(hash);
        match &diff.syntax_ext {
            Some(ext) => {
                name.append(".");
                name.append(ext.as_str());
            },
            None => {},
        }
        let buffer = Buffer::new(Some(name), diff.new.as_str());
        let mut label = copy_str(hash);
        label.append(" diff");
        Tab {
            buffer,
            head_text: Some(copy_str(diff.old.as_str())),
            diff_mode: true,
            notice: None,
            label: Some(label),
            read_only: true,
            commit_rows: copy_rows(&diff.rows),
        }
    }

    /// A read-only tab that just shows a message (binary / unreadable file).
    pub fn notice(path: String, message: String) -> (t: Tab)
        ensures
            t.buffer.path == Some(path),
            t.buffer.text@ == Seq::<char>::empty(),
            t.notice == Some(message),
            t.head_text is None,
            !t.diff_mode,
            t.label is None,
            !t.read_only,
            t.commit_rows@.len() == 0,
    {
        proof {
            reveal_strlit("");
        }
        let mut t = Tab::new(Buffer::new(Some(path), ""));
        t.notice = Some(message);
        t
    }

    /// Tab bar label: the label override, else the file name, with a " (diff)"
    /// suffix for diff-mode tabs.
    pub fn title(&self) -> (s: String)
        ensures
            s@ == tab_title(*self),
    {
        match &self.label {
            Some(l) => copy_str(l.as_str()),
            None => {
                let mut name = self.buffer.display_name();
                if self.diff_mode {
                    name.append(" (diff)");
                }
                name
            },
        }
    }
}

/// A tab's label: the label override, else the file name, with " (diff)"
/// after it for a diff-mode tab.
pub open spec fn tab_title(t: Tab) -> Seq<char> {
    match t.label {
        Some(l) => l@,
        None => if t.diff_mode {
            display_name_of(t.buffer.path) + " (diff)"@
        } else {
            display_name_of(t.buffer.path)
        },
    }
}

/// The active input field in the search panel.
#[derive(Clone, Copy, Debug, PartialEq, Eq, Structural)]
pub enum SearchField {
    Query,
    Replace,
}

impl Default for SearchField {
    fn default() -> (f: Self)
        ensures
            f == SearchField::Query,
    {
        SearchField::Query
    }
}

/// One search hit: the file, its workspace-relative path, the 1-based line
/// number and the line's text.
#[derive(Clone, Debug)]
pub struct SearchMatch {
    pub path: String,
    pub rel: String,
    pub line_no: usize,
    pub line: String,
}

pub struct SearchState {
    pub query: TextInputState,
    pub replace: TextInputState,
    /// Interpret the query as a regex.
    pub use_regex: bool,
    /// Case-sensitive matching (default: case-insensitive).
    pub match_case: bool,
    /// Search ignored and hidden files too.
    pub search_hidden: bool,
    /// Whether the replace row is shown.
    pub replace_mode: bool,
    /// Which field keyboard input goes to.
    pub field: SearchField,
    pub results: Vec<SearchMatch>,
    pub selected: usize,
}

impl Default for SearchState {
    fn default() -> (s: Self)
        ensures
            s.query@ == (Seq::<char>::empty(), 0nat),
            s.replace@ == (Seq::<char>::empty(), 0nat),
            !s.use_regex,
            !s.match_case,
            !s.search_hidden,
            !s.replace_mode,
            s.field == SearchField::Query,
            s.results@.len() == 0,
            s.selected == 0,
    {
        SearchState {
            query: TextInputState::new(),
            replace: TextInputState::new(),
            use_regex: false,
            match_case: false,
            search_hidden: false,
            replace_mode: false,
            field: SearchField::Query,
            results: Vec::new(),
            selected: 0,
        }
    }
}

/// What submitting the search panel asks for.
#[derive(Clone, Debug, PartialEq, Eq)]
pub enum SearchRequest {
    /// Search the workspace for the query.
    Search { query: String, use_regex: bool, match_case: bool, search_hidden: bool },
    /// Replace the query with `replace` across the workspace.
    Replace { query: String, replace: String, use_regex: bool, match_case: bool, search_hidden: bool },
    /// Replace the query with `replace` on one line of one file.
    ReplaceLine { path: String, line_no: usize, query: String, replace: String, use_regex: bool, match_case: bool },
}

impl SearchState {
    /// "Replace All": a workspace-wide replace; nothing for an empty query.
    pub fn replace_all_request(&self) -> (r: Option<SearchRequest>)
        ensures
            self.query@.0.len() == 0 <==> r is None,
            r matches Some(req) ==> req matches SearchRequest::Replace { query, replace, use_regex, match_case, search_hidden }
                && query@ == self.query@.0 && replace@ == self.replace@.0 && use_regex == self.use_regex
                && match_case == self.match_case && search_hidden == self.search_hidden,
    {
        let q = self.query.content();
        if q.is_empty() {
            return None;
        }
        Some(SearchRequest::Replace {
            query: crate::text::copy_str(q),
            replace: crate::text::copy_str(self.replace.content()),
            use_regex: self.use_regex,
            match_case: self.match_case,
            search_hidden: self.search_hidden,
        })
    }

    /// "Replace" on a result: a replace on the selected result's line only;
    /// nothing for an empty query or without a selected result.
    pub fn replace_line_request(&self) -> (r: Option<SearchRequest>)
        ensures
            (self.query@.0.len() == 0 || self.selected >= self.results@.len()) <==> r is None,
            r matches Some(req) ==> req matches SearchRequest::ReplaceLine { path, line_no, query, replace, use_regex, match_case }
                && path@ == self.results@[self.selected as int].path@
                && line_no == self.results@[self.selected as int].line_no
                && query@ == self.query@.0 && replace@ == self.replace@.0 && use_regex == self.use_regex
                && match_case == self.match_case,
    {
        let q = self.query.content();
        if q.is_empty() || self.selected >= self.results.len() {
            return None;
        }
        let m = &self.results[self.selected];
        Some(SearchRequest::ReplaceLine {
            path: crate::text::copy_str(m.path.as_str()),
            line_no: m.line_no,
            query: crate::text::copy_str(q),
            replace: crate::text::copy_str(self.replace.content()),
            use_regex: self.use_regex,
            match_case: self.match_case,
        })
    }
}

impl SearchState {
    /// Tab between the query and replace fields; with the replace row hidden
    /// there is nothing to switch to and the query keeps the focus.
    pub fn toggle_field(&mut self)
        ensures
            final(self).field == if old(self).replace_mode {
                match old(self).field {
                    SearchField::Query => SearchField::Replace,
                    SearchField::Replace => SearchField::Query,
                }
            } else {
                old(self).field
            },
            final(self).replace_mode == old(self).replace_mode,
            final(self).query@ == old(self).query@,
            final(self).replace@ == old(self).replace@,
            final(self).use_regex == old(self).use_regex,
            final(self).match_case == old(self).match_case,
            final(self).search_hidden == old(self).search_hidden,
            final(self).results@ == old(self).results@,
            final(self).selected == old(self).selected,
    {
        if self.replace_mode {
            self.field = match self.field {
                SearchField::Query => SearchField::Replace,
                SearchField::Replace => SearchField::Query,
            };
        }
    }

    /// Enter in the panel: nothing for an empty query; a search from the query
    /// field; a workspace-wide replace from the replace field.
    pub fn submit(&self) -> (r: Option<SearchRequest>)
        ensures
            self.query@.0.len() == 0 <==> r is None,
            r matches Some(SearchRequest::Search { query, use_regex, match_case, search_hidden }) ==> {
                &&& self.field == SearchField::Query
                &&& query@ == self.query@.0
                &&& use_regex == self.use_regex
                &&& match_case == self.match_case
                &&& search_hidden == self.search_hidden
            },
            r matches Some(SearchRequest::Replace { query, replace, use_regex, match_case, search_hidden }) ==> {
                &&& self.field == SearchField::Replace
                &&& query@ == self.query@.0
                &&& replace@ == self.replace@.0
                &&& use_regex == self.use_regex
                &&& match_case == self.match_case
                &&& search_hidden == self.search_hidden
            },
    {
        let query = self.query.content();
        if query.is_empty() {
            return None;
        }
        match self.field {
            SearchField::Query => Some(SearchRequest::Search {
                query: crate::text::copy_str(query),
                use_regex: self.use_regex,
                match_case: self.match_case,
                search_hidden: self.search_hidden,
            }),
            SearchField::Replace => Some(SearchRequest::Replace {
                query: crate::text::copy_str(query),
                replace: crate::text::copy_str(self.replace.content()),
                use_regex: self.use_regex,
                match_case: self.match_case,
                search_hidden: self.search_hidden,
            }),
        }
    }
}

/// Keyboard focus zone inside the Git panel, cycled with Tab.
#[derive(Clone, Copy, Debug, PartialEq, Eq, Structural)]
pub enum GitZone {
    /// The commit message box.
    Message,
    Fetch,
    Pull,
    Push,
    Uncommit,
    Commit,
    /// The change / history list at the bottom of the panel.
    Files,
}

impl Default for GitZone {
    fn default() -> (z: Self)
        ensures
            z == GitZone::Files,
    {
        GitZone::Files
    }
}

/// The place of a zone in the Tab order, top to bottom.
pub open spec fn zone_index(z: GitZone) -> int {
    match z {
        GitZone::Message => 0,
        GitZone::Fetch => 1,
        GitZone::Pull => 2,
        GitZone::Push => 3,
        GitZone::Uncommit => 4,
        GitZone::Commit => 5,
        GitZone::Files => 6,
    }
}

pub open spec fn zone_at(i: int) -> GitZone {
    if i == 0 {
        GitZone::Message
    } else if i == 1 {
        GitZone::Fetch
    } else if i == 2 {
        GitZone::Pull
    } else if i == 3 {
        GitZone::Push
    } else if i == 4 {
        GitZone::Uncommit
    } else if i == 5 {
        GitZone::Commit
    } else {
        GitZone::Files
    }
}

/// `delta` places from `z` through the Tab order, wrapping at both ends.
pub open spec fn zone_step(z: GitZone, delta: int) -> GitZone {
    zone_at((zone_index(z) + delta) % 7)
}

/// Stepping back undoes stepping forward, from every zone and by any distance.
pub proof fn law_zone_step_inverse(z: GitZone, delta: int)
    ensures
        zone_step(zone_step(z, delta), -delta) == z,
{
    let i = zone_index(z);
    let j = (i + delta) % 7;
    vstd::arithmetic::div_mod::lemma_add_mod_noop(i + delta, -delta, 7);
    vstd::arithmetic::div_mod::lemma_add_mod_noop(j, -delta, 7);
    vstd::arithmetic::div_mod::lemma_mod_twice(i + delta, 7);
    assert(0 <= j < 7);
    assert(zone_index(zone_at(j)) == j);
    assert((i + delta + -delta) % 7 == i);
}

impl GitZone {
    /// Steps `delta` places through the Tab order, wrapping at both ends.
    pub fn step(self, delta: isize) -> (z: GitZone)
        ensures
            z == zone_step(self, delta as int),
    {
        let cur: usize = match self {
            GitZone::Message => 0,
            GitZone::Fetch => 1,
            GitZone::Pull => 2,
            GitZone::Push => 3,
            GitZone::Uncommit => 4,
            GitZone::Commit => 5,
            GitZone::Files => 6,
        };
        let r: usize = if delta >= 0 {
            let d = (delta as usize) % 7;
            proof {
                vstd::arithmetic::div_mod::lemma_fundamental_div_mod(delta as int, 7);
                vstd::arithmetic::div_mod::lemma_mod_multiples_vanish(delta / 7, cur + d, 7);
                assert(cur + delta == 7 * (delta / 7) + (cur + d));
            }
            (cur + d) % 7
        } else {
            let k = ((-(delta + 1)) as usize) % 7;
            proof {
                let m = -(delta + 1);
                vstd::arithmetic::div_mod::lemma_fundamental_div_mod(m, 7);
                vstd::arithmetic::div_mod::lemma_mod_multiples_vanish(-(m / 7) - 1, cur + 6 - k, 7);
                assert(cur + delta == 7 * (-(m / 7) - 1) + (cur + 6 - k));
            }
            (cur + 6 - k) % 7
        };
        match r {
            0 => GitZone::Message,
            1 => GitZone::Fetch,
            2 => GitZone::Pull,
            3 => GitZone::Push,
            4 => GitZone::Uncommit,
            5 => GitZone::Commit,
            _ => GitZone::Files,
        }
    }
}

/// The Git panel's state.
pub struct GitStatus {
    pub branch: Option<String>,
    pub staged: Vec<GitEntry>,
    pub unstaged: Vec<GitEntry>,
    pub is_repo: bool,
    /// Keyboard selection: index into the combined [staged..., unstaged..., history...] list.
    pub selected: usize,
    /// The commit message input box.
    pub commit: TextInputState,
    /// Commits the local branch is ahead of its upstream.
    pub ahead: usize,
    /// Commits the local branch is behind its upstream.
    pub behind: usize,
    /// Whether the current branch has a configured upstream.
    pub has_upstream: bool,
    /// Whether the repository has at least one remote.
    pub has_remote: bool,
    /// Recent commits (newest first).
    pub history: Vec<GitCommit>,
    /// Which part of the panel the keyboard is on.
    pub zone: GitZone,
}

impl Default for GitStatus {
    fn default() -> (g: Self)
        ensures
            g.branch is None,
            g.staged@.len() == 0,
            g.unstaged@.len() == 0,
            !g.is_repo,
            g.selected == 0,
            g.commit@ == (Seq::<char>::empty(), 0nat),
            g.ahead == 0,
            g.behind == 0,
            !g.has_upstream,
            !g.has_remote,
            g.history@.len() == 0,
            g.zone == GitZone::Files,
    {
        GitStatus {
            branch: None,
            staged: Vec::new(),
            unstaged: Vec::new(),
            is_repo: false,
            selected: 0,
            commit: TextInputState::new(),
            ahead: 0,
            behind: 0,
            has_upstream: false,
            has_remote: false,
            history: Vec::new(),
            zone: GitZone::Files,
        }
    }
}

impl GitStatus {
    /// Whether the combined list's length fits in a `usize`.
    pub open spec fn fits(&self) -> bool {
        self.staged@.len() + self.unstaged@.len() + self.history@.len() <= usize::MAX
    }

    /// Number of keyboard-navigable items: the changes, then the history.
    pub fn nav_len(&self) -> (n: usize)
        requires
            self.fits(),
        ensures
            n == self.staged@.len() + self.unstaged@.len() + self.history@.len(),
    {
        self.staged.len() + self.unstaged.len() + self.history.len()
    }

    /// Number of change rows: the combined index where the history starts.
    pub fn changes_len(&self) -> (n: usize)
        requires
            self.fits(),
        ensures
            n == self.staged@.len() + self.unstaged@.len(),
    {
        self.staged.len() + self.unstaged.len()
    }

    /// The history commit at a combined index, or `None` if it names a change row
    /// or nothing.
    pub fn commit_at(&self, idx: usize) -> (r: Option<&GitCommit>)
        requires
            self.fits(),
        ensures
            r is Some <==> self.staged@.len() + self.unstaged@.len() <= idx < self.staged@.len()
                + self.unstaged@.len() + self.history@.len(),
            r is Some ==> *r.unwrap() == self.history@[idx - self.staged@.len() - self.unstaged@.len()],
    {
        let c = self.changes_len();
        if idx < c {
            return None;
        }
        let k = idx - c;
        if k < self.history.len() {
            Some(&self.history[k])
        } else {
            None
        }
    }

    /// Whether there is anything to push: a remote exists and the branch is
    /// ahead of its upstream or not yet published.
    pub fn can_push(&self) -> (b: bool)
        ensures
            b == (self.is_repo && self.branch is Some && self.has_remote && (self.ahead > 0 || !self.has_upstream)),
    {
        self.is_repo && self.branch.is_some() && self.has_remote && (self.ahead > 0 || !self.has_upstream)
    }

    /// Whether the last commit can be undone: it has not been pushed.
    pub fn can_undo_commit(&self) -> (b: bool)
        ensures
            b == (self.is_repo && self.branch is Some && (self.ahead > 0 || !self.has_upstream)),
    {
        self.is_repo && self.branch.is_some() && (self.ahead > 0 || !self.has_upstream)
    }

    /// The change at a combined index and whether it is staged.
    pub fn entry_at(&self, idx: usize) -> (r: Option<(&GitEntry, bool)>)
        ensures
            r is Some <==> idx < self.staged@.len() + self.unstaged@.len(),
            r matches Some((e, staged)) ==> (staged <==> idx < self.staged@.len()) && (idx
                < self.staged@.len() ==> *e == self.staged@[idx as int]) && (idx >= self.staged@.len()
                ==> *e == self.unstaged@[idx - self.staged@.len()]),
    {
        if idx < self.staged.len() {
            Some((&self.staged[idx], true))
        } else {
            let k = idx - self.staged.len();
            if k < self.unstaged.len() {
                Some((&self.unstaged[k], false))
            } else {
                None
            }
        }
    }
}

/// General-purpose modal dialog kind.
#[derive(Clone, Copy, Debug, PartialEq, Eq, Structural)]
pub enum DialogKind {
    /// Confirmation dialog (Yes / No).
    Ask,
    /// Information dialog (OK only).
    Info,
    /// Text input (OK / Cancel).
    Input,
}

/// Action to perform when the dialog is confirmed.
#[derive(Clone, Debug)]
pub enum DialogAction {
    NoAction,
    /// Revert the working-tree change for the given path.
    GitRevert(String),
    /// Create a new file with the entered name inside the given directory.
    NewFile(String),
    /// Create a new directory with the entered name inside the given directory.
    NewFolder(String),
    /// Rename the given path to the entered name (same directory).
    Rename(String),
    /// Delete the given path (recursively for a directory).
    Delete(String),
    /// Close the tab at the given index.
    CloseTab(usize, String),
    /// Overwrite the keybindings file with the defaults.
    ResetKeybindings,
    /// Overwrite the config file with the seeded defaults.
    ResetConfig,
}

/// Modal dialog opened in the center of the screen.
pub struct Dialog {
    pub kind: DialogKind,
    pub title: String,
    pub message: String,
    /// Text entered for the `Input` kind.
    pub input: TextInputState,
    /// Button selection: 0 = confirm, 1 = cancel.
    pub selected: usize,
    pub action: DialogAction,
}

impl Dialog {
    pub fn ask(title: String, message: String, action: DialogAction) -> (d: Dialog)
        ensures
            d.kind == DialogKind::Ask,
            d.title == title,
            d.message == message,
            d.input@ == (Seq::<char>::empty(), 0nat),
            d.selected == 0,
            d.action == action,
    {
        Dialog { kind: DialogKind::Ask, title, message, input: TextInputState::new(), selected: 0, action }
    }

    pub fn info(title: String, message: String) -> (d: Dialog)
        ensures
            d.kind == DialogKind::Info,
            d.title == title,
            d.message == message,
            d.input@ == (Seq::<char>::empty(), 0nat),
            d.selected == 0,
            d.action == DialogAction::NoAction,
    {
        Dialog {
            kind: DialogKind::Info,
            title,
            message,
            input: TextInputState::new(),
            selected: 0,
            action: DialogAction::NoAction,
        }
    }

    /// A text-input dialog prefilled with `initial`, caret at its end.
    pub fn input(title: String, message: String, initial: String, action: DialogAction) -> (d: Dialog)
        ensures
            d.kind == DialogKind::Input,
            d.title == title,
            d.message == message,
            d.input@ == (initial@, initial@.len()),
            d.selected == 0,
            d.action == action,
    {
        let mut input = TextInputState::new();
        input.set_content(initial);
        Dialog { kind: DialogKind::Input, title, message, input, selected: 0, action }
    }
}

/// An entry of the file-tree context menu.
#[derive(Clone, Copy, Debug, PartialEq, Eq, Structural)]
pub enum MenuItem {
    NewFile,
    NewFolder,
    Rename,
    Delete,
}

impl MenuItem {
    /// The items shown for a tree row, in order.
    pub fn all() -> (v: Vec<MenuItem>)
        ensures
            v@ == seq![MenuItem::NewFile, MenuItem::NewFolder, MenuItem::Rename, MenuItem::Delete],
    {
        vec![MenuItem::NewFile, MenuItem::NewFolder, MenuItem::Rename, MenuItem::Delete]
    }

    pub fn label(&self) -> (s: &'static str)
        ensures
            s@ == match *self {
                MenuItem::NewFile => "New File"@,
                MenuItem::NewFolder => "New Folder"@,
                MenuItem::Rename => "Rename"@,
                MenuItem::Delete => "Delete"@,
            },
    {
        match self {
            MenuItem::NewFile => "New File",
            MenuItem::NewFolder => "New Folder",
            MenuItem::Rename => "Rename",
            MenuItem::Delete => "Delete",
        }
    }

    /// The keyboard shortcut for the same action.
    pub fn shortcut(&self) -> (s: &'static str)
        ensures
            s@ == match *self {
                MenuItem::NewFile => "Ctrl+N"@,
                MenuItem::NewFolder => "Alt+Shift+N"@,
                MenuItem::Rename => "F2"@,
                MenuItem::Delete => "Del"@,
            },
    {
        match self {
            MenuItem::NewFile => "Ctrl+N",
            MenuItem::NewFolder => "Alt+Shift+N",
            MenuItem::Rename => "F2",
            MenuItem::Delete => "Del",
        }
    }
}

/// Context menu opened by right-clicking a file-tree row.
pub struct ContextMenu {
    /// The visible tree row the menu was opened on.
    pub row: usize,
    pub selected: usize,
    /// Top-left corner requested by the click.
    pub x: u16,
    pub y: u16,
}

impl ContextMenu {
    pub fn new(row: usize, x: u16, y: u16) -> (m: ContextMenu)
        ensures
            m.row == row,
            m.selected == 0,
            m.x == x,
            m.y == y,
    {
        ContextMenu { row, selected: 0, x, y }
    }
}

pub struct LayoutState {
    pub sidebar_width: u16,
    pub terminal_height: u16,
    pub sidebar_open: bool,
    pub terminal_open: bool,
}

impl Default for LayoutState {
    fn default() -> (l: Self)
        ensures
            l.sidebar_width == 30,
            l.terminal_height == 12,
            l.sidebar_open,
            !l.terminal_open,
    {
        LayoutState { sidebar_width: 30, terminal_height: 12, sidebar_open: true, terminal_open: false }
    }
}

/// Which language servers are starting up and which have finished the
/// `initialize` handshake, by language id.
pub struct LspState {
    pub starting: Vec<String>,
    pub initialized: Vec<String>,
}

impl Default for LspState {
    fn default() -> (l: Self)
        ensures
            l.starting@.len() == 0,
            l.initialized@.len() == 0,
    {
        LspState { starting: Vec::new(), initialized: Vec::new() }
    }
}

/// The open completion popup.
pub struct CompletionState {
    pub items: Vec<CompletionItem>,
    pub selected: usize,
    /// Start of the identifier prefix being completed.
    pub anchor: Cursor,
    /// The tab the popup belongs to.
    pub tab_index: usize,
}

/// An outstanding format request: whether to write the file once its edits apply.
pub struct PendingFormat {
    pub save_after: bool,
}

/// A diagnostic in buffer character coordinates.
#[derive(Clone, Debug)]
pub struct Diagnostic {
    pub line: usize,
    pub col_start: usize,
    pub col_end: usize,
    pub severity: Severity,
    pub message: String,
}

/// A selectable entry in the quickbar (command palette).
#[derive(Clone, Debug)]
pub enum QuickbarItem {
    /// Open this file; `rel` is its workspace-relative path.
    File { path: String, rel: String },
    /// Reveal this directory in the file sidebar.
    Dir { path: String, rel: String },
    /// Create a new file inside the workspace root.
    NewFile,
    /// Create a new folder inside the workspace root.
    NewFolder,
    /// Open the given sidebar panel.
    Panel(Panel),
}

pub open spec fn quickbar_label(item: QuickbarItem) -> Seq<char> {
    match item {
        QuickbarItem::File { rel, .. } => rel@,
        QuickbarItem::Dir { rel, .. } => rel@,
        QuickbarItem::NewFile => "New File"@,
        QuickbarItem::NewFolder => "New Folder"@,
        QuickbarItem::Panel(p) => "Open panel: "@ + panel_title(p),
    }
}

impl QuickbarItem {
    /// A one-char marker for the kind of entry.
    pub fn marker(&self) -> (c: char)
        ensures
            c == match *self {
                QuickbarItem::File { .. } => 'F',
                QuickbarItem::Dir { .. } => 'D',
                QuickbarItem::NewFile => '+',
                QuickbarItem::NewFolder => '+',
                QuickbarItem::Panel(_) => '>',
            },
    {
        match self {
            QuickbarItem::File { .. } => 'F',
            QuickbarItem::Dir { .. } => 'D',
            QuickbarItem::NewFile => '+',
            QuickbarItem::NewFolder => '+',
            QuickbarItem::Panel(_) => '>',
        }
    }

    /// The label shown for the entry.
    pub fn label(&self) -> (s: String)
        ensures
            s@ == quickbar_label(*self),
    {
        match self {
            QuickbarItem::File { rel, .. } => copy_str(rel.as_str()),
            QuickbarItem::Dir { rel, .. } => copy_str(rel.as_str()),
            QuickbarItem::NewFile => String::from_str("New File"),
            QuickbarItem::NewFolder => String::from_str("New Folder"),
            QuickbarItem::Panel(p) => {
                let mut s = String::from_str("Open panel: ");
                s.append(p.title());
                s
            },
        }
    }

    /// The text the query filter matches: the label, lowercased.
    pub fn filter_text(&self) -> (s: String)
        ensures
            s@ == lowercase_of(quickbar_label(*self)),
    {
        let l = self.label();
        to_lowercase(l.as_str())
    }
}

/// The quickbar overlay: a query input and the filtered entries below it.
pub struct QuickbarState {
    pub input: TextInputState,
    /// Every workspace file, once listed.
    pub files: Vec<String>,
    /// Whether the workspace file listing has arrived.
    pub files_loaded: bool,
    /// Candidate entries, filtered to the current query.
    pub items: Vec<QuickbarItem>,
    /// Index of the highlighted row within `items`.
    pub selected: usize,
}

impl QuickbarState {
    pub fn new() -> (q: QuickbarState)
        ensures
            q.input@ == (Seq::<char>::empty(), 0nat),
            q.files@.len() == 0,
            !q.files_loaded,
            q.items@.len() == 0,
            q.selected == 0,
    {
        QuickbarState {
            input: TextInputState::new(),
            files: Vec::new(),
            files_loaded: false,
            items: Vec::new(),
            selected: 0,
        }
    }
}

pub struct Sidebar {
    pub active: Panel,
    pub files: FileTree,
    pub git: GitStatus,
    pub search: SearchState,
    pub themes: ThemesState,
    pub settings: SettingsState,
    /// Selected row in the Settings panel.
    pub settings_selected: usize,
}

#[verifier::external_type_specification]
#[verifier::external_body]
pub struct ExInstant(std::time::Instant);

/// `Instant::elapsed`, in whole milliseconds. It depends on the clock, so
/// nothing is stated of it.
#[verifier::external_body]
fn elapsed_millis(t: &std::time::Instant) -> (ms: u128) {
    t.elapsed().as_millis()
}

/// How long a toast stays on screen, in milliseconds.
pub const TOAST_DURATION_MS: u128 = 2500;

/// A transient bottom-center notification.
pub struct Toast {
    pub message: String,
    /// When the toast was raised; it is shown for `TOAST_DURATION_MS`.
    pub shown_at: std::time::Instant,
}

/// Whether a toast raised `elapsed_ms` milliseconds ago is due to go.
pub fn toast_expired_after(elapsed_ms: u128) -> (b: bool)
    ensures
        b == (elapsed_ms >= TOAST_DURATION_MS),
{
    elapsed_ms >= TOAST_DURATION_MS
}

impl Toast {
    /// Whether the toast has been on screen for its full duration; the time
    /// comes from the clock, and the decision is `toast_expired_after`'s.
    pub fn is_expired(&self) -> (b: bool) {
        let ms = elapsed_millis(&self.shown_at);
        toast_expired_after(ms)
    }
}

/// One visual row of the editor: a real buffer line, or a removed line woven
/// into a diff tab.
#[derive(Clone, Debug)]
pub enum DiffRow {
    Real(usize),
    Deleted(String),
}

/// The panel a session file names by its variant name ("Files", "Search", ...).
pub open spec fn panel_named(name: Seq<char>) -> Option<Panel> {
    if name == "Files"@ {
        Some(Panel::Files)
    } else if name == "Search"@ {
        Some(Panel::Search)
    } else if name == "Git"@ {
        Some(Panel::Git)
    } else if name == "Extensions"@ {
        Some(Panel::Extensions)
    } else if name == "Themes"@ {
        Some(Panel::Themes)
    } else if name == "Settings"@ {
        Some(Panel::Settings)
    } else {
        None
    }
}

/// Reads back a panel written by its variant name.
pub fn parse_panel(name: &str) -> (r: Option<Panel>)
    ensures
        r == panel_named(name@),
{
    if crate::text::str_eq(name, "Files") {
        Some(Panel::Files)
    } else if crate::text::str_eq(name, "Search") {
        Some(Panel::Search)
    } else if crate::text::str_eq(name, "Git") {
        Some(Panel::Git)
    } else if crate::text::str_eq(name, "Extensions") {
        Some(Panel::Extensions)
    } else if crate::text::str_eq(name, "Themes") {
        Some(Panel::Themes)
    } else if crate::text::str_eq(name, "Settings") {
        Some(Panel::Settings)
    } else {
        None
    }
}

/// A quickbar entry as plain values.
pub ghost enum QItemV {
    File(Seq<char>, Seq<char>),
    Dir(Seq<char>, Seq<char>),
    NewFile,
    NewFolder,
    Panel(Panel),
}

pub open spec fn qitem_view(i: QuickbarItem) -> QItemV {
    match i {
        QuickbarItem::File { path, rel } => QItemV::File(path@, rel@),
        QuickbarItem::Dir { path, rel } => QItemV::Dir(path@, rel@),
        QuickbarItem::NewFile => QItemV::NewFile,
        QuickbarItem::NewFolder => QItemV::NewFolder,
        QuickbarItem::Panel(p) => QItemV::Panel(p),
    }
}

pub open spec fn qlabel(v: QItemV) -> Seq<char> {
    match v {
        QItemV::File(_, rel) => rel,
        QItemV::Dir(_, rel) => rel,
        QItemV::NewFile => "New File"@,
        QItemV::NewFolder => "New Folder"@,
        QItemV::Panel(p) => "Open panel: "@ + panel_title(p),
    }
}

/// Whether an entry is kept for a (lowercased, trimmed) query: every entry
/// for an empty one, else those whose lowercased label contains it.
pub open spec fn kept_for(v: QItemV, query: Seq<char>) -> bool {
    query.len() == 0 || crate::git::contains_text(lowercase_of(qlabel(v)), query)
}

pub open spec fn keep_items(vs: Seq<QItemV>, query: Seq<char>) -> Seq<QItemV>
    decreases vs.len(),
{
    if vs.len() == 0 {
        Seq::empty()
    } else {
        let prev = keep_items(vs.drop_last(), query);
        if kept_for(vs.last(), query) { prev.push(vs.last()) } else { prev }
    }
}

/// The command entries, in the order they are offered.
pub open spec fn command_items() -> Seq<QItemV> {
    seq![QItemV::NewFile, QItemV::NewFolder, QItemV::Panel(Panel::Files), QItemV::Panel(Panel::Search),
        QItemV::Panel(Panel::Git), QItemV::Panel(Panel::Extensions), QItemV::Panel(Panel::Themes),
        QItemV::Panel(Panel::Settings)]
}

/// The file entries: each workspace file with its path relative to the root
/// (itself when it is not under the root).
pub open spec fn file_items(files: Seq<String>, root: Seq<char>) -> Seq<QItemV> {
    files.map_values(|f: String| QItemV::File(f@, match crate::paths::strip_prefix_of(f@, root) {
        Some(r) => r,
        None => f@,
    }))
}

/// The entries as plain values.
pub open spec fn items_view(items: Seq<QuickbarItem>) -> Seq<QItemV> {
    items.map_values(|i: QuickbarItem| qitem_view(i))
}

/// The most entries the palette shows.
pub const QUICKBAR_MAX: usize = 100;

/// The entries offered for a query: the matching commands, then the matching
/// files, at most `QUICKBAR_MAX` of them.
pub open spec fn offered(files: Seq<String>, root: Seq<char>, query: Seq<char>) -> Seq<QItemV> {
    let all = keep_items(command_items(), query) + keep_items(file_items(files, root), query);
    if all.len() > QUICKBAR_MAX { all.take(QUICKBAR_MAX as int) } else { all }
}

impl QuickbarState {
    /// Rebuilds the entries from the current query (trimmed, lowercased) and
    /// keeps the selection on the list.
    pub fn rebuild_items(&mut self, root: &str)
        ensures
            ({
                let q = lowercase_of(crate::split::trim(old(self).input@.0));
                &&& items_view(final(self).items@) == offered(old(self).files@, root@, q)
                &&& final(self).selected == (if old(self).selected < sat_len(final(self).items@.len()) { old(self).selected as int } else { sat_len(final(self).items@.len()) })
                &&& final(self).files == old(self).files
                &&& final(self).files_loaded == old(self).files_loaded
                &&& final(self).input == old(self).input
            }),
    {
        let trimmed = crate::split::trim_str(self.input.content());
        let query = to_lowercase(trimmed.as_str());
        let mut items: Vec<QuickbarItem> = Vec::new();
        let commands = vec![
            QuickbarItem::NewFile,
            QuickbarItem::NewFolder,
            QuickbarItem::Panel(Panel::Files),
            QuickbarItem::Panel(Panel::Search),
            QuickbarItem::Panel(Panel::Git),
            QuickbarItem::Panel(Panel::Extensions),
            QuickbarItem::Panel(Panel::Themes),
            QuickbarItem::Panel(Panel::Settings),
        ];
        assert(commands@.map_values(|i: QuickbarItem| qitem_view(i)) =~= command_items());
        let ghost cv = command_items();
        let nc = commands.len();
        for k in 0..nc
            invariant
                nc == commands@.len(),
                cv == commands@.map_values(|i: QuickbarItem| qitem_view(i)),
                items@.map_values(|i: QuickbarItem| qitem_view(i)) == keep_items(cv.take(k as int), query@),
        {
            let it = commands[k].clone_item();
            proof {
                assert(cv.take(k + 1).drop_last() =~= cv.take(k as int));
                assert(cv.take(k + 1).last() == qitem_view(it));
            }
            if self.keeps(&it, query.as_str()) {
                let ghost b = items@;
                items.push(it);
                assert(items@.map_values(|i: QuickbarItem| qitem_view(i)) =~= b.map_values(|i: QuickbarItem| qitem_view(i)).push(qitem_view(it)));
            }
        }
        assert(cv.take(nc as int) =~= cv);
        let ghost head = items@.map_values(|i: QuickbarItem| qitem_view(i));
        let ghost fv = file_items(self.files@, root@);
        let nf = self.files.len();
        for k in 0..nf
            invariant
                nf == self.files@.len(),
                fv == file_items(self.files@, root@),
                items@.map_values(|i: QuickbarItem| qitem_view(i)) == head + keep_items(fv.take(k as int), query@),
        {
            let path = &self.files[k];
            let rel = match crate::paths::strip_prefix(path.as_str(), root) {
                Some(r) => r,
                None => copy_str(path.as_str()),
            };
            let it = QuickbarItem::File { path: copy_str(path.as_str()), rel };
            proof {
                assert(fv.take(k + 1).drop_last() =~= fv.take(k as int));
                assert(fv.take(k + 1).last() == qitem_view(it));
            }
            if self.keeps(&it, query.as_str()) {
                let ghost b = items@;
                items.push(it);
                assert(items@.map_values(|i: QuickbarItem| qitem_view(i)) =~= b.map_values(|i: QuickbarItem| qitem_view(i)).push(qitem_view(it)));
            }
        }
        assert(fv.take(nf as int) =~= fv);
        if items.len() > QUICKBAR_MAX {
            items.truncate(QUICKBAR_MAX);
            assert(items@.map_values(|i: QuickbarItem| qitem_view(i)) =~= offered(self.files@, root@, query@));
        }
        assert(items_view(items@) == offered(self.files@, root@, query@));
        let last = if items.len() > 0 { items.len() - 1 } else { 0 };
        let selected = if self.selected < last { self.selected } else { last };
        self.items = items;
        self.selected = selected;
    }

    fn keeps(&self, it: &QuickbarItem, query: &str) -> (b: bool)
        ensures
            b == kept_for(qitem_view(*it), query@),
    {
        if query.is_empty() {
            return true;
        }
        let f = it.filter_text();
        crate::git::contains_str(f.as_str(), query)
    }

    /// Moves the highlight one row up (stopping at the first).
    pub fn select_up(&mut self)
        ensures
            final(self).items == old(self).items,
            final(self).input == old(self).input,
            final(self).files == old(self).files,
            final(self).files_loaded == old(self).files_loaded,
            final(self).selected == (if old(self).items@.len() == 0 {
                old(self).selected as int
            } else {
                vstd::math::min(sat_len(old(self).selected as nat), old(self).items@.len() - 1)
            }),
    {
        let len = self.items.len();
        if len > 0 {
            let up = if self.selected > 0 { self.selected - 1 } else { 0 };
            self.selected = if up < len - 1 { up } else { len - 1 };
        }
    }

    /// Moves the highlight one row down (stopping at the last).
    pub fn select_down(&mut self)
        ensures
            final(self).items == old(self).items,
            final(self).input == old(self).input,
            final(self).files == old(self).files,
            final(self).files_loaded == old(self).files_loaded,
            final(self).selected == (if old(self).selected + 1 < old(self).items@.len() {
                old(self).selected + 1
            } else {
                old(self).selected as int
            }),
    {
        if self.items.len() > 0 && self.selected < self.items.len() - 1 {
            self.selected += 1;
        }
    }
}

/// `n - 1`, or 0 for 0.
pub open spec fn sat_len(n: nat) -> int {
    if n > 0 { n - 1 } else { 0 }
}

impl QuickbarItem {
    /// A copy of the entry.
    pub fn clone_item(&self) -> (r: QuickbarItem)
        ensures
            qitem_view(r) == qitem_view(*self),
    {
        match self {
            QuickbarItem::File { path, rel } => QuickbarItem::File { path: copy_str(path.as_str()), rel: copy_str(rel.as_str()) },
            QuickbarItem::Dir { path, rel } => QuickbarItem::Dir { path: copy_str(path.as_str()), rel: copy_str(rel.as_str()) },
            QuickbarItem::NewFile => QuickbarItem::NewFile,
            QuickbarItem::NewFolder => QuickbarItem::NewFolder,
            QuickbarItem::Panel(p) => QuickbarItem::Panel(*p),
        }
    }
}

} // verus!
