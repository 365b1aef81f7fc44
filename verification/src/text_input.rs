//! Reusable single/multi-line text input state: an owned `String` plus a caret
//! (a char index) and the editing operations over them. Home/End/Up/Down are
//! line-aware, so the same type serves single-line fields and multi-line boxes.
use vstd::prelude::*;

use crate::chars::is_whitespace;
use crate::keys::{KeyCode, KeyEvent};
use crate::text::{chars_of, string_of};

verus! {

/// What a key did to a [`TextInputState`].
#[derive(PartialEq, Eq, Clone, Copy, Debug, Structural)]
pub enum InputOutcome {
    /// The key was not for this input; the caller should handle it.
    Ignored,
    /// The caret moved; content is unchanged.
    Moved,
    /// The content changed.
    Changed,
}

/// Content plus caret. The caret never passes the end of the content.
pub struct TextInputState {
    content: String,
    cursor: usize,
}

// ----- specification -----

/// Start of the line holding char index `i` (`i` already clamped).
pub open spec fn line_start_from(s: Seq<char>, i: int) -> int
    decreases i,
{
    if i <= 0 || i > s.len() {
        if i > s.len() { s.len() as int } else { 0 }
    } else if s[i - 1] == '\n' {
        i
    } else {
        line_start_from(s, i - 1)
    }
}

/// End of the line holding char index `i` (the index of its '\n', or the length).
pub open spec fn line_end_from(s: Seq<char>, i: int) -> int
    decreases s.len() - i,
{
    if i >= s.len() {
        s.len() as int
    } else if i < 0 {
        0
    } else if s[i] == '\n' {
        i
    } else {
        line_end_from(s, i + 1)
    }
}

pub open spec fn clamp_to(at: int, n: int) -> int {
    if at < n { at } else { n }
}

/// Start of the line containing `at`, clamped to the text.
pub open spec fn line_start_of(s: Seq<char>, at: int) -> int {
    line_start_from(s, clamp_to(at, s.len() as int))
}

/// End of the line containing `at`, clamped to the text.
pub open spec fn line_end_of(s: Seq<char>, at: int) -> int {
    line_end_from(s, clamp_to(at, s.len() as int))
}

/// Moving left from `i` over whitespace.
pub open spec fn skip_ws_left(s: Seq<char>, i: int) -> int
    decreases i,
{
    if i > 0 && i <= s.len() && is_whitespace(s[i - 1]) { skip_ws_left(s, i - 1) } else { i }
}

/// Moving left from `i` over non-whitespace.
pub open spec fn skip_word_left(s: Seq<char>, i: int) -> int
    decreases i,
{
    if i > 0 && i <= s.len() && !is_whitespace(s[i - 1]) { skip_word_left(s, i - 1) } else { i }
}

/// Moving right from `i` over whitespace.
pub open spec fn skip_ws_right(s: Seq<char>, i: int) -> int
    decreases s.len() - i,
{
    if 0 <= i < s.len() && is_whitespace(s[i]) { skip_ws_right(s, i + 1) } else { i }
}

/// Moving right from `i` over non-whitespace.
pub open spec fn skip_word_right(s: Seq<char>, i: int) -> int
    decreases s.len() - i,
{
    if 0 <= i < s.len() && !is_whitespace(s[i]) { skip_word_right(s, i + 1) } else { i }
}

/// Caret after one word to the left.
pub open spec fn word_left_of(s: Seq<char>, cur: int) -> int {
    skip_word_left(s, skip_ws_left(s, clamp_to(cur, s.len() as int)))
}

/// Caret after one word to the right.
pub open spec fn word_right_of(s: Seq<char>, cur: int) -> int {
    skip_word_right(s, skip_ws_right(s, clamp_to(cur, s.len() as int)))
}

/// Caret after moving one line up, keeping the column where possible.
pub open spec fn up_of(s: Seq<char>, cur: int) -> int {
    let ls = line_start_of(s, cur);
    if ls == 0 {
        cur
    } else {
        let col = cur - ls;
        let prev_end = ls - 1;
        let prev_start = line_start_of(s, prev_end);
        clamp_to(prev_start + col, prev_end)
    }
}

/// Caret after moving one line down, keeping the column where possible.
pub open spec fn down_of(s: Seq<char>, cur: int) -> int {
    let cur_end = line_end_of(s, cur);
    if cur_end >= s.len() {
        cur
    } else {
        let col = cur - line_start_of(s, cur);
        let next_start = cur_end + 1;
        let next_end = line_end_of(s, next_start);
        clamp_to(next_start + col, next_end)
    }
}

/// The text after inserting `c` at char index `i`.
pub open spec fn insert_at(s: Seq<char>, i: int, c: char) -> Seq<char> {
    s.take(i) + seq![c] + s.skip(i)
}

/// The text after removing the char at index `i`.
pub open spec fn remove_at(s: Seq<char>, i: int) -> Seq<char> {
    s.take(i) + s.skip(i + 1)
}

/// What a paste inserts: '\r' dropped, '\n' folded to ' ' unless multiline.
pub open spec fn paste_filter(t: Seq<char>, multiline: bool) -> Seq<char>
    decreases t.len(),
{
    if t.len() == 0 {
        seq![]
    } else {
        let rest = paste_filter(t.drop_last(), multiline);
        let c = t.last();
        if c == '\r' {
            rest
        } else if c == '\n' && !multiline {
            rest.push(' ')
        } else {
            rest.push(c)
        }
    }
}

pub proof fn lemma_paste_filter_len(t: Seq<char>, multiline: bool)
    ensures
        paste_filter(t, multiline).len() <= t.len(),
    decreases t.len(),
{
    if t.len() > 0 {
        lemma_paste_filter_len(t.drop_last(), multiline);
    }
}

proof fn lemma_line_start_bounds(s: Seq<char>, i: int)
    requires
        0 <= i <= s.len(),
    ensures
        0 <= line_start_from(s, i) <= i,
        forall|j: int| line_start_from(s, i) <= j < i ==> s[j] != '\n',
        line_start_from(s, i) > 0 ==> s[line_start_from(s, i) - 1] == '\n',
    decreases i,
{
    if i > 0 && s[i - 1] != '\n' {
        lemma_line_start_bounds(s, i - 1);
    }
}

proof fn lemma_line_end_bounds(s: Seq<char>, i: int)
    requires
        0 <= i <= s.len(),
    ensures
        i <= line_end_from(s, i) <= s.len(),
        forall|j: int| i <= j < line_end_from(s, i) ==> s[j] != '\n',
        line_end_from(s, i) < s.len() ==> s[line_end_from(s, i)] == '\n',
    decreases s.len() - i,
{
    if i < s.len() && s[i] != '\n' {
        lemma_line_end_bounds(s, i + 1);
    }
}

proof fn lemma_skip_bounds(s: Seq<char>, i: int)
    requires
        0 <= i <= s.len(),
    ensures
        0 <= skip_ws_left(s, i) <= i,
        0 <= skip_word_left(s, i) <= i,
        i <= skip_ws_right(s, i) <= s.len(),
        i <= skip_word_right(s, i) <= s.len(),
    decreases s.len() + i,
{
    if i > 0 {
        lemma_skip_left_bounds(s, i);
    }
    lemma_skip_right_bounds(s, i);
}

proof fn lemma_skip_left_bounds(s: Seq<char>, i: int)
    requires
        0 <= i <= s.len(),
    ensures
        0 <= skip_ws_left(s, i) <= i,
        0 <= skip_word_left(s, i) <= i,
    decreases i,
{
    if i > 0 {
        lemma_skip_left_bounds(s, i - 1);
    }
}

proof fn lemma_skip_right_bounds(s: Seq<char>, i: int)
    requires
        0 <= i <= s.len(),
    ensures
        i <= skip_ws_right(s, i) <= s.len(),
        i <= skip_word_right(s, i) <= s.len(),
    decreases s.len() - i,
{
    if i < s.len() {
        lemma_skip_right_bounds(s, i + 1);
    }
}

impl View for TextInputState {
    type V = (Seq<char>, nat);

    closed spec fn view(&self) -> (Seq<char>, nat) {
        (self.content@, self.cursor as nat)
    }
}

impl TextInputState {
    #[verifier::type_invariant]
    spec fn caret_in_text(self) -> bool {
        self.cursor <= self.content@.len()
    }

    /// An empty input with the caret at 0.
    pub fn new() -> (r: Self)
        ensures
            r@ == (Seq::<char>::empty(), 0nat),
    {
        TextInputState { content: String::new(), cursor: 0 }
    }

    /// Char length of the content.
    fn len(&self) -> (n: usize)
        ensures
            n == self@.0.len(),
    {
        chars_of(self.content.as_str()).len()
    }

    pub fn content(&self) -> (s: &str)
        ensures
            s@ == self@.0,
    {
        self.content.as_str()
    }

    /// The caret's position, always a character index into the content (at
    /// most its length).
    pub fn cursor(&self) -> (c: usize)
        ensures
            c == self@.1,
            c <= self@.0.len(),
    {
        proof {
            use_type_invariant(self);
        }
        self.cursor
    }

    pub fn is_empty(&self) -> (b: bool)
        ensures
            b == (self@.0.len() == 0),
    {
        self.content.as_str().is_empty()
    }

    /// Replaces the content and moves the caret to the end.
    pub fn set_content(&mut self, s: String)
        ensures
            final(self)@ == (s@, s@.len()),
    {
        let n = chars_of(s.as_str()).len();
        *self = TextInputState { content: s, cursor: n };
    }

    /// Clears the content and the caret.
    pub fn clear(&mut self)
        ensures
            final(self)@ == (Seq::<char>::empty(), 0nat),
    {
        *self = TextInputState::new();
    }

    /// Moves the caret to the end of the content.
    pub fn cursor_to_end(&mut self)
        ensures
            final(self)@ == (old(self)@.0, old(self)@.0.len()),
    {
        let n = self.len();
        let content = self.content.clone();
        *self = TextInputState { content, cursor: n };
    }
}


impl TextInputState {
    /// Inserts a pasted block at the caret. `'\r'` is dropped; `'\n'` is kept only
    /// when `multiline`, else folded to a space.
    pub fn insert_paste(&mut self, text: &str, multiline: bool)
        requires
            old(self)@.0.len() + text@.len() < usize::MAX,
        ensures
            final(self)@ == (
                old(self)@.0.take(old(self)@.1 as int) + paste_filter(text@, multiline)
                    + old(self)@.0.skip(old(self)@.1 as int),
                old(self)@.1 + paste_filter(text@, multiline).len(),
            ),
    {
        proof {
            use_type_invariant(&*self);
        }
        let ghost s0 = self@.0;
        let ghost c0 = self@.1 as int;
        let tc = chars_of(text);
        let n = tc.len();
        for i in 0..n
            invariant
                n == tc@.len(),
                tc@ == text@,
                s0.len() + text@.len() < usize::MAX,
                0 <= c0 <= s0.len(),
                self@.0 == s0.take(c0) + paste_filter(tc@.take(i as int), multiline) + s0.skip(c0),
                self@.1 == c0 + paste_filter(tc@.take(i as int), multiline).len(),
        {
            proof {
                lemma_paste_filter_len(tc@.take(i as int), multiline);
                assert(tc@.take(i + 1).drop_last() == tc@.take(i as int));
            }
            let c = tc[i];
            let ghost before = self@;
            if c == '\r' {
            } else if c == '\n' && !multiline {
                self.insert_char(' ');
            } else {
                self.insert_char(c);
            }
            proof {
                let p = paste_filter(tc@.take(i as int), multiline);
                let k = c0 + p.len();
                if c != '\r' {
                    let d = if c == '\n' && !multiline { ' ' } else { c };
                    assert(self@.0 == insert_at(before.0, k, d));
                    assert(before.0.take(k) == s0.take(c0) + p);
                    assert(before.0.skip(k) == s0.skip(c0));
                    assert(self@.0 == s0.take(c0) + p.push(d) + s0.skip(c0));
                }
            }
        }
        proof {
            assert(tc@.take(n as int) == tc@);
        }
    }

    /// Inserts `c` at the caret and moves the caret past it.
    pub fn insert_char(&mut self, c: char)
        requires
            old(self)@.0.len() + 1 < usize::MAX,
        ensures
            final(self)@ == (insert_at(old(self)@.0, old(self)@.1 as int, c), old(self)@.1 + 1),
    {
        proof {
            use_type_invariant(&*self);
        }
        let mut cs = chars_of(self.content.as_str());
        let cur = self.cursor;
        cs.insert(cur, c);
        proof {
            assert(cs@ == insert_at(self@.0, cur as int, c));
        }
        *self = TextInputState { content: string_of(cs.as_slice()), cursor: cur + 1 };
    }

    /// Deletes the char before the caret.
    pub fn backspace(&mut self)
        ensures
            final(self)@ == (if old(self)@.1 == 0 {
                old(self)@
            } else {
                (remove_at(old(self)@.0, old(self)@.1 - 1), (old(self)@.1 - 1) as nat)
            }),
    {
        proof {
            use_type_invariant(&*self);
        }
        if self.cursor == 0 {
            return;
        }
        let mut cs = chars_of(self.content.as_str());
        let cur = self.cursor;
        cs.remove(cur - 1);
        proof {
            assert(cs@ == remove_at(self@.0, cur - 1));
        }
        *self = TextInputState { content: string_of(cs.as_slice()), cursor: cur - 1 };
    }

    /// Deletes the char at the caret (forward delete).
    pub fn delete_forward(&mut self)
        ensures
            final(self)@ == (if old(self)@.1 >= old(self)@.0.len() {
                old(self)@
            } else {
                (remove_at(old(self)@.0, old(self)@.1 as int), old(self)@.1)
            }),
    {
        proof {
            use_type_invariant(&*self);
        }
        let mut cs = chars_of(self.content.as_str());
        let cur = self.cursor;
        if cur >= cs.len() {
            return;
        }
        cs.remove(cur);
        proof {
            assert(cs@ == remove_at(self@.0, cur as int));
        }
        *self = TextInputState { content: string_of(cs.as_slice()), cursor: cur };
    }

    /// Places the caret at `c`, clamped to the end of the content.
    pub fn place_cursor(&mut self, c: usize)
        ensures
            final(self)@ == (old(self)@.0, if c <= old(self)@.0.len() { c as nat } else { old(self)@.0.len() }),
    {
        proof {
            use_type_invariant(&*self);
        }
        let n = self.len();
        let target = if c <= n { c } else { n };
        self.set_cursor(target);
    }

    /// Replaces the caret, keeping the content.
    fn set_cursor(&mut self, c: usize)
        requires
            c <= old(self)@.0.len(),
        ensures
            final(self)@ == (old(self)@.0, c as nat),
    {
        let content = self.content.clone();
        *self = TextInputState { content, cursor: c };
    }

    pub fn left(&mut self)
        ensures
            final(self)@ == (old(self)@.0, if old(self)@.1 == 0 { 0nat } else { (old(self)@.1 - 1) as nat }),
    {
        proof {
            use_type_invariant(&*self);
        }
        let c = if self.cursor == 0 { 0 } else { self.cursor - 1 };
        self.set_cursor(c);
    }

    pub fn right(&mut self)
        ensures
            final(self)@ == (old(self)@.0, clamp_to((old(self)@.1 + 1) as int, old(self)@.0.len() as int) as nat),
    {
        proof {
            use_type_invariant(&*self);
        }
        let n = self.len();
        let c = if self.cursor < n { self.cursor + 1 } else { n };
        self.set_cursor(c);
    }

    /// One word left: skips whitespace, then the word before the caret.
    pub fn word_left(&mut self)
        ensures
            final(self)@ == (old(self)@.0, word_left_of(old(self)@.0, old(self)@.1 as int) as nat),
    {
        let chars = chars_of(self.content.as_str());
        let ghost s = chars@;
        let mut i = if self.cursor < chars.len() { self.cursor } else { chars.len() };
        proof {
            lemma_skip_left_bounds(s, i as int);
        }
        let ghost i0 = i as int;
        while i > 0 && crate::chars::char_is_whitespace(chars[i - 1])
            invariant
                s == chars@,
                0 <= i <= i0 <= s.len(),
                skip_ws_left(s, i as int) == skip_ws_left(s, i0),
            decreases i,
        {
            i -= 1;
        }
        let ghost i1 = i as int;
        while i > 0 && !crate::chars::char_is_whitespace(chars[i - 1])
            invariant
                s == chars@,
                0 <= i <= i1 <= s.len(),
                skip_word_left(s, i as int) == skip_word_left(s, i1),
            decreases i,
        {
            i -= 1;
        }
        self.set_cursor(i);
    }

    /// One word right: skips whitespace, then the word after the caret.
    pub fn word_right(&mut self)
        ensures
            final(self)@ == (old(self)@.0, word_right_of(old(self)@.0, old(self)@.1 as int) as nat),
    {
        let chars = chars_of(self.content.as_str());
        let ghost s = chars@;
        let n = chars.len();
        let mut i = if self.cursor < n { self.cursor } else { n };
        let ghost i0 = i as int;
        while i < n && crate::chars::char_is_whitespace(chars[i])
            invariant
                s == chars@,
                n == s.len(),
                0 <= i0 <= i <= n,
                skip_ws_right(s, i as int) == skip_ws_right(s, i0),
            decreases n - i,
        {
            i += 1;
        }
        let ghost i1 = i as int;
        while i < n && !crate::chars::char_is_whitespace(chars[i])
            invariant
                s == chars@,
                n == s.len(),
                0 <= i1 <= i <= n,
                skip_word_right(s, i as int) == skip_word_right(s, i1),
            decreases n - i,
        {
            i += 1;
        }
        self.set_cursor(i);
    }

    /// Caret to the start of its current line.
    pub fn home(&mut self)
        ensures
            final(self)@ == (old(self)@.0, line_start_of(old(self)@.0, old(self)@.1 as int) as nat),
    {
        let c = self.line_start(self.cursor);
        self.set_cursor(c);
    }

    /// Caret to the end of its current line.
    pub fn end(&mut self)
        ensures
            final(self)@ == (old(self)@.0, line_end_of(old(self)@.0, old(self)@.1 as int) as nat),
    {
        let c = self.line_end(self.cursor);
        self.set_cursor(c);
    }

    /// Up one line, keeping the column where possible.
    pub fn up(&mut self)
        ensures
            final(self)@ == (old(self)@.0, up_of(old(self)@.0, old(self)@.1 as int) as nat),
    {
        proof {
            use_type_invariant(&*self);
            lemma_line_start_bounds(self@.0, self@.1 as int);
        }
        let ls = self.line_start(self.cursor);
        if ls == 0 {
            return;
        }
        let col = self.cursor - ls;
        let prev_end = ls - 1;
        let prev_start = self.line_start(prev_end);
        proof {
            lemma_line_start_bounds(self@.0, prev_end as int);
        }
        let target = prev_start + col;
        let c = if target < prev_end { target } else { prev_end };
        self.set_cursor(c);
    }

    /// Down one line, keeping the column where possible.
    pub fn down(&mut self)
        ensures
            final(self)@ == (old(self)@.0, down_of(old(self)@.0, old(self)@.1 as int) as nat),
    {
        proof {
            use_type_invariant(&*self);
            lemma_line_start_bounds(self@.0, self@.1 as int);
            lemma_line_end_bounds(self@.0, self@.1 as int);
        }
        let cur_end = self.line_end(self.cursor);
        let n = self.len();
        if cur_end >= n {
            return;
        }
        let col = self.cursor - self.line_start(self.cursor);
        let next_start = cur_end + 1;
        let next_end = self.line_end(next_start);
        proof {
            lemma_line_end_bounds(self@.0, next_start as int);
        }
        let c = if col < next_end - next_start { next_start + col } else { next_end };
        self.set_cursor(c);
    }

    /// Char index of the start of the line containing `at`.
    fn line_start(&self, at: usize) -> (r: usize)
        ensures
            r == line_start_of(self@.0, at as int),
            r <= self@.0.len(),
    {
        let chars = chars_of(self.content.as_str());
        let ghost s = chars@;
        let mut i = if at < chars.len() { at } else { chars.len() };
        let ghost i0 = i as int;
        while i > 0 && chars[i - 1] != '\n'
            invariant
                s == chars@,
                0 <= i <= i0 <= s.len(),
                line_start_from(s, i as int) == line_start_from(s, i0),
            decreases i,
        {
            i -= 1;
        }
        i
    }

    /// Char index of the end of the line containing `at` (before the '\n').
    fn line_end(&self, at: usize) -> (r: usize)
        ensures
            r == line_end_of(self@.0, at as int),
            r <= self@.0.len(),
    {
        let chars = chars_of(self.content.as_str());
        let ghost s = chars@;
        let n = chars.len();
        let mut i = if at < n { at } else { n };
        let ghost i0 = i as int;
        while i < n && chars[i] != '\n'
            invariant
                s == chars@,
                n == s.len(),
                0 <= i0 <= i <= n,
                line_end_from(s, i as int) == line_end_from(s, i0),
            decreases n - i,
        {
            i += 1;
        }
        i
    }
}


impl Default for TextInputState {
    fn default() -> (r: Self)
        ensures
            r@ == (Seq::<char>::empty(), 0nat),
    {
        TextInputState::new()
    }
}

/// The state and outcome after `key` reaches an input holding `v`.
pub open spec fn key_effect(v: (Seq<char>, nat), key: KeyEvent, multiline: bool) -> ((Seq<char>, nat), InputOutcome) {
    let (s, c) = v;
    match key.code {
        KeyCode::Char(ch) => if key.ctrl || key.alt {
            (v, InputOutcome::Ignored)
        } else {
            ((insert_at(s, c as int, ch), c + 1), InputOutcome::Changed)
        },
        KeyCode::Backspace => (
            if c == 0 { v } else { (remove_at(s, c - 1), (c - 1) as nat) },
            InputOutcome::Changed,
        ),
        KeyCode::Delete => (
            if c >= s.len() { v } else { (remove_at(s, c as int), c) },
            InputOutcome::Changed,
        ),
        KeyCode::Enter => if multiline {
            ((insert_at(s, c as int, '\n'), c + 1), InputOutcome::Changed)
        } else {
            (v, InputOutcome::Ignored)
        },
        KeyCode::Left => if key.ctrl {
            ((s, word_left_of(s, c as int) as nat), InputOutcome::Moved)
        } else {
            ((s, if c == 0 { 0nat } else { (c - 1) as nat }), InputOutcome::Moved)
        },
        KeyCode::Right => if key.ctrl {
            ((s, word_right_of(s, c as int) as nat), InputOutcome::Moved)
        } else {
            ((s, clamp_to((c + 1) as int, s.len() as int) as nat), InputOutcome::Moved)
        },
        KeyCode::Home => ((s, line_start_of(s, c as int) as nat), InputOutcome::Moved),
        KeyCode::End => ((s, line_end_of(s, c as int) as nat), InputOutcome::Moved),
        KeyCode::Up => if multiline {
            ((s, up_of(s, c as int) as nat), InputOutcome::Moved)
        } else {
            (v, InputOutcome::Ignored)
        },
        KeyCode::Down => if multiline {
            ((s, down_of(s, c as int) as nat), InputOutcome::Moved)
        } else {
            (v, InputOutcome::Ignored)
        },
        _ => (v, InputOutcome::Ignored),
    }
}

impl TextInputState {
    /// Handles a key, mutating the content/caret, and reports what it did.
    /// Ctrl/Alt + char, Tab, Esc, and (single-line) Enter/Up/Down are `Ignored`.
    pub fn handle_key(&mut self, key: KeyEvent, multiline: bool) -> (out: InputOutcome)
        requires
            old(self)@.0.len() + 1 < usize::MAX,
        ensures
            (final(self)@, out) == key_effect(old(self)@, key, multiline),
    {
        match key.code {
            KeyCode::Char(c) => {
                if key.ctrl || key.alt {
                    InputOutcome::Ignored
                } else {
                    self.insert_char(c);
                    InputOutcome::Changed
                }
            },
            KeyCode::Backspace => {
                self.backspace();
                InputOutcome::Changed
            },
            KeyCode::Delete => {
                self.delete_forward();
                InputOutcome::Changed
            },
            KeyCode::Enter => {
                if multiline {
                    self.insert_char('\n');
                    InputOutcome::Changed
                } else {
                    InputOutcome::Ignored
                }
            },
            KeyCode::Left => {
                if key.ctrl {
                    self.word_left();
                } else {
                    self.left();
                }
                InputOutcome::Moved
            },
            KeyCode::Right => {
                if key.ctrl {
                    self.word_right();
                } else {
                    self.right();
                }
                InputOutcome::Moved
            },
            KeyCode::Home => {
                self.home();
                InputOutcome::Moved
            },
            KeyCode::End => {
                self.end();
                InputOutcome::Moved
            },
            KeyCode::Up => {
                if multiline {
                    self.up();
                    InputOutcome::Moved
                } else {
                    InputOutcome::Ignored
                }
            },
            KeyCode::Down => {
                if multiline {
                    self.down();
                    InputOutcome::Moved
                } else {
                    InputOutcome::Ignored
                }
            },
            _ => InputOutcome::Ignored,
        }
    }
}

/// Typing a character and then deleting it with Backspace gives back the
/// content and caret from before.
pub proof fn law_insert_then_backspace(s: Seq<char>, c: nat, ch: char)
    requires
        c <= s.len(),
    ensures
        ({
            let (s1, c1) = (insert_at(s, c as int, ch), c + 1);
            c1 != 0 && remove_at(s1, c1 - 1) == s && (c1 - 1) as nat == c
        }),
{
    let s1 = insert_at(s, c as int, ch);
    assert(remove_at(s1, c as int) =~= s);
}

/// A paste with no '\r' (and no '\n' unless the input is multi-line) lands
/// verbatim.
pub proof fn law_plain_paste_is_verbatim(t: Seq<char>, multiline: bool)
    requires
        forall|i: int| 0 <= i < t.len() ==> t[i] != '\r' && (multiline || t[i] != '\n'),
    ensures
        paste_filter(t, multiline) == t,
    decreases t.len(),
{
    if t.len() > 0 {
        law_plain_paste_is_verbatim(t.drop_last(), multiline);
        assert(t.drop_last().push(t.last()) =~= t);
    }
}

/// The line-aware caret motions never leave the text.
pub proof fn law_motions_stay_in_text(s: Seq<char>, c: nat)
    requires
        c <= s.len(),
    ensures
        0 <= line_start_of(s, c as int) <= c,
        c <= line_end_of(s, c as int) <= s.len(),
        0 <= word_left_of(s, c as int) <= c,
        c <= word_right_of(s, c as int) <= s.len(),
        0 <= up_of(s, c as int) <= s.len(),
        0 <= down_of(s, c as int) <= s.len(),
{
    lemma_line_start_bounds(s, c as int);
    lemma_line_end_bounds(s, c as int);
    lemma_skip_left_bounds(s, c as int);
    lemma_skip_left_bounds(s, skip_ws_left(s, c as int));
    lemma_skip_right_bounds(s, c as int);
    lemma_skip_right_bounds(s, skip_ws_right(s, c as int));
    let ls = line_start_of(s, c as int);
    if ls > 0 {
        lemma_line_start_bounds(s, ls - 1);
    }
    let le = line_end_of(s, c as int);
    if le < s.len() {
        lemma_line_end_bounds(s, le + 1);
    }
}


/// `q` starts the line holding `i`: it is the text's start or follows a
/// '\n', and no '\n' lies between it and `i`.
pub open spec fn starts_line_of(s: Seq<char>, q: int, i: int) -> bool {
    &&& 0 <= q <= i <= s.len()
    &&& q == 0 || s[q - 1] == '\n'
    &&& forall|j: int| q <= j < i ==> s[j] != '\n'
}

proof fn lemma_line_start_is(s: Seq<char>, q: int, i: int)
    requires
        starts_line_of(s, q, i),
    ensures
        line_start_from(s, i) == q,
    decreases i,
{
    if i > q {
        lemma_line_start_is(s, q, i - 1);
    }
}

/// Moving up keeps the column: from column `c - q` of the line starting at
/// `q`, the caret goes to the same column of the line above (starting at
/// `p` and ending at its '\n', `q - 1`), or to that line's end when it is
/// shorter; on the first line it stays.
pub proof fn law_up_keeps_column(s: Seq<char>, p: int, q: int, c: int)
    requires
        starts_line_of(s, q, c),
        q > 0 ==> starts_line_of(s, p, q - 1),
    ensures
        q == 0 ==> up_of(s, c) == c,
        q > 0 && c - q <= (q - 1) - p ==> up_of(s, c) == p + (c - q),
        q > 0 && c - q > (q - 1) - p ==> up_of(s, c) == q - 1,
{
    lemma_line_start_is(s, q, c);
    if q > 0 {
        lemma_line_start_is(s, p, q - 1);
    }
}

/// Moving down keeps the column: from column `c - q` of the line starting at
/// `q` and ending at `e` (its '\n'), the caret goes to the same column of
/// the next line (ending at `f`), or to that line's end when it is shorter;
/// on the last line it stays.
pub proof fn law_down_keeps_column(s: Seq<char>, q: int, c: int, e: int, f: int)
    requires
        starts_line_of(s, q, c),
        c <= e <= s.len(),
        forall|j: int| c <= j < e ==> s[j] != '\n',
        e < s.len() ==> s[e] == '\n',
        e < s.len() ==> e + 1 <= f <= s.len() && (f < s.len() ==> s[f] == '\n') && forall|j: int| e + 1 <= j < f ==> s[j] != '\n',
    ensures
        e == s.len() ==> down_of(s, c) == c,
        e < s.len() && c - q <= f - (e + 1) ==> down_of(s, c) == e + 1 + (c - q),
        e < s.len() && c - q > f - (e + 1) ==> down_of(s, c) == f,
{
    lemma_line_start_is(s, q, c);
    lemma_line_end_is(s, e, c);
    if e < s.len() {
        lemma_line_end_is(s, f, e + 1);
    }
}

proof fn lemma_line_end_is(s: Seq<char>, e: int, i: int)
    requires
        0 <= i <= e <= s.len(),
        forall|j: int| i <= j < e ==> s[j] != '\n',
        e < s.len() ==> s[e] == '\n',
    ensures
        line_end_from(s, i) == e,
    decreases e - i,
{
    if i < e {
        lemma_line_end_is(s, e, i + 1);
    }
}

} // verus!
