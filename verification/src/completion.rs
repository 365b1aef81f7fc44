//! The completion popup: opening it on a server's answer, and what keys do
//! while it is open.
use vstd::prelude::*;

use crate::buffer::Cursor;
use crate::keys::{KeyCode, KeyEvent};
use crate::lsp::{alphanumeric, filter_items, item_view, ranked, scored, typed_prefix, word_start, word_start_of, CompletionItem};
use crate::model::CompletionState;
use crate::text::copy_str;

verus! {

/// The identifier text before column `col` of a line.
pub open spec fn prefix_at(line: Seq<char>, col: int) -> Seq<char> {
    let a = word_start_of(line, col);
    let e = if col > line.len() { line.len() as int } else { col };
    line.subrange(a, e)
}

/// The popup for a server's completion items, with the cursor at column `col`
/// of line `line_no` (whose text is `line`) in tab `tab`: the items matching
/// the identifier typed so far, best first, the first one selected, anchored
/// at the start of that identifier. `None` when nothing matches.
pub fn completion_popup(items: Vec<CompletionItem>, line: &str, line_no: usize, col: usize, tab: usize) -> (r: Option<CompletionState>)
    ensures
        exists|perm: Seq<int>| {
            &&& #[trigger] ranked(scored(items@, prefix_at(line@, col as int)), perm)
            &&& perm.len() == 0 ==> r is None
            &&& perm.len() > 0 ==> (r matches Some(st) && {
                &&& st.items@.len() == perm.len()
                &&& forall|k: int| 0 <= k < perm.len() ==> #[trigger] st.items@[k]
                    == scored(items@, prefix_at(line@, col as int))[perm[k]].1
                &&& st.selected == 0
                &&& st.anchor == (Cursor { line: line_no, col: word_start_of(line@, col as int) as usize })
                &&& st.tab_index == tab
            })
        },
{
    let ghost iv = items@;
    let prefix = typed_prefix(line, col);
    let kept = filter_items(items, prefix.as_str());
    let ghost sc = scored(iv, prefix_at(line@, col as int));
    let ghost perm = choose|perm: Seq<int>| {
        &&& ranked(sc, perm)
        &&& kept@.len() == perm.len()
        &&& forall|k: int| 0 <= k < kept@.len() ==> #[trigger] kept@[k] == sc[perm[k]].1
    };
    assert(ranked(sc, perm));
    if kept.len() == 0 {
        return None;
    }
    let anchor = Cursor { line: line_no, col: word_start(line, col) };
    let r = Some(CompletionState { items: kept, selected: 0, anchor, tab_index: tab });
    assert(forall|k: int| 0 <= k < perm.len() ==> #[trigger] r.unwrap().items@[k] == sc[perm[k]].1);
    r
}

/// What a key does while the popup is open.
#[derive(Clone, Copy, Debug, PartialEq, Eq, Structural)]
pub enum CompletionKey {
    /// Moved the selection.
    Handled,
    /// Insert the selected item in place of the typed prefix.
    Accept,
    /// Close the popup (and drop a pending automatic request).
    Close,
    /// Still typing the identifier: the key edits as usual and the popup stays.
    Typing,
    /// Close the popup and let the key act as usual.
    Dismiss,
}

/// A character that keeps an identifier (or a member access) going.
pub open spec fn keeps_typing(c: char) -> bool {
    alphanumeric(c) || c == '_' || c == '.'
}

pub(crate) fn continues_word(c: char) -> (b: bool)
    ensures
        b == keeps_typing(c),
{
    crate::lsp::is_alphanumeric(c) || c == '_' || c == '.'
}

impl CompletionState {
    /// Up/Down move the selection (stopping at the ends), Enter or Tab accept,
    /// Esc closes, identifier characters and Backspace keep typing, and any
    /// other key closes the popup and acts as usual.
    pub fn handle_key(&mut self, key: KeyEvent) -> (r: CompletionKey)
        ensures
            final(self).items@ == old(self).items@,
            final(self).anchor == old(self).anchor,
            final(self).tab_index == old(self).tab_index,
            final(self).selected == match key.code {
                KeyCode::Up => if old(self).selected > 0 { (old(self).selected - 1) as usize } else { 0 },
                KeyCode::Down => if old(self).selected + 1 < old(self).items@.len() {
                    (old(self).selected + 1) as usize
                } else {
                    old(self).selected
                },
                _ => old(self).selected,
            },
            r == match key.code {
                KeyCode::Up | KeyCode::Down => CompletionKey::Handled,
                KeyCode::Esc => CompletionKey::Close,
                KeyCode::Enter | KeyCode::Tab => CompletionKey::Accept,
                KeyCode::Char(c) => if !key.ctrl && keeps_typing(c) {
                    CompletionKey::Typing
                } else {
                    CompletionKey::Dismiss
                },
                KeyCode::Backspace => CompletionKey::Typing,
                _ => CompletionKey::Dismiss,
            },
    {
        match key.code {
            KeyCode::Up => {
                if self.selected > 0 {
                    self.selected = self.selected - 1;
                }
                CompletionKey::Handled
            },
            KeyCode::Down => {
                if self.items.len() > 0 && self.selected < self.items.len() - 1 {
                    self.selected = self.selected + 1;
                }
                CompletionKey::Handled
            },
            KeyCode::Esc => CompletionKey::Close,
            KeyCode::Enter | KeyCode::Tab => CompletionKey::Accept,
            KeyCode::Char(c) => if !key.ctrl && continues_word(c) {
                CompletionKey::Typing
            } else {
                CompletionKey::Dismiss
            },
            KeyCode::Backspace => CompletionKey::Typing,
            _ => CompletionKey::Dismiss,
        }
    }

    /// The item to insert on accept: the selected one, unless the editor has
    /// switched to another tab since the popup opened.
    pub fn accepted(&self, active_tab: Option<usize>) -> (r: Option<CompletionItem>)
        ensures
            (active_tab == Some(self.tab_index) && self.selected < self.items@.len()) <==> r is Some,
            r matches Some(it) ==> item_view(it) == item_view(self.items@[self.selected as int]),
    {
        match active_tab {
            Some(a) => if a != self.tab_index || self.selected >= self.items.len() {
                None
            } else {
                let it = &self.items[self.selected];
                Some(CompletionItem {
                    label: copy_str(it.label.as_str()),
                    insert_text: copy_str(it.insert_text.as_str()),
                    detail: match &it.detail {
                        Some(d) => Some(copy_str(d.as_str())),
                        None => None,
                    },
                    filter_text: copy_str(it.filter_text.as_str()),
                    sort_text: copy_str(it.sort_text.as_str()),
                })
            },
            None => None,
        }
    }
}

} // verus!
