//! The quickbar (command palette) while it is open: its query field, list
//! navigation, and the workspace file list arriving.
use vstd::prelude::*;

use crate::keys::{KeyCode, KeyEvent};
use crate::model::{items_view, offered, qitem_view, sat_len, QItemV, QuickbarItem, QuickbarState};
use crate::paths::{path_lt_of, sort_paths};
use crate::split::trim;
use crate::text::lowercase_of;
use crate::text_input::{key_effect, paste_filter, InputOutcome};

verus! {

/// What a key does while the quickbar is open.
pub enum QuickKey {
    /// Run this entry (the palette closes).
    Execute(QuickbarItem),
    /// Close the palette.
    Close,
    /// The palette used the key.
    Handled,
    /// Not a palette key: it goes on to the global shortcuts.
    Fallback,
}

/// The entries for the palette's current query.
pub open spec fn entries_for(q: QuickbarState, root: Seq<char>) -> Seq<QItemV> {
    offered(q.files@, root, lowercase_of(trim(q.input@.0)))
}

/// The selection kept on the rebuilt list.
pub open spec fn kept_selection(selected: usize, len: nat) -> int {
    if selected < sat_len(len) { selected as int } else { sat_len(len) }
}

impl QuickbarState {
    /// A key while the palette is open: typing edits the query and re-filters
    /// the list; Up/Down move the highlight; Enter runs the highlighted entry;
    /// Esc closes; other keys the query ignores go on to the global shortcuts.
    pub fn handle_key(&mut self, key: KeyEvent, root: &str) -> (r: QuickKey)
        requires
            old(self).input@.0.len() + 1 < usize::MAX,
        ensures
            final(self).input@ == key_effect(old(self).input@, key, false).0,
            final(self).files == old(self).files,
            final(self).files_loaded == old(self).files_loaded,
            key_effect(old(self).input@, key, false).1 == InputOutcome::Changed ==> {
                &&& r is Handled
                &&& items_view(final(self).items@) == offered(old(self).files@, root@, lowercase_of(trim(final(self).input@.0)))
                &&& final(self).selected == kept_selection(old(self).selected, final(self).items@.len())
            },
            key_effect(old(self).input@, key, false).1 == InputOutcome::Moved ==> r is Handled
                && final(self).items == old(self).items && final(self).selected == old(self).selected,
            key_effect(old(self).input@, key, false).1 == InputOutcome::Ignored ==> {
                &&& final(self).items == old(self).items
                &&& match key.code {
                    KeyCode::Up => r is Handled && final(self).selected == (if old(self).items@.len() == 0 {
                        old(self).selected as int
                    } else {
                        vstd::math::min(sat_len(old(self).selected as nat), old(self).items@.len() - 1)
                    }),
                    KeyCode::Down => r is Handled && final(self).selected == (if old(self).selected + 1 < old(self).items@.len() {
                        old(self).selected + 1
                    } else {
                        old(self).selected as int
                    }),
                    KeyCode::Enter => final(self).selected == old(self).selected && if old(self).selected < old(self).items@.len() {
                        r matches QuickKey::Execute(it) && qitem_view(it) == qitem_view(old(self).items@[old(self).selected as int])
                    } else {
                        r is Handled
                    },
                    KeyCode::Esc => r is Close && final(self).selected == old(self).selected,
                    _ => r is Fallback && final(self).selected == old(self).selected,
                }
            },
    {
        let outcome = self.input.handle_key(key, false);
        if outcome == InputOutcome::Changed {
            self.rebuild_items(root);
            QuickKey::Handled
        } else if outcome == InputOutcome::Moved {
            QuickKey::Handled
        } else {
            self.list_key(key)
        }
    }

    /// A key the query field ignored.
    fn list_key(&mut self, key: KeyEvent) -> (r: QuickKey)
        ensures
            final(self).input == old(self).input,
            final(self).files == old(self).files,
            final(self).files_loaded == old(self).files_loaded,
            final(self).items == old(self).items,
            match key.code {
                KeyCode::Up => r is Handled && final(self).selected == (if old(self).items@.len() == 0 {
                    old(self).selected as int
                } else {
                    vstd::math::min(sat_len(old(self).selected as nat), old(self).items@.len() - 1)
                }),
                KeyCode::Down => r is Handled && final(self).selected == (if old(self).selected + 1 < old(self).items@.len() {
                    old(self).selected + 1
                } else {
                    old(self).selected as int
                }),
                KeyCode::Enter => final(self).selected == old(self).selected && if old(self).selected < old(self).items@.len() {
                    r matches QuickKey::Execute(it) && qitem_view(it) == qitem_view(old(self).items@[old(self).selected as int])
                } else {
                    r is Handled
                },
                KeyCode::Esc => r is Close && final(self).selected == old(self).selected,
                _ => r is Fallback && final(self).selected == old(self).selected,
            },
    {
        match key.code {
            KeyCode::Up => {
                self.select_up();
                QuickKey::Handled
            },
            KeyCode::Down => {
                self.select_down();
                QuickKey::Handled
            },
            KeyCode::Enter => {
                if self.selected < self.items.len() {
                    QuickKey::Execute(self.items[self.selected].clone_item())
                } else {
                    QuickKey::Handled
                }
            },
            KeyCode::Esc => QuickKey::Close,
            _ => QuickKey::Fallback,
        }
    }

    /// Pastes into the query (newlines fold to spaces) and re-filters.
    pub fn paste(&mut self, text: &str, root: &str)
        requires
            old(self).input@.0.len() + text@.len() < usize::MAX,
        ensures
            final(self).input@ == (
                old(self).input@.0.take(old(self).input@.1 as int) + paste_filter(text@, false)
                    + old(self).input@.0.skip(old(self).input@.1 as int),
                old(self).input@.1 + paste_filter(text@, false).len(),
            ),
            items_view(final(self).items@) == entries_for(*final(self), root@),
            final(self).selected == kept_selection(old(self).selected, final(self).items@.len()),
            final(self).files == old(self).files,
    {
        self.input.insert_paste(text, false);
        self.rebuild_items(root);
    }

    /// The workspace file list arrived: it is kept sorted and the entries are
    /// re-filtered.
    pub fn files_listed(&mut self, paths: Vec<String>, root: &str)
        ensures
            final(self).files@.map_values(|s: String| s@).to_multiset() == paths@.map_values(|s: String| s@).to_multiset(),
            forall|i: int, j: int| 0 <= i < j < final(self).files@.len()
                ==> !path_lt_of(#[trigger] final(self).files@[j]@, #[trigger] final(self).files@[i]@),
            final(self).files_loaded,
            final(self).input@ == old(self).input@,
            items_view(final(self).items@) == entries_for(*final(self), root@),
            final(self).selected == kept_selection(old(self).selected, final(self).items@.len()),
    {
        self.files = sort_paths(paths);
        self.files_loaded = true;
        self.rebuild_items(root);
    }
}

} // verus!
