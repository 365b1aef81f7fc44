//! The Git panel's keyboard actions: the zone focus, its buttons, staging
//! and reverting the selected change, and committing.
use vstd::prelude::*;

use crate::git::GitEntry;
use crate::model::{Dialog, DialogAction, DialogKind, GitStatus, GitZone};
use crate::split::{trim, trim_str};
use crate::text::copy_str;

verus! {

/// A git operation the panel asks for.
#[derive(Clone, Debug, PartialEq, Eq)]
pub enum GitRequest {
    Fetch,
    Pull,
    Push,
    UndoLastCommit,
    Commit(String),
    Stage(String),
    Unstage(String),
}

/// Why a commit was refused.
#[derive(Clone, Copy, Debug, PartialEq, Eq, Structural)]
pub enum CommitRefusal {
    EmptyMessage,
    NothingStaged,
}

/// What `r` on the selected change leads to.
pub enum RevertCheck {
    /// No change is selected.
    NoChange,
    /// A staged change has to be unstaged before it can be reverted.
    UnstageFirst,
    /// Ask before reverting.
    Confirm(Dialog),
}

/// The question asked before reverting a change.
pub open spec fn revert_question(rel: Seq<char>) -> Seq<char> {
    "Changes in '"@ + rel + "' will be reverted. This cannot be undone. Are you sure?"@
}

/// Every field but the zone and the commit input is left alone.
pub open spec fn same_lists(a: GitStatus, b: GitStatus) -> bool {
    &&& a.branch == b.branch
    &&& a.staged == b.staged
    &&& a.unstaged == b.unstaged
    &&& a.is_repo == b.is_repo
    &&& a.selected == b.selected
    &&& a.ahead == b.ahead
    &&& a.behind == b.behind
    &&& a.has_upstream == b.has_upstream
    &&& a.has_remote == b.has_remote
    &&& a.history == b.history
}

/// The change at the selection and whether it is staged.
pub open spec fn selected_change(g: GitStatus) -> Option<(GitEntry, bool)> {
    let n = g.staged@.len();
    if g.selected < n {
        Some((g.staged@[g.selected as int], true))
    } else if g.selected < n + g.unstaged@.len() {
        Some((g.unstaged@[g.selected - n], false))
    } else {
        None
    }
}

impl GitStatus {
    /// Focuses `zone`. Returns whether the keyboard now types into the commit
    /// box (whose caret then goes to the end); any other zone keeps the panel
    /// list focus.
    pub fn set_zone(&mut self, zone: GitZone) -> (to_commit_box: bool)
        ensures
            final(self).zone == zone,
            to_commit_box == (zone == GitZone::Message),
            final(self).commit@ == if zone == GitZone::Message {
                (old(self).commit@.0, old(self).commit@.0.len())
            } else {
                old(self).commit@
            },
            same_lists(*final(self), *old(self)),
    {
        self.zone = zone;
        if zone == GitZone::Message {
            self.commit.cursor_to_end();
            true
        } else {
            false
        }
    }

    /// The Commit button: the trimmed message is committed when there is one
    /// and something is staged; the box is then cleared and the change list
    /// takes the focus.
    pub fn commit_request(&mut self) -> (r: Result<GitRequest, CommitRefusal>)
        ensures
            trim(old(self).commit@.0).len() == 0 ==> r == Err::<GitRequest, CommitRefusal>(CommitRefusal::EmptyMessage)
                && final(self).commit@ == old(self).commit@ && final(self).zone == old(self).zone,
            trim(old(self).commit@.0).len() > 0 && old(self).staged@.len() == 0
                ==> r == Err::<GitRequest, CommitRefusal>(CommitRefusal::NothingStaged)
                && final(self).commit@ == old(self).commit@ && final(self).zone == old(self).zone,
            trim(old(self).commit@.0).len() > 0 && old(self).staged@.len() > 0 ==> {
                &&& r matches Ok(GitRequest::Commit(m)) && m@ == trim(old(self).commit@.0)
                &&& final(self).commit@ == (Seq::<char>::empty(), 0nat)
                &&& final(self).zone == GitZone::Files
            },
            same_lists(*final(self), *old(self)),
    {
        let msg = trim_str(self.commit.content());
        if msg.as_str().is_empty() {
            return Err(CommitRefusal::EmptyMessage);
        }
        if self.staged.len() == 0 {
            return Err(CommitRefusal::NothingStaged);
        }
        self.commit.clear();
        self.zone = GitZone::Files;
        Ok(GitRequest::Commit(msg))
    }

    /// A button other than Commit: what it asks for, or nothing while it is
    /// disabled (Fetch needs a remote, Pull an upstream, Push and Uncommit
    /// unpushed work).
    pub fn button_request(&self, zone: GitZone) -> (r: Option<GitRequest>)
        ensures
            r == match zone {
                GitZone::Fetch => if self.has_remote { Some(GitRequest::Fetch) } else { None },
                GitZone::Pull => if self.has_upstream { Some(GitRequest::Pull) } else { None },
                GitZone::Push => if self.is_repo && self.branch is Some && self.has_remote
                    && (self.ahead > 0 || !self.has_upstream) {
                    Some(GitRequest::Push)
                } else {
                    None
                },
                GitZone::Uncommit => if self.is_repo && self.branch is Some && (self.ahead > 0 || !self.has_upstream) {
                    Some(GitRequest::UndoLastCommit)
                } else {
                    None
                },
                _ => None,
            },
    {
        match zone {
            GitZone::Fetch => if self.has_remote { Some(GitRequest::Fetch) } else { None },
            GitZone::Pull => if self.has_upstream { Some(GitRequest::Pull) } else { None },
            GitZone::Push => if self.can_push() { Some(GitRequest::Push) } else { None },
            GitZone::Uncommit => if self.can_undo_commit() { Some(GitRequest::UndoLastCommit) } else { None },
            _ => None,
        }
    }

    /// `a` on the selected change: stage it, or unstage it when it is staged.
    pub fn toggle_stage_request(&self) -> (r: Option<GitRequest>)
        ensures
            match selected_change(*self) {
                None => r is None,
                Some((e, true)) => r matches Some(GitRequest::Unstage(p)) && p@ == e.rel@,
                Some((e, false)) => r matches Some(GitRequest::Stage(p)) && p@ == e.rel@,
            },
    {
        match self.entry_at(self.selected) {
            None => None,
            Some((e, staged)) => if staged {
                Some(GitRequest::Unstage(copy_str(e.rel.as_str())))
            } else {
                Some(GitRequest::Stage(copy_str(e.rel.as_str())))
            },
        }
    }

    /// `r` on the selected change: a confirmation before restoring the file;
    /// a staged change has to be unstaged first, or the revert would do nothing.
    pub fn revert_check(&self) -> (c: RevertCheck)
        ensures
            match selected_change(*self) {
                None => c is NoChange,
                Some((_, true)) => c is UnstageFirst,
                Some((e, false)) => c matches RevertCheck::Confirm(d) && {
                    &&& d.kind == DialogKind::Ask
                    &&& d.selected == 0
                    &&& d.title@ == "Revert changes"@
                    &&& d.message@ == revert_question(e.rel@)
                    &&& d.action matches DialogAction::GitRevert(p) && p@ == e.rel@
                },
            },
    {
        match self.entry_at(self.selected) {
            None => RevertCheck::NoChange,
            Some((e, staged)) => if staged {
                RevertCheck::UnstageFirst
            } else {
                let mut message = String::from_str("Changes in '");
                message.append(e.rel.as_str());
                message.append("' will be reverted. This cannot be undone. Are you sure?");
                RevertCheck::Confirm(
                    Dialog::ask(String::from_str("Revert changes"), message, DialogAction::GitRevert(copy_str(e.rel.as_str()))),
                )
            },
        }
    }
}

} // verus!
