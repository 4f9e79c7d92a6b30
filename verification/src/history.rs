//! Undo and redo of a page's edits: the stacks of earlier and undone edits
//! and the revision counter that every change advances.
use vstd::prelude::*;

verus! {

/// The state of an edit history: edits that can be undone (latest last),
/// edits that can be redone (latest last), and the last revision handed out.
pub struct HistoryState<T> {
    pub undo: Seq<T>,
    pub redo: Seq<T>,
    pub revision: u64,
}

/// The revision after `revision`, saturating at the largest value.
pub open spec fn next_revision(revision: u64) -> u64 {
    if revision == u64::MAX {
        revision
    } else {
        (revision + 1) as u64
    }
}

/// The history after an edit was made whose prior state was `before`.
pub open spec fn after_record<T>(s: HistoryState<T>, before: T) -> HistoryState<T> {
    HistoryState { undo: s.undo.push(before), redo: Seq::empty(), revision: next_revision(s.revision) }
}

/// The history after undoing while `current` is shown; unchanged when there
/// is nothing to undo.
pub open spec fn after_undo<T>(s: HistoryState<T>, current: T) -> HistoryState<T> {
    if s.undo.len() == 0 {
        s
    } else {
        HistoryState {
            undo: s.undo.drop_last(),
            redo: s.redo.push(current),
            revision: next_revision(s.revision),
        }
    }
}

/// The history after redoing while `current` is shown; unchanged when there
/// is nothing to redo.
pub open spec fn after_redo<T>(s: HistoryState<T>, current: T) -> HistoryState<T> {
    if s.redo.len() == 0 {
        s
    } else {
        HistoryState {
            undo: s.undo.push(current),
            redo: s.redo.drop_last(),
            revision: next_revision(s.revision),
        }
    }
}

/// The undo and redo stacks of a page and its revision counter.
pub struct EditHistory<T> {
    undo: Vec<T>,
    redo: Vec<T>,
    revision: u64,
}

impl<T> View for EditHistory<T> {
    type V = HistoryState<T>;

    closed spec fn view(&self) -> HistoryState<T> {
        HistoryState { undo: self.undo@, redo: self.redo@, revision: self.revision }
    }
}

impl<T> EditHistory<T> {
    /// An empty history whose last revision is `revision`.
    pub fn new(revision: u64) -> (history: EditHistory<T>)
        ensures
            history@.undo.len() == 0,
            history@.redo.len() == 0,
            history@.revision == revision,
    {
        EditHistory { undo: Vec::new(), redo: Vec::new(), revision }
    }

    /// The last revision handed out.
    pub fn revision(&self) -> (revision: u64)
        ensures
            revision == self@.revision,
    {
        self.revision
    }

    /// Sets the revision counter, keeping the stacks.
    pub fn set_revision(&mut self, revision: u64)
        ensures
            final(self)@.undo == old(self)@.undo,
            final(self)@.redo == old(self)@.redo,
            final(self)@.revision == revision,
    {
        self.revision = revision;
    }

    /// Whether there is an edit to undo.
    pub fn can_undo(&self) -> (can: bool)
        ensures
            can == (self@.undo.len() > 0),
    {
        self.undo.len() > 0
    }

    /// Whether there is an edit to redo.
    pub fn can_redo(&self) -> (can: bool)
        ensures
            can == (self@.redo.len() > 0),
    {
        self.redo.len() > 0
    }

    /// Records that an edit was made whose prior state was `before`: it can
    /// be undone, redoing is no longer possible, and the new revision is
    /// returned.
    pub fn record(&mut self, before: T) -> (revision: u64)
        ensures
            final(self)@ == after_record(old(self)@, before),
            revision == final(self)@.revision,
    {
        self.undo.push(before);
        self.redo = Vec::new();
        self.revision = self.revision.saturating_add(1);
        proof {
            assert(self@.undo == old(self)@.undo.push(before));
            assert(self@.redo =~= Seq::<T>::empty());
        }
        self.revision
    }

    /// Undoes the latest edit while `current` is shown: returns the edit to
    /// show instead and the new revision, or gives `current` back unchanged
    /// when there is nothing to undo.
    pub fn undo(&mut self, current: T) -> (outcome: (T, Option<u64>))
        ensures
            final(self)@ == after_undo(old(self)@, current),
            old(self)@.undo.len() > 0 ==> outcome.0 == old(self)@.undo.last() && outcome.1 == Some(
                final(self)@.revision,
            ),
            old(self)@.undo.len() == 0 ==> outcome.0 == current && outcome.1 is None,
    {
        match self.undo.pop() {
            Some(previous) => {
                self.redo.push(current);
                self.revision = self.revision.saturating_add(1);
                (previous, Some(self.revision))
            },
            None => (current, None),
        }
    }

    /// Redoes the latest undone edit while `current` is shown: returns the
    /// edit to show instead and the new revision, or gives `current` back
    /// unchanged when there is nothing to redo.
    pub fn redo(&mut self, current: T) -> (outcome: (T, Option<u64>))
        ensures
            final(self)@ == after_redo(old(self)@, current),
            old(self)@.redo.len() > 0 ==> outcome.0 == old(self)@.redo.last() && outcome.1 == Some(
                final(self)@.revision,
            ),
            old(self)@.redo.len() == 0 ==> outcome.0 == current && outcome.1 is None,
    {
        match self.redo.pop() {
            Some(next) => {
                self.undo.push(current);
                self.revision = self.revision.saturating_add(1);
                (next, Some(self.revision))
            },
            None => (current, None),
        }
    }
}

/// Undoing right after an edit shows the state from before the edit again,
/// leaves the earlier undo stack as it was, and makes the edit redoable.
pub proof fn lemma_undo_reverts_record<T>(s: HistoryState<T>, before: T, after: T)
    ensures
        after_record(s, before).undo.last() == before,
        after_undo(after_record(s, before), after).undo == s.undo,
        after_undo(after_record(s, before), after).redo == seq![after],
{
    assert(s.undo.push(before).drop_last() =~= s.undo);
    assert(Seq::<T>::empty().push(after) =~= seq![after]);
}

/// Redoing right after an undo shows again the edit that was shown before
/// the undo, and both stacks are back as they were.
pub proof fn lemma_redo_reverts_undo<T>(s: HistoryState<T>, current: T)
    requires
        s.undo.len() > 0,
    ensures
        after_undo(s, current).redo.last() == current,
        after_redo(after_undo(s, current), s.undo.last()).undo == s.undo,
        after_redo(after_undo(s, current), s.undo.last()).redo == s.redo,
{
    assert(s.undo.drop_last().push(s.undo.last()) =~= s.undo);
    assert(s.redo.push(current).drop_last() =~= s.redo);
}

/// Undoing right after a redo shows again the edit shown before the redo,
/// and both stacks are back as they were.
pub proof fn lemma_undo_reverts_redo<T>(s: HistoryState<T>, current: T)
    requires
        s.redo.len() > 0,
    ensures
        after_redo(s, current).undo.last() == current,
        after_undo(after_redo(s, current), s.redo.last()).redo == s.redo,
        after_undo(after_redo(s, current), s.redo.last()).undo == s.undo,
{
    assert(s.redo.drop_last().push(s.redo.last()) =~= s.redo);
    assert(s.undo.push(current).drop_last() =~= s.undo);
}

/// Every change of the history advances the revision by one, until it
/// reaches the largest value, where it stays; revisions never go back.
pub proof fn lemma_revisions_advance<T>(s: HistoryState<T>, edit: T)
    ensures
        after_record(s, edit).revision >= s.revision,
        after_undo(s, edit).revision >= s.revision,
        after_redo(s, edit).revision >= s.revision,
        s.revision < u64::MAX ==> after_record(s, edit).revision == s.revision + 1,
        s.revision < u64::MAX && s.undo.len() > 0 ==> after_undo(s, edit).revision == s.revision
            + 1,
        s.revision < u64::MAX && s.redo.len() > 0 ==> after_redo(s, edit).revision == s.revision
            + 1,
{
}

} // verus!
