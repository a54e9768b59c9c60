use vstd::prelude::*;
use crate::document::FieldValue;

verus! {

/// What the engine is asked to do for one writer request.
#[derive(Clone, Copy, Debug, PartialEq, Eq, Structural)]
pub enum WriterAction {
    /// Create the handle's writer with the ingestion budget, then add.
    CreateThenAdd,
    /// Add the document to the existing writer.
    Add,
    /// Flush the buffered documents durably and make them visible.
    Commit,
    /// Discard the buffered documents.
    Rollback,
    /// Nothing: no writer was ever created, so nothing is buffered.
    Nothing,
}

/// Memory budget, in bytes, that the handle's writer is created with.
pub const WRITER_MEMORY_BUDGET: usize = 50_000_000;

/// The writer slot of an index handle: empty until the first document is
/// added, then holding one writer for the rest of the handle's life.
#[derive(Debug)]
pub struct WriterSlot {
    open: bool,
}

impl View for WriterSlot {
    type V = bool;

    /// Whether the slot holds a writer.
    closed spec fn view(&self) -> bool {
        self.open
    }
}

/// The action for adding a document.
pub open spec fn add_action(open: bool) -> WriterAction {
    if open {
        WriterAction::Add
    } else {
        WriterAction::CreateThenAdd
    }
}

/// The action for a commit.
pub open spec fn commit_action(open: bool) -> WriterAction {
    if open {
        WriterAction::Commit
    } else {
        WriterAction::Nothing
    }
}

/// The action for a rollback.
pub open spec fn rollback_action(open: bool) -> WriterAction {
    if open {
        WriterAction::Rollback
    } else {
        WriterAction::Nothing
    }
}

impl WriterSlot {
    /// An empty slot, as a new or newly opened index handle has.
    pub fn new() -> (r: WriterSlot)
        ensures
            !r@,
    {
        WriterSlot { open: false }
    }

    /// Whether the slot holds a writer.
    pub fn is_open(&self) -> (r: bool)
        ensures
            r == self@,
    {
        self.open
    }

    /// What adding a document asks of the engine.
    pub fn plan_add(&self) -> (r: WriterAction)
        ensures
            r == add_action(self@),
    {
        if self.open {
            WriterAction::Add
        } else {
            WriterAction::CreateThenAdd
        }
    }

    /// What a commit asks of the engine.
    pub fn plan_commit(&self) -> (r: WriterAction)
        ensures
            r == commit_action(self@),
    {
        if self.open {
            WriterAction::Commit
        } else {
            WriterAction::Nothing
        }
    }

    /// What a rollback asks of the engine.
    pub fn plan_rollback(&self) -> (r: WriterAction)
        ensures
            r == rollback_action(self@),
    {
        if self.open {
            WriterAction::Rollback
        } else {
            WriterAction::Nothing
        }
    }

    /// Records that the engine created the writer; it is kept from now on.
    /// Where creation failed the slot is left as it was, for a retry.
    pub fn record_created(&mut self)
        ensures
            final(self)@,
    {
        self.open = true;
    }
}

/// What the engine holds behind one index handle, as far as writes go: the
/// documents buffered by its writer and those committed.
pub struct IndexState {
    pub open: bool,
    pub buffered: Seq<Seq<(usize, FieldValue)>>,
    pub committed: Seq<Seq<(usize, FieldValue)>>,
}

/// What the engine does with `action`; `doc` is the document of an add.
pub open spec fn perform(s: IndexState, action: WriterAction, doc: Seq<(usize, FieldValue)>) -> IndexState {
    match action {
        WriterAction::CreateThenAdd => IndexState { open: true, buffered: s.buffered.push(doc), ..s },
        WriterAction::Add => IndexState { buffered: s.buffered.push(doc), ..s },
        WriterAction::Commit => IndexState { buffered: Seq::empty(), committed: s.committed + s.buffered, ..s },
        WriterAction::Rollback => IndexState { buffered: Seq::empty(), ..s },
        WriterAction::Nothing => s,
    }
}

/// The state after adding `doc`, where the engine succeeds.
pub open spec fn after_add(s: IndexState, doc: Seq<(usize, FieldValue)>) -> IndexState {
    perform(s, add_action(s.open), doc)
}

/// The state after a commit, where the engine succeeds.
pub open spec fn after_commit(s: IndexState) -> IndexState {
    perform(s, commit_action(s.open), Seq::empty())
}

/// The state after a rollback, where the engine succeeds.
pub open spec fn after_rollback(s: IndexState) -> IndexState {
    perform(s, rollback_action(s.open), Seq::empty())
}

/// Committing twice in a row is committing once: the second commit changes
/// nothing, and on a handle never written to neither commit asks anything
/// of the engine.
pub proof fn lemma_commit_idempotent(s: IndexState)
    ensures
        after_commit(after_commit(s)) == after_commit(s),
        !s.open ==> commit_action(s.open) == WriterAction::Nothing && after_commit(s) == s,
{
    if s.open {
        let once = after_commit(s);
        assert(once.committed + once.buffered =~= once.committed);
    }
}

/// A rollback after an add discards every document not yet committed: a
/// commit that follows leaves the committed documents as they were.
pub proof fn lemma_rollback_discards(s: IndexState, doc: Seq<(usize, FieldValue)>)
    ensures
        after_commit(after_rollback(after_add(s, doc))).committed == s.committed,
        after_rollback(after_add(s, doc)).buffered.len() == 0,
{
    let t = after_rollback(after_add(s, doc));
    assert(t.committed + t.buffered =~= t.committed);
}

} // verus!
