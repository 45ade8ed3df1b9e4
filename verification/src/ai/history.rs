use crate::ai::client::StoreModel;
use vstd::prelude::*;

verus! {

/// One operation on the registry.
pub enum StoreOp {
    Create,
    Append(u64, Seq<char>),
    Replace(u64, Seq<char>),
    Finish(u64),
    Fail(u64, Seq<char>),
}

impl StoreModel {
    /// The registry after one operation.
    pub open spec fn step(self, op: StoreOp) -> StoreModel {
        match op {
            StoreOp::Create => self.create(),
            StoreOp::Append(id, piece) => self.append(id, piece),
            StoreOp::Replace(id, content) => self.replace(id, content),
            StoreOp::Finish(id) => self.finish(id),
            StoreOp::Fail(id, message) => self.fail(id, message),
        }
    }

    /// The registry after the operations `ops`, the first one first.
    pub open spec fn run(self, ops: Seq<StoreOp>) -> StoreModel
        decreases ops.len(),
    {
        if ops.len() == 0 {
            self
        } else {
            self.run(ops.drop_last()).step(ops.last())
        }
    }

    /// The identifiers that the creations among `ops` hand out, in the order
    /// of the creations.
    pub open spec fn issued(self, ops: Seq<StoreOp>) -> Seq<nat>
        decreases ops.len(),
    {
        if ops.len() == 0 {
            Seq::empty()
        } else if ops.last() is Create {
            self.issued(ops.drop_last()).push(self.run(ops.drop_last()).next)
        } else {
            self.issued(ops.drop_last())
        }
    }
}

/// How many of `ops` create an entry.
pub open spec fn creations(ops: Seq<StoreOp>) -> nat
    decreases ops.len(),
{
    if ops.len() == 0 {
        0
    } else if ops.last() is Create {
        creations(ops.drop_last()) + 1
    } else {
        creations(ops.drop_last())
    }
}

/// Each creation moves the next identifier up by one, and nothing else moves
/// it.
pub proof fn lemma_run_counts_creations(start: StoreModel, ops: Seq<StoreOp>)
    ensures
        start.run(ops).next == start.next + creations(ops),
    decreases ops.len(),
{
    if ops.len() > 0 {
        lemma_run_counts_creations(start, ops.drop_last());
    }
}

/// A valid registry stays valid under any operations, as long as the
/// identifiers do not run out.
pub proof fn lemma_run_keeps_valid(start: StoreModel, ops: Seq<StoreOp>)
    requires
        start.wf(),
        start.next + creations(ops) <= u64::MAX,
    ensures
        start.run(ops).wf(),
    decreases ops.len(),
{
    if ops.len() > 0 {
        let before = ops.drop_last();
        lemma_run_keeps_valid(start, before);
        lemma_run_counts_creations(start, before);
        let mid = start.run(before);
        let end = mid.step(ops.last());
        assert forall|id: u64| end.entries.contains_key(id) <==> 1 <= id < end.next by {
            assert(mid.entries.contains_key(id) <==> 1 <= id < mid.next);
        }
    }
}

/// The identifiers handed out by any run of operations are strictly
/// increasing, hence pairwise distinct, and all lie below the next one.
pub proof fn lemma_identifiers_strictly_increase(start: StoreModel, ops: Seq<StoreOp>)
    ensures
        start.issued(ops).len() == creations(ops),
        forall|i: int|
            0 <= i < start.issued(ops).len() ==> start.next <= #[trigger] start.issued(ops)[i]
                < start.run(ops).next,
        forall|i: int, j: int|
            0 <= i < j < start.issued(ops).len() ==> start.issued(ops)[i] < start.issued(ops)[j],
    decreases ops.len(),
{
    if ops.len() > 0 {
        let before = ops.drop_last();
        lemma_identifiers_strictly_increase(start, before);
        lemma_run_counts_creations(start, before);
        lemma_run_counts_creations(start, ops);
    }
}

/// An identifier that was never handed out has no entry: polling it reports
/// that it was not found.
pub proof fn lemma_unissued_has_no_entry(store: StoreModel, id: u64)
    requires
        store.wf(),
        id == 0 || id >= store.next,
    ensures
        !store.entries.contains_key(id),
{
}

/// An identifier that has an entry keeps it under any operations: once
/// created, polling it never reports that it was not found.
pub proof fn lemma_entries_persist(start: StoreModel, ops: Seq<StoreOp>, id: u64)
    requires
        start.entries.contains_key(id),
    ensures
        start.run(ops).entries.contains_key(id),
    decreases ops.len(),
{
    if ops.len() > 0 {
        lemma_entries_persist(start, ops.drop_last(), id);
    }
}

/// The entry that a creation makes is found by every later poll.
pub proof fn lemma_created_entry_is_found(start: StoreModel, ops: Seq<StoreOp>)
    requires
        start.wf(),
        start.next < u64::MAX,
    ensures
        start.create().run(ops).entries.contains_key(start.next as u64),
{
    lemma_entries_persist(start.create(), ops, start.next as u64);
}

/// An entry that has ended never changes again: it stays ended and keeps its
/// text, whatever operations follow.
pub proof fn lemma_ended_entry_is_frozen(start: StoreModel, ops: Seq<StoreOp>, id: u64)
    requires
        start.wf(),
        start.next + creations(ops) <= u64::MAX,
        start.entries.contains_key(id),
        start.entries[id].1,
    ensures
        start.run(ops).entries.contains_key(id),
        start.run(ops).entries[id] == start.entries[id],
    decreases ops.len(),
{
    if ops.len() > 0 {
        let before = ops.drop_last();
        lemma_ended_entry_is_frozen(start, before, id);
        lemma_run_keeps_valid(start, before);
        lemma_run_counts_creations(start, before);
    }
}

/// The text of an open entry only grows under appends: after appending
/// `piece`, the text is the old text followed by `piece`.
pub proof fn lemma_append_extends(store: StoreModel, id: u64, piece: Seq<char>)
    requires
        store.is_open(id),
    ensures
        store.append(id, piece).entries[id] == (store.entries[id].0 + piece, false),
        forall|other: u64|
            other != id && store.entries.contains_key(other) ==> store.append(
                id,
                piece,
            ).entries[other] == #[trigger] store.entries[other],
{
}

} // verus!
