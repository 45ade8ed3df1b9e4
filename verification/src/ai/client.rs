use crate::ai::error::{ChatError, ChatResult};
use crate::text::push_text;
use std::collections::HashMap;
use vstd::prelude::*;
use vstd::string::*;

verus! {

broadcast use vstd::std_specs::hash::group_hash_axioms;

/// The text gathered for one stream so far, and whether the stream has ended.
pub struct StreamEntry {
    pub buffer: String,
    pub done: bool,
}

/// What a poller can see of one entry: its text and whether it has ended.
pub type EntryModel = (Seq<char>, bool);

/// The registry as a mathematical value: the identifier that the next
/// stream will get, and what each issued identifier maps to.
pub struct StoreModel {
    pub next: nat,
    pub entries: Map<u64, EntryModel>,
}

impl StoreModel {
    /// The registry before any stream was created.
    pub open spec fn fresh() -> StoreModel {
        StoreModel { next: 1, entries: Map::empty() }
    }

    /// The identifiers issued so far are exactly those from 1 up to `next`.
    pub open spec fn wf(self) -> bool {
        &&& 1 <= self.next <= u64::MAX
        &&& forall|id: u64| self.entries.contains_key(id) <==> 1 <= id < self.next
    }

    /// Whether `id` has an entry that can still change.
    pub open spec fn is_open(self, id: u64) -> bool {
        self.entries.contains_key(id) && !self.entries[id].1
    }

    /// A new, empty and unfinished entry under the next identifier.
    pub open spec fn create(self) -> StoreModel {
        StoreModel {
            next: self.next + 1,
            entries: self.entries.insert(self.next as u64, (Seq::empty(), false)),
        }
    }

    /// `piece` added at the end of the text of `id`, if that entry is open.
    pub open spec fn append(self, id: u64, piece: Seq<char>) -> StoreModel {
        if self.is_open(id) {
            StoreModel {
                next: self.next,
                entries: self.entries.insert(id, (self.entries[id].0 + piece, false)),
            }
        } else {
            self
        }
    }

    /// The text of `id` replaced by `content`, if that entry is open.
    pub open spec fn replace(self, id: u64, content: Seq<char>) -> StoreModel {
        if self.is_open(id) {
            StoreModel { next: self.next, entries: self.entries.insert(id, (content, false)) }
        } else {
            self
        }
    }

    /// The entry of `id` ended with its text as it stands, if it is open.
    pub open spec fn finish(self, id: u64) -> StoreModel {
        if self.is_open(id) {
            StoreModel {
                next: self.next,
                entries: self.entries.insert(id, (self.entries[id].0, true)),
            }
        } else {
            self
        }
    }

    /// The entry of `id` ended with `message` as its text, if it is open.
    pub open spec fn fail(self, id: u64, message: Seq<char>) -> StoreModel {
        if self.is_open(id) {
            StoreModel { next: self.next, entries: self.entries.insert(id, (message, true)) }
        } else {
            self
        }
    }
}

/// Appending nothing changes nothing.
pub proof fn lemma_append_nothing(store: StoreModel, id: u64)
    ensures
        store.append(id, Seq::empty()) == store,
{
    if store.is_open(id) {
        assert(store.entries[id].0 + Seq::<char>::empty() =~= store.entries[id].0);
        assert(store.append(id, Seq::empty()).entries =~= store.entries);
    }
}

/// Two appends to one entry are one append of the two pieces joined.
pub proof fn lemma_append_twice(store: StoreModel, id: u64, first: Seq<char>, second: Seq<char>)
    ensures
        store.append(id, first).append(id, second) == store.append(id, first + second),
{
    if store.is_open(id) {
        assert((store.entries[id].0 + first) + second =~= store.entries[id].0 + (first + second));
        assert(store.append(id, first).append(id, second).entries =~= store.append(
            id,
            first + second,
        ).entries);
    }
}

/// The registry of streams: it hands out identifiers and keeps, for each, the
/// text gathered so far and whether the stream has ended. Entries are never
/// removed, and an ended entry never changes again.
pub struct StreamStore {
    counter: u64,
    entries: HashMap<u64, StreamEntry>,
}

/// The write side of one entry of a [`StreamStore`].
#[derive(Clone, Copy, Debug, PartialEq, Eq, Structural)]
pub struct StreamHandle {
    pub id: u64,
}

impl View for StreamStore {
    type V = StoreModel;

    closed spec fn view(&self) -> StoreModel {
        StoreModel {
            next: self.counter as nat,
            entries: Map::new(
                |id: u64| self.entries@.contains_key(id),
                |id: u64| (self.entries@[id].buffer@, self.entries@[id].done),
            ),
        }
    }
}

impl Default for StreamStore {
    fn default() -> (store: StreamStore)
        ensures
            store.wf(),
            store@ == StoreModel::fresh(),
    {
        StreamStore::new()
    }
}

impl StreamStore {
    /// The invariant of the registry: that of its model.
    pub open spec fn wf(&self) -> bool {
        self@.wf()
    }

    /// A registry without entries, whose first identifier will be 1.
    pub fn new() -> (store: StreamStore)
        ensures
            store.wf(),
            store@ == StoreModel::fresh(),
    {
        let store = StreamStore { counter: 1, entries: HashMap::new() };
        assert(store@.entries =~= Map::empty());
        store
    }

    /// Whether every identifier has been handed out.
    pub fn is_exhausted(&self) -> (full: bool)
        ensures
            full == (self@.next >= u64::MAX),
    {
        self.counter == u64::MAX
    }

    /// Creates an empty entry and hands out its identifier: one more than the
    /// one handed out before, starting at 1.
    pub fn create_handle(&mut self) -> (handle: StreamHandle)
        requires
            old(self).wf(),
            old(self)@.next < u64::MAX,
        ensures
            final(self).wf(),
            handle.id == old(self)@.next,
            final(self)@ == old(self)@.create(),
    {
        let id = self.counter;
        self.counter = id + 1;
        self.entries.insert(id, StreamEntry { buffer: String::new(), done: false });
        assert(self@.entries =~= old(self)@.create().entries);
        StreamHandle { id }
    }

    /// Adds `chunk` at the end of the text of `id`. An entry that has ended,
    /// or an identifier without an entry, leaves the registry as it is.
    pub fn append(&mut self, id: u64, chunk: &str)
        requires
            old(self).wf(),
        ensures
            final(self).wf(),
            final(self)@ == old(self)@.append(id, chunk@),
    {
        match self.entries.remove(&id) {
            Some(entry) => {
                let mut entry = entry;
                if !entry.done {
                    push_text(&mut entry.buffer, chunk);
                }
                self.entries.insert(id, entry);
            },
            None => {},
        }
        assert(self@.entries =~= old(self)@.append(id, chunk@).entries);
    }

    /// Puts `content` in the place of the text of `id`. An entry that has
    /// ended, or an identifier without an entry, leaves the registry as it is.
    pub fn replace(&mut self, id: u64, content: String)
        requires
            old(self).wf(),
        ensures
            final(self).wf(),
            final(self)@ == old(self)@.replace(id, content@),
    {
        match self.entries.remove(&id) {
            Some(entry) => {
                let mut entry = entry;
                if !entry.done {
                    entry.buffer = content;
                }
                self.entries.insert(id, entry);
            },
            None => {},
        }
        assert(self@.entries =~= old(self)@.replace(id, content@).entries);
    }

    /// Ends the entry of `id` with its text as it stands. An entry that has
    /// ended, or an identifier without an entry, leaves the registry as it is.
    pub fn finish(&mut self, id: u64)
        requires
            old(self).wf(),
        ensures
            final(self).wf(),
            final(self)@ == old(self)@.finish(id),
    {
        match self.entries.remove(&id) {
            Some(entry) => {
                let mut entry = entry;
                entry.done = true;
                self.entries.insert(id, entry);
            },
            None => {},
        }
        assert(self@.entries =~= old(self)@.finish(id).entries);
    }

    /// Ends the entry of `id` with `message` in the place of its text. An
    /// entry that has ended, or an identifier without an entry, leaves the
    /// registry as it is.
    pub fn fail(&mut self, id: u64, message: String)
        requires
            old(self).wf(),
        ensures
            final(self).wf(),
            final(self)@ == old(self)@.fail(id, message@),
    {
        match self.entries.remove(&id) {
            Some(entry) => {
                let mut entry = entry;
                if !entry.done {
                    entry.buffer = message;
                    entry.done = true;
                }
                self.entries.insert(id, entry);
            },
            None => {},
        }
        assert(self@.entries =~= old(self)@.fail(id, message@).entries);
    }

    /// A copy of the entry of `id`: its text and whether it has ended. An
    /// identifier without an entry is an error of its own.
    pub fn snapshot(&self, id: u64) -> (result: ChatResult<(String, bool)>)
        ensures
            match result {
                Ok(pair) => self@.entries.contains_key(id) && (pair.0@, pair.1)
                    == self@.entries[id],
                Err(error) => !self@.entries.contains_key(id) && error.is_not_found(),
            },
    {
        match self.entries.get(&id) {
            Some(entry) => Ok((entry.buffer.clone(), entry.done)),
            None => Err(ChatError::not_found()),
        }
    }
}

impl StreamHandle {
    /// Adds `piece` at the end of the text of this handle's entry.
    pub fn append(&self, store: &mut StreamStore, piece: &str)
        requires
            old(store).wf(),
        ensures
            final(store).wf(),
            final(store)@ == old(store)@.append(self.id, piece@),
    {
        store.append(self.id, piece);
    }

    /// Puts `content` in the place of the text of this handle's entry.
    pub fn replace(&self, store: &mut StreamStore, content: String)
        requires
            old(store).wf(),
        ensures
            final(store).wf(),
            final(store)@ == old(store)@.replace(self.id, content@),
    {
        store.replace(self.id, content);
    }

    /// Ends this handle's entry with its text as it stands.
    pub fn finish(&self, store: &mut StreamStore)
        requires
            old(store).wf(),
        ensures
            final(store).wf(),
            final(store)@ == old(store)@.finish(self.id),
    {
        store.finish(self.id);
    }

    /// Ends this handle's entry with `err` in the place of its text.
    pub fn fail(&self, store: &mut StreamStore, err: &str)
        requires
            old(store).wf(),
        ensures
            final(store).wf(),
            final(store)@ == old(store)@.fail(self.id, err@),
    {
        store.fail(self.id, String::from_str(err));
    }
}

} // verus!
