//! The kernel's map from thread id to thread, kept in a `hashbrown` hash map.

use vstd::prelude::*;
use crate::kthread::Thread;

verus! {

/// The threads the kernel knows, by id, in a `hashbrown::HashMap`. Verus does not see
/// inside it: what it holds is named by `thread_map_contents`, and the functions below,
/// whose bodies are not verified, claim what `new`, `get`, `insert` and `remove` of
/// `hashbrown` do to that.
#[verifier::external_body]
pub struct ThreadMap {
    map: hashbrown::HashMap<u64, Thread>,
}

/// The threads a map holds, by id: the key-value pairs of its `hashbrown::HashMap`.
pub uninterp spec fn thread_map_contents(m: ThreadMap) -> Map<u64, Thread>;

impl ThreadMap {
    /// The threads the map holds, by id.
    pub open spec fn contents(&self) -> Map<u64, Thread> {
        thread_map_contents(*self)
    }

    /// Calls `hashbrown::HashMap::new`; claimed: the map holds nothing.
    #[verifier::external_body]
    pub(crate) fn new() -> (r: ThreadMap)
        ensures
            thread_map_contents(r) =~= Map::empty(),
    {
        ThreadMap { map: hashbrown::HashMap::new() }
    }

    /// Calls `hashbrown::HashMap::get`; claimed: a reference to the thread stored under
    /// `id` when there is one, `None` otherwise.
    #[verifier::external_body]
    pub(crate) fn get(&self, id: u64) -> (r: Option<&Thread>)
        ensures
            match r {
                Some(t) => thread_map_contents(*self).contains_key(id) && *t
                    == thread_map_contents(*self)[id],
                None => !thread_map_contents(*self).contains_key(id),
            },
    {
        self.map.get(&id)
    }

    /// Calls `hashbrown::HashMap::insert`; claimed: afterwards `t` is stored under `id` and
    /// nothing else changed, and the thread stored there before, if any, is handed back.
    #[verifier::external_body]
    pub(crate) fn insert(&mut self, id: u64, t: Thread) -> (r: Option<Thread>)
        ensures
            thread_map_contents(*final(self)) == thread_map_contents(*old(self)).insert(id, t),
            r == (if thread_map_contents(*old(self)).contains_key(id) {
                Some(thread_map_contents(*old(self))[id])
            } else {
                None
            }),
    {
        self.map.insert(id, t)
    }

    /// Calls `hashbrown::HashMap::remove`; claimed: afterwards nothing is stored under `id`
    /// and nothing else changed, and the thread that was stored there, if any, is handed
    /// back.
    #[verifier::external_body]
    pub(crate) fn remove(&mut self, id: u64) -> (r: Option<Thread>)
        ensures
            thread_map_contents(*final(self)) == thread_map_contents(*old(self)).remove(id),
            r == (if thread_map_contents(*old(self)).contains_key(id) {
                Some(thread_map_contents(*old(self))[id])
            } else {
                None
            }),
    {
        self.map.remove(&id)
    }
}

} // verus!
