//! The thread metadata shared between the kernel and the scheduler domain.

use vstd::prelude::*;

verus! {

/// Highest priority a thread may be given.
pub const MAX_PRIO: usize = 15;
/// Number of CPUs the kernel can drive.
pub const MAX_CPUS: usize = 64;
/// Depth of each thread's continuation stack.
pub const MAX_CONT: usize = 10;
/// Number of slots in the thread metadata table; a thread id is its slot.
pub const META_SLOTS: usize = 256;
/// The value the queue clock of a fresh table holds.
pub const INITIAL_CLOCK: u64 = 12;

/// Scheduling state of a thread.
#[derive(Clone, Copy, Debug, PartialEq, Eq, Structural)]
pub enum ThreadState {
    Running,
    Runnable,
    Paused,
    Waiting,
    Idle,
    Rebalanced,
}

pub type Priority = usize;

/// What the scheduler domain knows of a thread.
#[derive(Clone, Copy, Debug, PartialEq, Eq, Structural)]
pub struct ThreadMeta {
    pub id: u64,
    pub current_domain_id: u64,
    pub state: ThreadState,
    pub priority: Priority,
    pub affinity: u64,
    pub rebalance: bool,
    pub last_queued: u64,
    pub run_delay: u64,
}

/// Error of a call across a domain boundary.
#[derive(Clone, Copy, Debug, PartialEq, Eq, Structural)]
pub enum RpcError {
    /// The callee domain unwound.
    Unwind,
}

pub type RpcResult<T> = Result<T, RpcError>;

/// The table after `meta` was stored in slot `index`.
pub open spec fn table_store(
    table: Seq<Option<ThreadMeta>>,
    index: int,
    meta: ThreadMeta,
) -> Seq<Option<ThreadMeta>> {
    table.update(index, Some(meta))
}

/// The table after slot `index` was emptied.
pub open spec fn table_clear(table: Seq<Option<ThreadMeta>>, index: int) -> Seq<Option<ThreadMeta>> {
    table.update(index, None)
}

/// The table of thread metadata, indexed by thread id, with the queue clock.
pub struct ThreadMetaQueuesInner {
    pub inner_queue: Vec<Option<ThreadMeta>>,
    clock: u64,
    run_delay: u64,
}

impl ThreadMetaQueuesInner {
    /// The slots of the table.
    pub closed spec fn slots(&self) -> Seq<Option<ThreadMeta>> {
        self.inner_queue@
    }

    /// The table has its full number of slots.
    pub open spec fn wf(&self) -> bool {
        self.slots().len() == META_SLOTS
    }

    /// The running queue clock.
    pub closed spec fn clock_value(&self) -> u64 {
        self.clock
    }

    /// The accumulated run delay of the queue.
    pub closed spec fn run_delay_value(&self) -> u64 {
        self.run_delay
    }

    /// An empty table whose clock starts at a non-zero value.
    pub fn new() -> (r: ThreadMetaQueuesInner)
        ensures
            r.wf(),
            forall|i: int| 0 <= i < META_SLOTS ==> #[trigger] r.slots()[i] is None,
            r.clock_value() == INITIAL_CLOCK,
            r.run_delay_value() == 0,
    {
        let mut inner_queue: Vec<Option<ThreadMeta>> = Vec::new();
        let mut i: usize = 0;
        while i < META_SLOTS
            invariant
                i <= META_SLOTS,
                inner_queue@.len() == i,
                forall|j: int| 0 <= j < i ==> #[trigger] inner_queue@[j] is None,
            decreases META_SLOTS - i,
        {
            inner_queue.push(None);
            i = i + 1;
        }
        ThreadMetaQueuesInner { inner_queue, clock: INITIAL_CLOCK, run_delay: 0 }
    }

    /// Stores `meta` in slot `index`, replacing what was there.
    pub fn set_thread(&mut self, index: u64, meta: ThreadMeta)
        requires
            old(self).wf(),
            index < META_SLOTS,
        ensures
            final(self).wf(),
            final(self).slots() == table_store(old(self).slots(), index as int, meta),
            final(self).clock_value() == old(self).clock_value(),
            final(self).run_delay_value() == old(self).run_delay_value(),
            crate::sched_domain::table_call(*old(self), *final(self)),
    {
        self.inner_queue.set(index as usize, Some(meta));
        proof {
            let before = *old(self);
            assert(self.slots() == table_store(before.slots(), index as int, meta));
        }
    }

    /// What slot `index` holds.
    pub fn slot(&self, index: usize) -> (r: Option<ThreadMeta>)
        requires
            self.wf(),
            index < META_SLOTS,
        ensures
            r == self.slots()[index as int],
    {
        self.inner_queue[index]
    }

    /// Empties slot `index` and hands back what it held.
    pub fn take_slot(&mut self, index: usize) -> (r: Option<ThreadMeta>)
        requires
            old(self).wf(),
            index < META_SLOTS,
        ensures
            r == old(self).slots()[index as int],
            final(self).wf(),
            final(self).slots() == table_clear(old(self).slots(), index as int),
            final(self).clock_value() == old(self).clock_value(),
            final(self).run_delay_value() == old(self).run_delay_value(),
            crate::sched_domain::table_call(*old(self), *final(self)),
    {
        let r = self.inner_queue[index];
        self.inner_queue.set(index, None);
        proof {
            let before = *old(self);
            assert(self.slots() == table_clear(before.slots(), index as int));
        }
        r
    }

    /// A copy of the table with its clock and run delay.
    pub fn duplicate(&self) -> (r: ThreadMetaQueuesInner)
        ensures
            r.slots() == self.slots(),
            r.clock_value() == self.clock_value(),
            r.run_delay_value() == self.run_delay_value(),
    {
        let mut inner_queue: Vec<Option<ThreadMeta>> = Vec::new();
        let mut i: usize = 0;
        while i < self.inner_queue.len()
            invariant
                i <= self.inner_queue@.len(),
                inner_queue@ == self.inner_queue@.subrange(0, i as int),
            decreases self.inner_queue@.len() - i,
        {
            inner_queue.push(self.inner_queue[i]);
            i = i + 1;
            assert(inner_queue@ =~= self.inner_queue@.subrange(0, i as int));
        }
        assert(inner_queue@ =~= self.inner_queue@);
        ThreadMetaQueuesInner { inner_queue, clock: self.clock, run_delay: self.run_delay }
    }

    /// The running queue clock.
    pub fn get_clock(&self) -> (r: u64)
        ensures
            r == self.clock_value(),
    {
        self.clock
    }

    /// Adds `run_delay` to the run delay of the queue.
    pub fn add_run_delay(&mut self, run_delay: u64)
        requires
            old(self).run_delay_value() + run_delay <= u64::MAX,
        ensures
            final(self).run_delay_value() == old(self).run_delay_value() + run_delay,
            final(self).slots() == old(self).slots(),
            final(self).clock_value() == old(self).clock_value(),
            crate::sched_domain::table_call(*old(self), *final(self)),
    {
        self.run_delay = self.run_delay + run_delay;
    }
}

/// The interface of a scheduler domain.
pub trait Scheduler {
    /// Records `idle` as the idle thread.
    fn set_idle_thread(&mut self, idle: u64) -> RpcResult<()>;

    /// The id of the idle thread.
    fn get_idle_thread(&self) -> RpcResult<u64>;

    /// Takes the next thread to run out of `queue`, if there is one.
    fn get_next(&self, queue: &mut ThreadMetaQueuesInner) -> RpcResult<Option<ThreadMeta>>
        requires
            old(queue).wf(),
            crate::sched_domain::next_fits(old(queue).slots(), old(queue).clock_value()),
    ;

    /// Puts `meta` back into `queue` under its id.
    fn add_thread(&self, queue: &mut ThreadMetaQueuesInner, meta: ThreadMeta)
        requires
            old(queue).wf(),
            meta.id < META_SLOTS,
    ;
}

/// The metadata table as the kernel holds it.
pub struct ThreadMetaQueues {
    pub(crate) queue: ThreadMetaQueuesInner,
}

impl ThreadMetaQueues {
    /// The slots of the table.
    pub closed spec fn slots(&self) -> Seq<Option<ThreadMeta>> {
        self.queue.slots()
    }

    /// The table has its full number of slots.
    pub open spec fn wf(&self) -> bool {
        self.slots().len() == META_SLOTS
    }

    /// A table with every slot empty.
    pub fn new() -> (r: ThreadMetaQueues)
        ensures
            r.wf(),
            forall|i: int| 0 <= i < META_SLOTS ==> #[trigger] r.slots()[i] is None,
            r.get_queue_ref().clock_value() == INITIAL_CLOCK,
    {
        ThreadMetaQueues { queue: ThreadMetaQueuesInner::new() }
    }

    /// Stores `meta` in slot `index`.
    pub fn add_thread(&mut self, index: u64, meta: ThreadMeta)
        requires
            old(self).wf(),
            index < META_SLOTS,
        ensures
            final(self).wf(),
            final(self).slots() == table_store(old(self).slots(), index as int, meta),
            final(self).get_queue_ref().clock_value() == old(self).get_queue_ref().clock_value(),
    {
        self.queue.set_thread(index, meta);
    }

    /// A reference to the metadata in slot `index`, which must be filled.
    pub fn get_thread_ref(&self, index: u64) -> (r: &ThreadMeta)
        requires
            self.wf(),
            index < META_SLOTS,
            self.slots()[index as int] is Some,
        ensures
            Some(*r) == self.slots()[index as int],
    {
        self.queue.inner_queue[index as usize].as_ref().unwrap()
    }

    /// Takes the metadata out of slot `index`, which must be filled, leaving it empty.
    pub fn get_thread(&mut self, index: u64) -> (r: ThreadMeta)
        requires
            old(self).wf(),
            index < META_SLOTS,
            old(self).slots()[index as int] is Some,
        ensures
            Some(r) == old(self).slots()[index as int],
            final(self).wf(),
            final(self).slots() == table_clear(old(self).slots(), index as int),
            final(self).get_queue_ref().clock_value() == old(self).get_queue_ref().clock_value(),
    {
        self.queue.take_slot(index as usize).unwrap()
    }

    /// The table with its clock, as the scheduler domain reads it.
    #[verifier::when_used_as_spec(queue_spec)]
    pub fn get_queue_ref(&self) -> (r: &ThreadMetaQueuesInner)
        ensures
            r == self.queue_spec(),
            r.slots() == self.slots(),
    {
        &self.queue
    }

    /// The table with its clock.
    pub closed spec fn queue_spec(&self) -> &ThreadMetaQueuesInner {
        &self.queue
    }

    /// The table with its clock that the kernel hands to the scheduler domain is the one
    /// `slots` and `get_queue_ref` describe.
    pub(crate) proof fn lemma_inner(&self)
        ensures
            self.queue.slots() == self.slots(),
            self.queue.clock_value() == self.get_queue_ref().clock_value(),
            self.queue.run_delay_value() == self.get_queue_ref().run_delay_value(),
    {
    }

}

/// A thread stored in a slot is what a later read of that slot takes back, and the
/// slot is empty afterwards; the other slots keep what they held.
pub proof fn law_store_then_take(table: Seq<Option<ThreadMeta>>, index: int, meta: ThreadMeta)
    requires
        0 <= index < table.len(),
    ensures
        table_store(table, index, meta)[index] == Some(meta),
        table_clear(table_store(table, index, meta), index) == table_clear(table, index),
        forall|j: int|
            0 <= j < table.len() && j != index ==> #[trigger] table_store(table, index, meta)[j]
                == table[j],
{
    assert(table_clear(table_store(table, index, meta), index) =~= table_clear(table, index));
}

} // verus!
