//! The scheduler domain: picks the next thread to run from the metadata table.

use vstd::prelude::*;
use crate::sched::{
    table_clear, table_store, RpcResult, ThreadMeta, ThreadMetaQueuesInner, ThreadState,
    META_SLOTS,
};

verus! {

/// Slot `i` holds a thread that may be picked: one whose state is `Runnable`.
pub open spec fn is_candidate(table: Seq<Option<ThreadMeta>>, i: int) -> bool {
    &&& 0 <= i < table.len()
    &&& table[i] is Some
    &&& table[i].unwrap().state == ThreadState::Runnable
}

/// Slot `i` is the one picked: a candidate of the highest priority, and the last such one.
pub open spec fn is_pick(table: Seq<Option<ThreadMeta>>, i: int) -> bool {
    &&& is_candidate(table, i)
    &&& forall|j: int|
        #![trigger is_candidate(table, j)]
        is_candidate(table, j) ==> table[j].unwrap().priority <= table[i].unwrap().priority
    &&& forall|j: int|
        #![trigger is_candidate(table, j)]
        i < j && is_candidate(table, j) ==> table[j].unwrap().priority < table[i].unwrap().priority
}

/// The slot that `get_next` picks, if any slot holds a runnable thread.
pub open spec fn pick(table: Seq<Option<ThreadMeta>>) -> Option<int> {
    if exists|i: int| is_pick(table, i) {
        Some(choose|i: int| is_pick(table, i))
    } else {
        None
    }
}

/// The metadata a picked thread is handed out with: no longer queued, and the time it
/// waited in the queue added to its run delay.
pub open spec fn dequeued(t: ThreadMeta, clock: u64) -> ThreadMeta {
    ThreadMeta { last_queued: 0, run_delay: (t.run_delay + (clock - t.last_queued)) as u64, ..t }
}

/// The table and the answer after `get_next` on `table` with queue clock `clock`.
pub open spec fn next_outcome(table: Seq<Option<ThreadMeta>>, clock: u64) -> (
    Seq<Option<ThreadMeta>>,
    Option<ThreadMeta>,
) {
    match pick(table) {
        None => (table, None),
        Some(i) => {
            let t = table[i].unwrap();
            (
                table_clear(table, i),
                if t.last_queued == 0 {
                    None
                } else {
                    Some(dequeued(t, clock))
                },
            )
        },
    }
}

/// The arithmetic of `get_next` on `table` stays in range: the picked thread was not
/// queued after `clock`, and its run delay can take the wait.
pub open spec fn next_fits(table: Seq<Option<ThreadMeta>>, clock: u64) -> bool {
    match pick(table) {
        None => true,
        Some(i) => {
            let t = table[i].unwrap();
            t.last_queued == 0 || (t.last_queued <= clock && t.run_delay + (clock - t.last_queued)
                <= u64::MAX)
        },
    }
}

/// The metadata `add_thread` stores: stamped with the clock if it was not queued.
pub open spec fn enqueued(meta: ThreadMeta, clock: u64) -> ThreadMeta {
    if meta.last_queued == 0 {
        ThreadMeta { last_queued: clock, ..meta }
    } else {
        meta
    }
}

/// No two slots are picked.
pub proof fn lemma_pick_unique(table: Seq<Option<ThreadMeta>>, i: int, j: int)
    requires
        is_pick(table, i),
        is_pick(table, j),
    ensures
        i == j,
{
    if i < j {
        assert(is_candidate(table, j));
    } else if j < i {
        assert(is_candidate(table, i));
    }
}

/// The last highest-priority candidate among the first `n` slots, if there is one.
proof fn lemma_best_in_prefix(table: Seq<Option<ThreadMeta>>, n: int) -> (b: Option<int>)
    requires
        0 <= n <= table.len(),
    ensures
        match b {
            None => forall|j: int| 0 <= j < n ==> !#[trigger] is_candidate(table, j),
            Some(b) => {
                &&& 0 <= b < n
                &&& is_candidate(table, b)
                &&& forall|j: int|
                    0 <= j < n && #[trigger] is_candidate(table, j) ==> table[j].unwrap().priority
                        <= table[b].unwrap().priority
                &&& forall|j: int|
                    b < j < n && #[trigger] is_candidate(table, j) ==> table[j].unwrap().priority
                        < table[b].unwrap().priority
            },
        },
    decreases n,
{
    if n == 0 {
        None
    } else {
        let r = lemma_best_in_prefix(table, n - 1);
        if is_candidate(table, n - 1) {
            match r {
                None => Some(n - 1),
                Some(b) => {
                    if table[n - 1].unwrap().priority >= table[b].unwrap().priority {
                        Some(n - 1)
                    } else {
                        Some(b)
                    }
                },
            }
        } else {
            r
        }
    }
}

/// A slot is picked exactly when some slot holds a runnable thread, and the picked
/// slot holds a runnable thread whose priority no other runnable thread exceeds.
pub proof fn law_pick_is_highest_runnable(table: Seq<Option<ThreadMeta>>)
    ensures
        pick(table) is Some <==> exists|j: int| is_candidate(table, j),
        pick(table) matches Some(i) ==> {
            &&& is_candidate(table, i)
            &&& forall|j: int|
                #[trigger] is_candidate(table, j) ==> table[j].unwrap().priority
                    <= table[i].unwrap().priority
        },
{
    let b = lemma_best_in_prefix(table, table.len() as int);
    match b {
        None => {
            assert(forall|j: int| !#[trigger] is_candidate(table, j));
        },
        Some(b) => {
            assert(is_pick(table, b));
        },
    }
}

/// `get_next` hands out a runnable thread only, and the threads left runnable in the
/// table have no higher priority than the one it handed out.
pub proof fn law_next_is_highest_runnable(table: Seq<Option<ThreadMeta>>, clock: u64)
    ensures
        next_outcome(table, clock).1 matches Some(t) ==> {
            &&& t.state == ThreadState::Runnable
            &&& forall|j: int|
                #[trigger] is_candidate(next_outcome(table, clock).0, j)
                    ==> next_outcome(table, clock).0[j].unwrap().priority <= t.priority
        },
        (forall|j: int| !#[trigger] is_candidate(table, j)) ==> next_outcome(table, clock) == (
            table,
            None::<ThreadMeta>,
        ),
{
    law_pick_is_highest_runnable(table);
    if let Some(i) = pick(table) {
        let after = next_outcome(table, clock).0;
        assert forall|j: int| #[trigger] is_candidate(after, j) implies is_candidate(table, j) by {
            assert(j != i);
        }
    }
}

/// A thread that `get_next` handed out and `add_thread` put back is what the next
/// `get_next` hands out again, unchanged, when no other thread of the table is runnable.
pub proof fn law_requeued_comes_back(table: Seq<Option<ThreadMeta>>, meta: ThreadMeta, clock: u64)
    requires
        0 <= meta.id < table.len(),
        meta.state == ThreadState::Runnable,
        meta.last_queued == 0,
        clock > 0,
        forall|j: int| j != meta.id ==> !#[trigger] is_candidate(table, j),
    ensures
        ({
            let requeued = table_store(table, meta.id as int, enqueued(meta, clock));
            &&& next_fits(requeued, clock)
            &&& next_outcome(requeued, clock) == (
                table_clear(table, meta.id as int),
                Some(meta),
            )
        }),
{
    let requeued = table_store(table, meta.id as int, enqueued(meta, clock));
    assert(is_candidate(requeued, meta.id as int));
    assert forall|j: int| j != meta.id implies !#[trigger] is_candidate(requeued, j) by {
        assert(!is_candidate(table, j));
    }
    assert(is_pick(requeued, meta.id as int));
    let c = choose|j: int| is_pick(requeued, j);
    lemma_pick_unique(requeued, meta.id as int, c);
    assert(table_clear(requeued, meta.id as int) =~= table_clear(table, meta.id as int));
    assert(dequeued(enqueued(meta, clock), clock) == meta);
}

/// `after` is what one call on the metadata table can leave of `before`, as the calls
/// state it: storing a thread in a slot, emptying a slot, adding run delay, the scheduler
/// domain putting a thread back, or the scheduler domain taking the next thread out.
pub open spec fn table_call(before: ThreadMetaQueuesInner, after: ThreadMetaQueuesInner) -> bool {
    &&& after.clock_value() == before.clock_value()
    &&& {
        ||| exists|index: int, meta: ThreadMeta|
            0 <= index < META_SLOTS && after.slots() == #[trigger] table_store(
                before.slots(),
                index,
                meta,
            ) && after.run_delay_value() == before.run_delay_value()
        ||| exists|index: int|
            0 <= index < META_SLOTS && after.slots() == #[trigger] table_clear(
                before.slots(),
                index,
            ) && after.run_delay_value() == before.run_delay_value()
        ||| after.slots() == before.slots() && after.run_delay_value() >= before.run_delay_value()
        ||| exists|meta: ThreadMeta|
            meta.id < META_SLOTS && after.slots() == table_store(
                before.slots(),
                meta.id as int,
                #[trigger] enqueued(meta, before.clock_value()),
            ) && after.run_delay_value() == before.run_delay_value()
        ||| after.slots() == next_outcome(before.slots(), before.clock_value()).0
            && after.run_delay_value() == before.run_delay_value()
    }
}

/// Step `k` of the run of tables `states` is one call on the table.
pub open spec fn called_between(states: Seq<ThreadMetaQueuesInner>, k: int) -> bool {
    table_call(states[k], states[k + 1])
}

/// The queue clock of a fresh table is never changed and never zero: after any sequence
/// of calls on the table, `get_clock` still reads the value the table started with.
pub proof fn law_clock_stays(states: Seq<ThreadMetaQueuesInner>)
    requires
        states.len() > 0,
        states[0].clock_value() == crate::sched::INITIAL_CLOCK,
        forall|k: int| 0 <= k < states.len() - 1 ==> #[trigger] called_between(states, k),
    ensures
        forall|k: int|
            0 <= k < states.len() ==> #[trigger] states[k].clock_value() == crate::sched::INITIAL_CLOCK,
        forall|k: int| 0 <= k < states.len() ==> #[trigger] states[k].clock_value() != 0,
    decreases states.len(),
{
    if states.len() > 1 {
        let shorter = states.drop_last();
        assert forall|k: int| 0 <= k < shorter.len() - 1 implies #[trigger] called_between(
            shorter,
            k,
        ) by {
            assert(called_between(states, k));
        }
        law_clock_stays(shorter);
        let last = states.len() - 1;
        assert(called_between(states, last - 1));
        assert(states[last - 1] == shorter[last - 1]);
        assert forall|k: int| 0 <= k < states.len() implies #[trigger] states[k].clock_value()
            == crate::sched::INITIAL_CLOCK by {
            if k < last {
                assert(states[k] == shorter[k]);
            }
        }
    }
}

/// The scheduler domain's own state.
pub struct Scheduler {
    idle: u64,
}

impl Scheduler {
    /// The id of the idle thread.
    pub closed spec fn idle_id(&self) -> u64 {
        self.idle
    }

    /// A scheduler whose idle thread is thread 0.
    pub fn new() -> (r: Scheduler)
        ensures
            r.idle_id() == 0,
    {
        Scheduler { idle: 0 }
    }

}

impl crate::sched::Scheduler for Scheduler {
    /// Records `idle` as the idle thread.
    fn set_idle_thread(&mut self, idle: u64) -> (r: RpcResult<()>)
        ensures
            r == Ok::<(), crate::sched::RpcError>(()),
            final(self).idle_id() == idle,
    {
        self.idle = idle;
        Ok(())
    }

    /// The id of the idle thread.
    fn get_idle_thread(&self) -> (r: RpcResult<u64>)
        ensures
            r == Ok::<u64, crate::sched::RpcError>(self.idle_id()),
    {
        Ok(self.idle)
    }

    /// Takes the runnable thread of the highest priority (the last one of them in the
    /// table) out of the table. A thread that was not queued is dropped and `None`
    /// answered; otherwise the thread comes back unqueued with its wait added to its
    /// run delay. With no runnable thread the table is left as it is.
    fn get_next(&self, queue: &mut ThreadMetaQueuesInner) -> (r: RpcResult<Option<ThreadMeta>>)
        ensures
            final(queue).wf(),
            final(queue).slots() == next_outcome(old(queue).slots(), old(queue).clock_value()).0,
            r == Ok::<Option<ThreadMeta>, crate::sched::RpcError>(
                next_outcome(old(queue).slots(), old(queue).clock_value()).1,
            ),
            final(queue).clock_value() == old(queue).clock_value(),
            final(queue).run_delay_value() == old(queue).run_delay_value(),
            table_call(*old(queue), *final(queue)),
    {
        let ghost table = queue.slots();
        let mut best: Option<usize> = None;
        let mut best_prio: usize = 0;
        let mut i: usize = 0;
        while i < META_SLOTS
            invariant
                queue.wf(),
                queue.slots() == table,
                i <= META_SLOTS,
                match best {
                    None => forall|j: int| 0 <= j < i ==> !#[trigger] is_candidate(table, j),
                    Some(b) => {
                        &&& b < i
                        &&& is_candidate(table, b as int)
                        &&& table[b as int].unwrap().priority == best_prio
                        &&& forall|j: int|
                            0 <= j < i && #[trigger] is_candidate(table, j)
                                ==> table[j].unwrap().priority <= best_prio
                        &&& forall|j: int|
                            b < j < i && #[trigger] is_candidate(table, j)
                                ==> table[j].unwrap().priority < best_prio
                    },
                },
            decreases META_SLOTS - i,
        {
            match queue.slot(i) {
                Some(t) => {
                    if t.state == ThreadState::Runnable {
                        match best {
                            None => {
                                best = Some(i);
                                best_prio = t.priority;
                            },
                            Some(_) => {
                                if t.priority >= best_prio {
                                    best = Some(i);
                                    best_prio = t.priority;
                                }
                            },
                        }
                    }
                },
                None => {},
            }
            i = i + 1;
        }
        match best {
            None => {
                assert(!exists|j: int| is_pick(table, j));
                Ok(None)
            },
            Some(b) => {
                assert(is_pick(table, b as int));
                proof {
                    let c = choose|j: int| is_pick(table, j);
                    lemma_pick_unique(table, b as int, c);
                }
                let mut t = queue.take_slot(b).unwrap();
                if t.last_queued == 0 {
                    return Ok(None);
                }
                let delta = queue.get_clock() - t.last_queued;
                t.last_queued = 0;
                t.run_delay = t.run_delay + delta;
                Ok(Some(t))
            },
        }
    }

    /// Puts `meta` back in the table under its id, stamped with the queue clock if
    /// it was not queued.
    fn add_thread(&self, queue: &mut ThreadMetaQueuesInner, meta: ThreadMeta)
        ensures
            final(queue).wf(),
            final(queue).slots() == table_store(
                old(queue).slots(),
                meta.id as int,
                enqueued(meta, old(queue).clock_value()),
            ),
            final(queue).clock_value() == old(queue).clock_value(),
            final(queue).run_delay_value() == old(queue).run_delay_value(),
            table_call(*old(queue), *final(queue)),
    {
        let mut t = meta;
        let id = t.id;
        if t.last_queued == 0 {
            t.last_queued = queue.get_clock();
        }
        queue.set_thread(id, t);
    }
}

} // verus!
