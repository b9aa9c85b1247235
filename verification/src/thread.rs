//! A scheduler with an active and a passive run queue, flipped when the active one
//! runs dry.

use vstd::prelude::*;

verus! {

/// Number of priority levels the run queues have.
pub const QUEUE_COUNT: usize = 1;

pub type Priority = usize;

/// Scheduling state of a thread.
#[derive(Clone, Copy, Debug, PartialEq, Eq, Structural)]
pub enum State {
    Running,
    Runnable,
    Paused,
}

/// The callee-saved registers of a thread that is not running.
#[derive(Clone, Copy, Debug, PartialEq, Eq, Structural)]
pub struct Context {
    pub r15: usize,
    pub r14: usize,
    pub r13: usize,
    pub r12: usize,
    pub r11: usize,
    pub rbx: usize,
    pub rbp: usize,
    pub rsp: usize,
    pub rflags: usize,
}

/// The context with every register zero.
pub open spec fn zero_context() -> Context {
    Context { r15: 0, r14: 0, r13: 0, r12: 0, r11: 0, rbx: 0, rbp: 0, rsp: 0, rflags: 0 }
}

impl Context {
    /// A context with every register zero.
    pub fn new() -> (r: Context)
        ensures
            r == zero_context(),
    {
        Context { rflags: 0, rbx: 0, r11: 0, r12: 0, r13: 0, r14: 0, r15: 0, rbp: 0, rsp: 0 }
    }
}

/// A thread as the run queues hold it.
#[derive(Debug)]
pub struct Thread {
    pub state: State,
    pub priority: Priority,
    pub context: Context,
}

/// A run queue: one list per priority level, each used as a stack whose head is its
/// last element, and the highest level that was filled.
pub struct SchedulerQueue {
    highest: Priority,
    queues: Vec<Vec<Thread>>,
}

impl SchedulerQueue {
    /// The threads of priority level `level`, the head last.
    pub closed spec fn level(&self, level: int) -> Seq<Thread> {
        self.queues@[level]@
    }

    /// The threads of the only priority level, the head last.
    pub open spec fn threads(&self) -> Seq<Thread> {
        self.level(0)
    }

    /// The highest level that was filled.
    pub closed spec fn highest_level(&self) -> Priority {
        self.highest
    }

    /// Every priority level is there and the highest level is one of them.
    pub closed spec fn wf(&self) -> bool {
        &&& self.queues@.len() == QUEUE_COUNT
        &&& self.highest < QUEUE_COUNT
    }

    /// An empty run queue.
    pub fn new() -> (r: SchedulerQueue)
        ensures
            r.wf(),
            r.threads() == Seq::<Thread>::empty(),
            r.highest_level() == 0,
    {
        let mut queues: Vec<Vec<Thread>> = Vec::new();
        queues.push(Vec::new());
        let r = SchedulerQueue { highest: 0, queues };
        assert(r.threads() =~= Seq::<Thread>::empty());
        r
    }

    /// Pushes `thread` on the head of the list of its priority level.
    pub fn put_thread(&mut self, thread: Thread)
        requires
            old(self).wf(),
            thread.priority < QUEUE_COUNT,
        ensures
            final(self).wf(),
            final(self).threads() == old(self).threads().push(thread),
            final(self).highest_level() == old(self).highest_level(),
    {
        let prio = thread.priority;
        let mut list = self.queues.remove(prio);
        list.push(thread);
        self.queues.insert(prio, list);
        if self.highest < prio {
            self.highest = prio;
        }
        assert(self.threads() =~= old(self).threads().push(thread));
    }

    /// Whether the queue holds a thread.
    pub fn has_threads(&self) -> (r: bool)
        requires
            self.wf(),
        ensures
            r == (self.threads().len() > 0),
    {
        self.queues[0].len() > 0
    }

    /// Pops the head of the highest filled level, if there is one.
    pub fn get_highest(&mut self) -> (r: Option<Thread>)
        requires
            old(self).wf(),
        ensures
            final(self).wf(),
            final(self).highest_level() == old(self).highest_level(),
            old(self).threads().len() == 0 ==> r is None && final(self).threads()
                == old(self).threads(),
            old(self).threads().len() > 0 ==> r == Some(old(self).threads().last())
                && final(self).threads() == old(self).threads().drop_last(),
    {
        loop
            invariant
                self.wf(),
                self.threads() == old(self).threads(),
                self.highest_level() == old(self).highest_level(),
            decreases QUEUE_COUNT - self.highest,
        {
            let h = self.highest;
            let mut list = self.queues.remove(h);
            let popped = list.pop();
            self.queues.insert(h, list);
            match popped {
                None => {
                    assert(self.threads() =~= old(self).threads());
                    if self.highest == 0 {
                        return None;
                    }
                    self.highest = self.highest + 1;
                },
                Some(t) => {
                    assert(self.threads() =~= old(self).threads().drop_last());
                    return Some(t);
                },
            }
        }
    }
}

/// The scheduler: two run queues, one of them active.
pub struct Scheduler {
    active: bool,
    active_queue: SchedulerQueue,
    passive_queue: SchedulerQueue,
}

impl Scheduler {
    /// Which of the two queues is active: `true` for the first.
    pub closed spec fn first_active(&self) -> bool {
        self.active
    }

    /// The threads of the queue that is active, the next to run last.
    pub closed spec fn running_threads(&self) -> Seq<Thread> {
        if self.active {
            self.active_queue.threads()
        } else {
            self.passive_queue.threads()
        }
    }

    /// The threads of the queue that is passive, the next to run last.
    pub closed spec fn waiting_threads(&self) -> Seq<Thread> {
        if self.active {
            self.passive_queue.threads()
        } else {
            self.active_queue.threads()
        }
    }

    /// Both queues are well formed.
    pub closed spec fn wf(&self) -> bool {
        self.active_queue.wf() && self.passive_queue.wf()
    }

    /// A scheduler with both queues empty and the first one active.
    pub fn new() -> (r: Scheduler)
        ensures
            r.wf(),
            r.first_active(),
            r.running_threads() == Seq::<Thread>::empty(),
            r.waiting_threads() == Seq::<Thread>::empty(),
    {
        Scheduler {
            active: true,
            active_queue: SchedulerQueue::new(),
            passive_queue: SchedulerQueue::new(),
        }
    }

    /// Whether either queue holds a thread, so that `schedule` finds one.
    pub fn has_threads(&self) -> (r: bool)
        requires
            self.wf(),
        ensures
            r == (self.running_threads().len() + self.waiting_threads().len() > 0),
    {
        self.active_queue.has_threads() || self.passive_queue.has_threads()
    }

    /// Puts `thread` on the queue that is passive.
    pub fn put_in_passive(&mut self, thread: Thread)
        requires
            old(self).wf(),
            thread.priority < QUEUE_COUNT,
        ensures
            final(self).wf(),
            final(self).first_active() == old(self).first_active(),
            final(self).running_threads() == old(self).running_threads(),
            final(self).waiting_threads() == old(self).waiting_threads().push(thread),
    {
        if !self.active {
            self.active_queue.put_thread(thread)
        } else {
            self.passive_queue.put_thread(thread)
        }
    }

    /// Takes the next thread from the queue that is active.
    pub fn get_next_active(&mut self) -> (r: Option<Thread>)
        requires
            old(self).wf(),
        ensures
            final(self).wf(),
            final(self).first_active() == old(self).first_active(),
            final(self).waiting_threads() == old(self).waiting_threads(),
            old(self).running_threads().len() == 0 ==> r is None && final(self).running_threads()
                == old(self).running_threads(),
            old(self).running_threads().len() > 0 ==> r == Some(old(self).running_threads().last())
                && final(self).running_threads() == old(self).running_threads().drop_last(),
    {
        if self.active {
            self.active_queue.get_highest()
        } else {
            self.passive_queue.get_highest()
        }
    }

    /// Takes the next thread from the queue that is active.
    pub fn get_next(&mut self) -> (r: Option<Thread>)
        requires
            old(self).wf(),
        ensures
            final(self).wf(),
            final(self).first_active() == old(self).first_active(),
            final(self).waiting_threads() == old(self).waiting_threads(),
            old(self).running_threads().len() == 0 ==> r is None && final(self).running_threads()
                == old(self).running_threads(),
            old(self).running_threads().len() > 0 ==> r == Some(old(self).running_threads().last())
                && final(self).running_threads() == old(self).running_threads().drop_last(),
    {
        match self.get_next_active() {
            Some(t) => return Some(t),
            None => None,
        }
    }

    /// Makes the passive queue active and the active one passive.
    pub fn flip_queues(&mut self)
        requires
            old(self).wf(),
        ensures
            final(self).wf(),
            final(self).first_active() == !old(self).first_active(),
            final(self).running_threads() == old(self).waiting_threads(),
            final(self).waiting_threads() == old(self).running_threads(),
    {
        if self.active {
            self.active = false
        } else {
            self.active = true
        }
    }
}

/// Takes the thread to switch to: the head of the active queue, or, when that queue
/// is empty, the head of the passive one after the queues were flipped. The switch
/// itself is the caller's.
pub fn schedule(s: &mut Scheduler) -> (r: Thread)
    requires
        old(s).wf(),
        old(s).running_threads().len() + old(s).waiting_threads().len() > 0,
    ensures
        final(s).wf(),
        old(s).running_threads().len() > 0 ==> {
            &&& r == old(s).running_threads().last()
            &&& final(s).first_active() == old(s).first_active()
            &&& final(s).running_threads() == old(s).running_threads().drop_last()
            &&& final(s).waiting_threads() == old(s).waiting_threads()
        },
        old(s).running_threads().len() == 0 ==> {
            &&& r == old(s).waiting_threads().last()
            &&& final(s).first_active() == !old(s).first_active()
            &&& final(s).running_threads() == old(s).waiting_threads().drop_last()
            &&& final(s).waiting_threads() == old(s).running_threads()
        },
{
    let ghost mut flips: int = 0;
    loop
        invariant
            s.wf(),
            0 <= flips <= 1,
            old(s).running_threads().len() + old(s).waiting_threads().len() > 0,
            flips == 0 ==> s.running_threads() == old(s).running_threads() && s.waiting_threads()
                == old(s).waiting_threads() && s.first_active() == old(s).first_active(),
            flips == 1 ==> old(s).running_threads().len() == 0 && s.running_threads() == old(
                s,
            ).waiting_threads() && s.waiting_threads() == old(s).running_threads()
                && s.first_active() == !old(s).first_active(),
        decreases 1 - flips,
    {
        if let Some(t) = s.get_next() {
            return t;
        }
        s.flip_queues();
        proof {
            flips = flips + 1;
        }
    }
}

/// A thread pushed on a run queue is the one the next pop takes, and the pop leaves
/// the queue as it was before the push.
pub proof fn law_put_then_get(threads: Seq<Thread>, thread: Thread)
    ensures
        threads.push(thread).len() > 0,
        threads.push(thread).last() == thread,
        threads.push(thread).drop_last() == threads,
{
    assert(threads.push(thread).drop_last() =~= threads);
}

/// Flipping the queues twice leaves the scheduler as it was.
pub proof fn law_flip_twice(s: Scheduler, once: Scheduler, twice: Scheduler)
    requires
        once.first_active() == !s.first_active(),
        once.running_threads() == s.waiting_threads(),
        once.waiting_threads() == s.running_threads(),
        twice.first_active() == !once.first_active(),
        twice.running_threads() == once.waiting_threads(),
        twice.waiting_threads() == once.running_threads(),
    ensures
        twice.first_active() == s.first_active(),
        twice.running_threads() == s.running_threads(),
        twice.waiting_threads() == s.waiting_threads(),
{
}

} // verus!
