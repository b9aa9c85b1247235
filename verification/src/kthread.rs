//! Kernel threads: creation, the run decision taken at each timer tick, the per-CPU
//! rebalance queues and the per-thread continuation stacks.

use vstd::prelude::*;
use crate::sched_domain::{enqueued, next_outcome, pick, is_pick, Scheduler as SchedulerDomain};
use crate::sched::Scheduler as _;
use crate::thread_map::ThreadMap;
use crate::sched::{
    table_clear, table_store, Priority, ThreadMeta, ThreadMetaQueues, ThreadState, MAX_CONT,
    MAX_CPUS, MAX_PRIO, META_SLOTS,
};

verus! {

/// Pages of a thread stack.
pub const STACK_SIZE_IN_PAGES: usize = 4096;
/// Bytes of a page.
pub const BASE_PAGE_SIZE: usize = 4096;
/// Bytes of a thread stack.
pub const STACK_BYTES: usize = 16777216;
/// Bytes of a machine word.
pub const WORD_BYTES: usize = 8;
/// The return address that ends a backtrace.
pub const NULL_RETURN_MARKER: usize = 0x0000_0000;

/// The callee-saved registers of a thread that is not running.
#[derive(Clone, Copy, Debug, PartialEq, Eq, Structural)]
pub struct Context {
    pub r15: usize,
    pub r14: usize,
    pub r13: usize,
    pub r12: usize,
    pub r11: usize,
    pub rbx: usize,
    pub rbp: usize,
    pub rsp: usize,
    pub rflags: usize,
}

/// The context with every register zero.
pub open spec fn zero_context() -> Context {
    Context { r15: 0, r14: 0, r13: 0, r12: 0, r11: 0, rbx: 0, rbp: 0, rsp: 0, rflags: 0 }
}

impl Context {
    /// A context with every register zero.
    pub fn new() -> (r: Context)
        ensures
            r == zero_context(),
    {
        Context { r15: 0, r14: 0, r13: 0, r12: 0, r11: 0, rbx: 0, rbp: 0, rsp: 0, rflags: 0 }
    }
}

/// Where a thread resumes after a domain it called into unwinds: the function and the
/// registers to restore.
#[derive(Clone, Copy, Debug, PartialEq, Eq, Structural)]
pub struct Continuation {
    pub func: usize,
    pub rflags: usize,
    pub r15: usize,
    pub r14: usize,
    pub r13: usize,
    pub r12: usize,
    pub r11: usize,
    pub rbx: usize,
    pub rbp: usize,
    pub rsp: usize,
    pub rax: usize,
    pub rcx: usize,
    pub rdx: usize,
    pub rsi: usize,
    pub rdi: usize,
    pub r8: usize,
    pub r9: usize,
    pub r10: usize,
}

/// The continuation with every field zero.
pub open spec fn zero_continuation() -> Continuation {
    Continuation {
        func: 0,
        rflags: 0,
        r15: 0,
        r14: 0,
        r13: 0,
        r12: 0,
        r11: 0,
        rbx: 0,
        rbp: 0,
        rsp: 0,
        rax: 0,
        rcx: 0,
        rdx: 0,
        rsi: 0,
        rdi: 0,
        r8: 0,
        r9: 0,
        r10: 0,
    }
}

impl Continuation {
    /// The continuation with every field zero.
    pub fn zeroed() -> (r: Continuation)
        ensures
            r == zero_continuation(),
    {
        Continuation {
            func: 0,
            rflags: 0,
            r15: 0,
            r14: 0,
            r13: 0,
            r12: 0,
            r11: 0,
            rbx: 0,
            rbp: 0,
            rsp: 0,
            rax: 0,
            rcx: 0,
            rdx: 0,
            rsi: 0,
            rdi: 0,
            r8: 0,
            r9: 0,
            r10: 0,
        }
    }
}

/// One word to store on a fresh stack: `value` at address `addr`.
#[derive(Clone, Copy, Debug, PartialEq, Eq, Structural)]
pub struct StackWrite {
    pub addr: usize,
    pub value: usize,
}

/// A kernel thread.
pub struct Thread {
    pub id: u64,
    pub current_domain_id: u64,
    pub name: String,
    pub state: ThreadState,
    pub priority: Priority,
    pub affinity: u64,
    pub rebalance: bool,
    pub context: Context,
    /// Lowest address of the thread's stack.
    pub stack: usize,
    /// The domain the thread runs in, if it was given one.
    pub domain: Option<u64>,
    /// Next thread on the domain list.
    pub next_domain: Option<u64>,
    /// Next thread on the interrupt wait queue list.
    pub next_iwq: Option<u64>,
    /// The continuation stack.
    pub continuations: Vec<Continuation>,
    /// Depth of the continuation stack when the thread was last switched away from;
    /// `None` before the first switch to it.
    pub continuation_ptr: Option<usize>,
}

/// The two words stored on a fresh stack that starts at `stack_base`: a null return
/// address at the top, and below it the entry trampoline `die` the first switch
/// returns to.
pub open spec fn stack_writes(stack_base: usize, die: usize) -> Seq<StackWrite> {
    seq![
        StackWrite { addr: (stack_base + STACK_BYTES - WORD_BYTES) as usize, value: NULL_RETURN_MARKER },
        StackWrite { addr: (stack_base + STACK_BYTES - 2 * WORD_BYTES) as usize, value: die },
    ]
}

/// The metadata a new thread is registered with in the metadata table.
pub open spec fn fresh_meta(id: u64) -> ThreadMeta {
    ThreadMeta {
        id,
        current_domain_id: 0,
        state: ThreadState::Runnable,
        priority: 0,
        affinity: 0,
        rebalance: false,
        last_queued: 11,
        run_delay: 0,
    }
}

impl Thread {
    /// Prepares the stack of the thread, `STACK_BYTES` from `stack_base`, so that the
    /// first switch to it enters `die`, which runs `func`: `func` goes to r15, the stack
    /// pointer points at the address of `die`, and above it sits a null return address.
    /// Hands back the words to store on the stack.
    pub fn init_stack(&mut self, func: usize, stack_base: usize, die: usize) -> (r: Vec<StackWrite>)
        requires
            stack_base + STACK_BYTES <= usize::MAX,
        ensures
            r@ == stack_writes(stack_base, die),
            final(self).context == (Context {
                r15: func,
                rsp: (stack_base + STACK_BYTES - 2 * WORD_BYTES) as usize,
                ..old(self).context
            }),
            final(self).stack == stack_base,
            final(self).id == old(self).id,
            final(self).name == old(self).name,
            final(self).state == old(self).state,
            final(self).priority == old(self).priority,
            final(self).affinity == old(self).affinity,
            final(self).rebalance == old(self).rebalance,
            final(self).domain == old(self).domain,
            final(self).current_domain_id == old(self).current_domain_id,
            final(self).next_domain == old(self).next_domain,
            final(self).next_iwq == old(self).next_iwq,
            final(self).continuations == old(self).continuations,
            final(self).continuation_ptr == old(self).continuation_ptr,
    {
        self.context.r15 = func;
        let top = stack_base + STACK_BYTES;
        let null_return = top - WORD_BYTES;
        let die_return = top - 2 * WORD_BYTES;
        let mut writes: Vec<StackWrite> = Vec::new();
        writes.push(StackWrite { addr: null_return, value: NULL_RETURN_MARKER });
        writes.push(StackWrite { addr: die_return, value: die });
        self.stack = stack_base;
        self.context.rsp = die_return;
        assert(writes@ =~= stack_writes(stack_base, die));
        writes
    }

    /// A new runnable thread named `name` that runs `func` on the stack at `stack_base`:
    /// it takes the next thread id, its metadata goes to the metadata table under that
    /// id, and its stack is prepared as `init_stack` does. Hands back the thread and the
    /// words to store on its stack.
    pub fn new(
        thread_id: &mut u64,
        array: &mut ThreadMetaQueues,
        name: &str,
        func: usize,
        stack_base: usize,
        die: usize,
    ) -> (r: (Thread, Vec<StackWrite>))
        requires
            *old(thread_id) < META_SLOTS,
            old(array).wf(),
            stack_base + STACK_BYTES <= usize::MAX,
        ensures
            *final(thread_id) == *old(thread_id) + 1,
            final(array).wf(),
            final(array).slots() == table_store(
                old(array).slots(),
                *old(thread_id) as int,
                fresh_meta(*old(thread_id)),
            ),
            final(array).get_queue_ref().clock_value() == old(array).get_queue_ref().clock_value(),
            fresh_thread(r.0, *old(thread_id), name@, func, stack_base),
            r.1@ == stack_writes(stack_base, die),
    {
        let id = *thread_id;
        *thread_id = id + 1;
        let t_meta = ThreadMeta {
            id,
            current_domain_id: 0,
            state: ThreadState::Runnable,
            priority: 0,
            affinity: 0,
            rebalance: false,
            last_queued: 11,
            run_delay: 0,
        };
        array.add_thread(id, t_meta);
        let mut continuations: Vec<Continuation> = Vec::new();
        let mut i: usize = 0;
        while i < MAX_CONT
            invariant
                i <= MAX_CONT,
                continuations@ == Seq::new(i as nat, |j: int| zero_continuation()),
            decreases MAX_CONT - i,
        {
            continuations.push(Continuation::zeroed());
            i = i + 1;
            assert(continuations@ =~= Seq::new(i as nat, |j: int| zero_continuation()));
        }
        let mut t = Thread {
            id,
            current_domain_id: 0,
            name: name.to_owned(),
            state: ThreadState::Runnable,
            priority: 0,
            affinity: 0,
            rebalance: false,
            context: Context::new(),
            stack: 0,
            domain: None,
            next_domain: None,
            next_iwq: None,
            continuations,
            continuation_ptr: None,
        };
        let writes = t.init_stack(func, stack_base, die);
        (t, writes)
    }
}

/// Number of filled slots of a metadata table.
pub open spec fn filled(table: Seq<Option<ThreadMeta>>) -> nat
    decreases table.len(),
{
    if table.len() == 0 {
        0
    } else {
        filled(table.drop_last()) + if table.last() is Some {
            1nat
        } else {
            0nat
        }
    }
}

/// Emptying a filled slot leaves one filled slot fewer.
pub proof fn lemma_filled_clear(table: Seq<Option<ThreadMeta>>, i: int)
    requires
        0 <= i < table.len(),
        table[i] is Some,
    ensures
        filled(table_clear(table, i)) + 1 == filled(table),
    decreases table.len(),
{
    let c = table_clear(table, i);
    if i == table.len() - 1 {
        assert(c.drop_last() =~= table.drop_last());
    } else {
        lemma_filled_clear(table.drop_last(), i);
        assert(c.drop_last() =~= table_clear(table.drop_last(), i));
    }
}

/// A pick of `get_next` that hands a thread out empties a filled slot.
pub proof fn lemma_next_drains(table: Seq<Option<ThreadMeta>>, clock: u64)
    requires
        next_outcome(table, clock).1 is Some,
    ensures
        filled(next_outcome(table, clock).0) < filled(table),
{
    let i = pick(table).unwrap();
    assert(is_pick(table, i));
    lemma_filled_clear(table, i);
}

/// The answer of the kernel's pick loop, and the table it leaves: threads handed out by
/// `get_next` whose kernel state is `Waiting` are skipped (and stay out of the table)
/// until a thread that is not waiting comes out, or none does.
pub open spec fn scan(table: Seq<Option<ThreadMeta>>, clock: u64, threads: Map<u64, Thread>) -> (
    Seq<Option<ThreadMeta>>,
    Option<ThreadMeta>,
)
    decreases filled(table),
{
    let (after, got) = next_outcome(table, clock);
    match got {
        None => (after, None),
        Some(m) => {
            if threads.contains_key(m.id) && threads[m.id].state == ThreadState::Waiting {
                proof {
                    lemma_next_drains(table, clock);
                }
                scan(after, clock, threads)
            } else {
                (after, Some(m))
            }
        },
    }
}

/// The thread the kernel's pick loop settles on came out of the table as a runnable
/// thread, and the kernel does not hold it as `Waiting`; nothing is put into the table
/// on the way.
pub proof fn law_scan_skips_waiting(table: Seq<Option<ThreadMeta>>, clock: u64, threads: Map<u64, Thread>)
    ensures
        scan(table, clock, threads).1 matches Some(m) ==> {
            &&& m.state == ThreadState::Runnable
            &&& !(threads.contains_key(m.id) && threads[m.id].state == ThreadState::Waiting)
            &&& exists|i: int|
                0 <= i < table.len() && #[trigger] table[i] is Some && crate::sched_domain::dequeued(
                    table[i].unwrap(),
                    clock,
                ) == m
        },
        filled(scan(table, clock, threads).0) <= filled(table),
    decreases filled(table),
{
    let (after, got) = next_outcome(table, clock);
    crate::sched_domain::law_pick_is_highest_runnable(table);
    match got {
        None => {
            if let Some(i) = pick(table) {
                assert(is_pick(table, i));
                lemma_filled_clear(table, i);
            }
        },
        Some(m) => {
            lemma_next_drains(table, clock);
            let i = pick(table).unwrap();
            assert(is_pick(table, i));
            if threads.contains_key(m.id) && threads[m.id].state == ThreadState::Waiting {
                law_scan_skips_waiting(after, clock, threads);
                if let Some(m2) = scan(after, clock, threads).1 {
                    let j = choose|j: int|
                        0 <= j < after.len() && #[trigger] after[j] is Some
                            && crate::sched_domain::dequeued(after[j].unwrap(), clock) == m2;
                    assert(j != i);
                    assert(table[j] == after[j]);
                }
            } else {
                assert(table[i] is Some);
            }
        },
    }
}

/// Every queued thread's wait can be added to its run delay at queue clock `clock`.
pub open spec fn all_fit(table: Seq<Option<ThreadMeta>>, clock: u64) -> bool {
    forall|i: int|
        0 <= i < table.len() && #[trigger] table[i] is Some && table[i].unwrap().last_queued != 0
            ==> table[i].unwrap().last_queued <= clock && table[i].unwrap().run_delay + (clock
            - table[i].unwrap().last_queued) <= u64::MAX
}

/// Every queued thread is one the kernel knows.
pub open spec fn all_known(table: Seq<Option<ThreadMeta>>, threads: Map<u64, Thread>) -> bool {
    forall|i: int|
        0 <= i < table.len() && #[trigger] table[i] is Some ==> threads.contains_key(
            table[i].unwrap().id,
        )
}

/// The threads after a switch from `prev_id` to `next_id` with continuation depth
/// `cont`: the depth is saved in the thread switched away from, and the thread switched
/// to resumes its own depth, or starts with an empty stack the first time.
pub open spec fn switched_threads(
    threads: Map<u64, Thread>,
    prev_id: u64,
    next_id: u64,
    cont: Option<usize>,
) -> Map<u64, Thread> {
    let saved = threads.insert(prev_id, Thread { continuation_ptr: cont, ..threads[prev_id] });
    saved.insert(next_id, Thread { continuation_ptr: resumed_depth(saved[next_id]), ..saved[next_id] })
}

/// The continuation depth a thread resumes with.
pub open spec fn resumed_depth(t: Thread) -> Option<usize> {
    match t.continuation_ptr {
        None => Some(0usize),
        Some(d) => Some(d),
    }
}

/// A table whose queued threads all fit can be handed to `get_next`, and still fits
/// once a slot is emptied.
pub proof fn lemma_all_fit(table: Seq<Option<ThreadMeta>>, clock: u64, i: int)
    requires
        all_fit(table, clock),
        0 <= i < table.len(),
    ensures
        crate::sched_domain::next_fits(table, clock),
        all_fit(table_clear(table, i), clock),
{
    if let Some(p) = pick(table) {
        assert(is_pick(table, p));
    }
    let c = table_clear(table, i);
    assert forall|j: int|
        0 <= j < c.len() && #[trigger] c[j] is Some && c[j].unwrap().last_queued != 0 implies c[j].unwrap().last_queued
        <= clock && c[j].unwrap().run_delay + (clock - c[j].unwrap().last_queued) <= u64::MAX by {
        if j != i {
            assert(c[j] == table[j]);
        }
    }
}

/// Emptying a slot keeps every queued thread known.
pub proof fn lemma_all_known(table: Seq<Option<ThreadMeta>>, threads: Map<u64, Thread>, i: int)
    requires
        all_known(table, threads),
        0 <= i < table.len(),
    ensures
        all_known(table_clear(table, i), threads),
{
    let c = table_clear(table, i);
    assert forall|j: int| 0 <= j < c.len() && #[trigger] c[j] is Some implies threads.contains_key(
        c[j].unwrap().id,
    ) by {
        if j != i {
            assert(c[j] == table[j]);
        }
    }
}

/// What the caller of `schedule` is to do.
#[derive(Clone, Copy, Debug, PartialEq, Eq, Structural)]
pub enum ScheduleOutcome {
    /// Keep running the current thread.
    Stay,
    /// Save the registers in the context of thread `prev` and load those of thread `next`.
    Switch { prev: u64, next: u64 },
}

/// Whether CPU `queue` was asked to take threads from its rebalance queue.
pub struct RebalanceFlag {
    pub rebalance: bool,
}

impl RebalanceFlag {
    /// A flag that is not raised.
    pub fn new() -> (r: RebalanceFlag)
        ensures
            !r.rebalance,
    {
        RebalanceFlag { rebalance: false }
    }
}

/// The rebalance flag of every CPU.
pub struct RebalanceFlags {
    pub flags: Vec<RebalanceFlag>,
}

impl RebalanceFlags {
    /// One flag per CPU, none raised.
    pub fn new() -> (r: RebalanceFlags)
        ensures
            r.flags@.len() == MAX_CPUS,
            forall|i: int| 0 <= i < MAX_CPUS ==> !(#[trigger] r.flags@[i]).rebalance,
    {
        let mut flags: Vec<RebalanceFlag> = Vec::new();
        let mut i: usize = 0;
        while i < MAX_CPUS
            invariant
                i <= MAX_CPUS,
                flags@.len() == i,
                forall|j: int| 0 <= j < i ==> !(#[trigger] flags@[j]).rebalance,
            decreases MAX_CPUS - i,
        {
            flags.push(RebalanceFlag::new());
            i = i + 1;
        }
        RebalanceFlags { flags }
    }
}

/// The threads waiting to move to each CPU, by id; the last one pushed is taken first.
pub struct RebalanceQueues {
    pub queues: Vec<Vec<u64>>,
}

impl RebalanceQueues {
    /// One empty queue per CPU.
    pub fn new() -> (r: RebalanceQueues)
        ensures
            r.queues@.len() == MAX_CPUS,
            forall|i: int| 0 <= i < MAX_CPUS ==> (#[trigger] r.queues@[i])@ == Seq::<u64>::empty(),
    {
        let mut queues: Vec<Vec<u64>> = Vec::new();
        let mut i: usize = 0;
        while i < MAX_CPUS
            invariant
                i <= MAX_CPUS,
                queues@.len() == i,
                forall|j: int| 0 <= j < i ==> (#[trigger] queues@[j])@ == Seq::<u64>::empty(),
            decreases MAX_CPUS - i,
        {
            queues.push(Vec::new());
            i = i + 1;
        }
        RebalanceQueues { queues }
    }
}

/// What the kernel's thread bookkeeping holds.
pub struct KernelState {
    /// The id the next thread gets.
    pub next_id: u64,
    /// The metadata table.
    pub table: Seq<Option<ThreadMeta>>,
    /// The queue clock of the metadata table.
    pub clock: u64,
    /// The threads, by id.
    pub threads: Map<u64, Thread>,
    /// The idle thread as the scheduler domain records it.
    pub idle: u64,
    /// The metadata of the current thread: `None` before there is one, `Some(None)`
    /// while it is handed back to the scheduler domain.
    pub current: Option<Option<ThreadMeta>>,
    /// Depth of the continuation stack of the current thread; `None` before the first
    /// switch.
    pub cont: Option<usize>,
    /// The rebalance flag of each CPU.
    pub flags: Seq<bool>,
    /// The rebalance queue of each CPU, the next to take last.
    pub rb_queues: Seq<Seq<u64>>,
}

/// What `schedule` needs of the kernel: the metadata of the current thread is there,
/// every queued thread is known and fits the clock, the current thread is runnable or
/// idle whenever no thread is picked, and a current thread that is handed back has an
/// id that names a slot.
pub open spec fn can_schedule(s: KernelState) -> bool {
    &&& s.table.len() == META_SLOTS
    &&& all_fit(s.table, s.clock)
    &&& all_known(s.table, s.threads)
    &&& s.current matches Some(Some(_))
    &&& ({
        let cm = s.current.unwrap().unwrap();
        let got = scan(s.table, s.clock, s.threads).1;
        &&& got is None && s.threads.contains_key(cm.id) ==> s.threads[cm.id].state
            == ThreadState::Runnable || s.threads[cm.id].state == ThreadState::Idle
        &&& got is Some && s.threads.contains_key(cm.id) && s.threads[cm.id].state
            != ThreadState::Idle ==> cm.id < META_SLOTS
    })
}

/// `post` and `r` are what `schedule` leaves of `pre` and answers.
pub open spec fn scheduled(pre: KernelState, post: KernelState, r: ScheduleOutcome) -> bool {
    let cm = pre.current.unwrap().unwrap();
    let (after, got) = scan(pre.table, pre.clock, pre.threads);
    &&& post.next_id == pre.next_id
    &&& post.clock == pre.clock
    &&& post.flags == pre.flags
    &&& post.rb_queues == pre.rb_queues
    &&& match got {
        Some(m) if pre.threads.contains_key(cm.id) => {
            &&& r == (ScheduleOutcome::Switch { prev: cm.id, next: m.id })
            &&& post.current == Some(Some(m))
            &&& post.threads == switched_threads(pre.threads, cm.id, m.id, pre.cont)
            &&& post.cont == post.threads[m.id].continuation_ptr
            &&& pre.threads[cm.id].state == ThreadState::Idle ==> post.idle
                == pre.threads[cm.id].id && post.table == after
            &&& pre.threads[cm.id].state != ThreadState::Idle ==> post.idle == pre.idle
                && post.table == table_store(after, cm.id as int, enqueued(cm, pre.clock))
        },
        _ => {
            &&& r == ScheduleOutcome::Stay
            &&& post.table == after
            &&& post.threads == pre.threads
            &&& post.current == pre.current
            &&& post.idle == pre.idle
            &&& post.cont == pre.cont
        },
    }
}

/// The thread `t` with `state` as its state.
pub open spec fn with_state(t: Thread, state: ThreadState) -> Thread {
    Thread { state, ..t }
}

/// What a freshly made thread is: id `id`, named `name`, runnable, priority, affinity
/// and domain id zero, not to rebalance, in no domain and on no list, with an empty
/// continuation stack never switched to, and a stack at `stack_base` prepared so that
/// the first switch runs `func` through `die`.
pub open spec fn fresh_thread(t: Thread, id: u64, name: Seq<char>, func: usize, stack_base: usize) -> bool {
    &&& t.id == id
    &&& t.name@ == name
    &&& t.state == ThreadState::Runnable
    &&& t.priority == 0
    &&& t.affinity == 0
    &&& !t.rebalance
    &&& t.current_domain_id == 0
    &&& t.context == (Context {
        r15: func,
        rsp: (stack_base + STACK_BYTES - 2 * WORD_BYTES) as usize,
        ..zero_context()
    })
    &&& t.stack == stack_base
    &&& t.domain is None
    &&& t.next_domain is None
    &&& t.next_iwq is None
    &&& t.continuations@ == Seq::new(MAX_CONT as nat, |i: int| zero_continuation())
    &&& t.continuation_ptr is None
}

/// `a` and `b` are the same thread but for their continuation stacks.
pub open spec fn same_but_continuations(a: Thread, b: Thread) -> bool {
    &&& a.id == b.id
    &&& a.current_domain_id == b.current_domain_id
    &&& a.name == b.name
    &&& a.state == b.state
    &&& a.priority == b.priority
    &&& a.affinity == b.affinity
    &&& a.rebalance == b.rebalance
    &&& a.context == b.context
    &&& a.stack == b.stack
    &&& a.domain == b.domain
    &&& a.next_domain == b.next_domain
    &&& a.next_iwq == b.next_iwq
    &&& a.continuation_ptr == b.continuation_ptr
}

/// The continuation stack of the current thread can be used: a switch has set it up,
/// and the current thread is known and has its full stack.
pub open spec fn continuation_ready(s: KernelState) -> bool {
    &&& s.cont matches Some(d) && d <= MAX_CONT
    &&& s.current matches Some(Some(m))
    &&& s.threads.contains_key(m.id)
    &&& s.threads[m.id].continuations@.len() == MAX_CONT
}

/// `post` is `pre` after `c` was pushed on the continuation stack of the current thread.
pub open spec fn pushed(pre: KernelState, post: KernelState, c: Continuation) -> bool {
    let cid = pre.current.unwrap().unwrap().id;
    let d = pre.cont.unwrap();
    &&& post == KernelState { threads: post.threads, cont: Some((d + 1) as usize), ..pre }
    &&& post.threads.dom() == pre.threads.dom()
    &&& forall|id: u64| #[trigger] post.threads.contains_key(id) && id != cid ==> post.threads[id] == pre.threads[id]
    &&& same_but_continuations(post.threads[cid], pre.threads[cid])
    &&& post.threads[cid].continuations@ == pre.threads[cid].continuations@.update(d as int, c)
}

/// `post` is `pre` after the continuation `r` was popped off the continuation stack of
/// the current thread.
pub open spec fn popped(pre: KernelState, post: KernelState, r: Continuation) -> bool {
    let cid = pre.current.unwrap().unwrap().id;
    let d = pre.cont.unwrap();
    &&& r == pre.threads[cid].continuations@[d - 1]
    &&& post == KernelState { cont: Some((d - 1) as usize), ..pre }
}

/// A continuation pushed on the stack of the current thread is the one the next pop
/// hands back, and the pop leaves the stack at the depth it had before the push, with
/// the continuations below untouched.
pub proof fn law_push_then_pop(
    pre: KernelState,
    mid: KernelState,
    post: KernelState,
    c: Continuation,
    r: Continuation,
)
    requires
        continuation_ready(pre),
        pre.cont.unwrap() < MAX_CONT,
        pushed(pre, mid, c),
        popped(mid, post, r),
    ensures
        r == c,
        post.cont == pre.cont,
        post.current == pre.current,
        post.threads.dom() == pre.threads.dom(),
        ({
            let cid = pre.current.unwrap().unwrap().id;
            forall|j: int|
                0 <= j < pre.cont.unwrap() ==> #[trigger] post.threads[cid].continuations@[j]
                    == pre.threads[cid].continuations@[j]
        }),
{
}

/// A thread pushed on a rebalance queue is the one the next pop of that queue hands
/// back, and the pop leaves the queue as it was.
pub proof fn law_rebalance_push_then_pop(queues: Seq<Seq<u64>>, queue: int, id: u64)
    requires
        0 <= queue < queues.len(),
    ensures
        ({
            let pushed = queues.update(queue, queues[queue].push(id));
            &&& pushed[queue].len() > 0
            &&& pushed[queue].last() == id
            &&& pushed.update(queue, pushed[queue].drop_last()) == queues
        }),
{
    let pushed = queues.update(queue, queues[queue].push(id));
    assert(pushed[queue].drop_last() =~= queues[queue]);
    assert(pushed.update(queue, pushed[queue].drop_last()) =~= queues);
}

/// The pick loop only empties slots: a table whose queued threads all fit and are all
/// known still has both after it.
pub proof fn lemma_scan_keeps_sound(table: Seq<Option<ThreadMeta>>, clock: u64, threads: Map<u64, Thread>)
    requires
        all_fit(table, clock),
        all_known(table, threads),
    ensures
        all_fit(scan(table, clock, threads).0, clock),
        all_known(scan(table, clock, threads).0, threads),
        scan(table, clock, threads).0.len() == table.len(),
    decreases filled(table),
{
    let (after, got) = next_outcome(table, clock);
    if let Some(i) = pick(table) {
        assert(is_pick(table, i));
        lemma_all_fit(table, clock, i);
        lemma_all_known(table, threads, i);
        if let Some(m) = got {
            if threads.contains_key(m.id) && threads[m.id].state == ThreadState::Waiting {
                lemma_next_drains(table, clock);
                lemma_scan_keeps_sound(after, clock, threads);
            }
        }
    }
}

/// `schedule` keeps the table sound: after it, every queued thread is still known and
/// still fits the clock, provided the current thread it may hand back fits too.
pub proof fn law_schedule_keeps_table_sound(pre: KernelState, post: KernelState, r: ScheduleOutcome)
    requires
        can_schedule(pre),
        scheduled(pre, post, r),
        ({
            let cm = pre.current.unwrap().unwrap();
            cm.last_queued != 0 ==> cm.last_queued <= pre.clock && cm.run_delay + (pre.clock
                - cm.last_queued) <= u64::MAX
        }),
    ensures
        all_known(post.table, post.threads),
        all_fit(post.table, post.clock),
{
    let cm = pre.current.unwrap().unwrap();
    let (after, got) = scan(pre.table, pre.clock, pre.threads);
    lemma_scan_keeps_sound(pre.table, pre.clock, pre.threads);
    if let Some(m) = got {
        if pre.threads.contains_key(cm.id) {
            law_scan_skips_waiting(pre.table, pre.clock, pre.threads);
            let j = choose|j: int|
                0 <= j < pre.table.len() && #[trigger] pre.table[j] is Some
                    && crate::sched_domain::dequeued(pre.table[j].unwrap(), pre.clock) == m;
            assert(pre.threads.contains_key(m.id));
            assert(post.threads.dom() =~= pre.threads.dom());
            assert forall|i: int| 0 <= i < post.table.len() && #[trigger] post.table[i] is Some implies post.threads.contains_key(
                post.table[i].unwrap().id,
            ) by {
                if pre.threads[cm.id].state == ThreadState::Idle || i != cm.id {
                    assert(post.table[i] == after[i]);
                }
            }
            assert forall|i: int|
                0 <= i < post.table.len() && #[trigger] post.table[i] is Some && post.table[i].unwrap().last_queued != 0
                    implies post.table[i].unwrap().last_queued <= post.clock && post.table[i].unwrap().run_delay
                    + (post.clock - post.table[i].unwrap().last_queued) <= u64::MAX by {
                if pre.threads[cm.id].state == ThreadState::Idle || i != cm.id {
                    assert(post.table[i] == after[i]);
                }
            }
        }
    }
}

/// Switching away from a thread the kernel knows and that is not the idle thread hands
/// it back to the scheduler domain: afterwards its slot of the table holds its
/// metadata, unchanged but for the queue clock stamped on it when it was not queued.
/// Switching away from the idle thread records it as the idle thread instead.
pub proof fn law_switch_requeues_preempted(pre: KernelState, post: KernelState, r: ScheduleOutcome)
    requires
        can_schedule(pre),
        scheduled(pre, post, r),
        r is Switch,
    ensures
        ({
            let cm = pre.current.unwrap().unwrap();
            &&& r matches ScheduleOutcome::Switch { prev, .. } && prev == cm.id
            &&& pre.threads.contains_key(cm.id)
            &&& pre.threads[cm.id].state != ThreadState::Idle ==> post.table[cm.id as int] == Some(
                ThreadMeta {
                    last_queued: if cm.last_queued == 0 {
                        pre.clock
                    } else {
                        cm.last_queued
                    },
                    ..cm
                },
            )
            &&& pre.threads[cm.id].state == ThreadState::Idle ==> post.idle == pre.threads[cm.id].id
        }),
{
    let cm = pre.current.unwrap().unwrap();
    lemma_scan_keeps_sound(pre.table, pre.clock, pre.threads);
}

/// The thread a switch went away from comes back: when, after the switch, it is the only
/// runnable thread in the table, the next `schedule` switches from the thread that was
/// picked back to it.
pub proof fn law_preempted_comes_back(
    pre: KernelState,
    mid: KernelState,
    post: KernelState,
    r1: ScheduleOutcome,
    r2: ScheduleOutcome,
)
    requires
        can_schedule(pre),
        scheduled(pre, mid, r1),
        scheduled(mid, post, r2),
        r1 is Switch,
        pre.clock > 0,
        pre.current.unwrap().unwrap().state == ThreadState::Runnable,
        pre.threads[pre.current.unwrap().unwrap().id].state != ThreadState::Idle,
        pre.threads[pre.current.unwrap().unwrap().id].state != ThreadState::Waiting,
        forall|j: int|
            j != pre.current.unwrap().unwrap().id ==> !#[trigger] crate::sched_domain::is_candidate(
                mid.table,
                j,
            ),
    ensures
        r1 matches ScheduleOutcome::Switch { prev, next } && r2 == (ScheduleOutcome::Switch {
            prev: next,
            next: prev,
        }),
{
    let cm = pre.current.unwrap().unwrap();
    let (after, got) = scan(pre.table, pre.clock, pre.threads);
    let m = got.unwrap();
    law_switch_requeues_preempted(pre, mid, r1);
    law_scan_skips_waiting(pre.table, pre.clock, pre.threads);
    let j = choose|j: int|
        0 <= j < pre.table.len() && #[trigger] pre.table[j] is Some && crate::sched_domain::dequeued(
            pre.table[j].unwrap(),
            pre.clock,
        ) == m;
    assert(pre.threads.contains_key(pre.table[j].unwrap().id));
    assert(pre.threads.contains_key(m.id));
    assert(mid.threads.dom() =~= pre.threads.dom());
    assert(mid.threads[cm.id].state == pre.threads[cm.id].state);
    lemma_scan_keeps_sound(pre.table, pre.clock, pre.threads);
    let t = mid.table;
    let i = cm.id as int;
    assert(0 <= i < t.len());
    assert(crate::sched_domain::is_candidate(t, i));
    assert(is_pick(t, i));
    let c = choose|k: int| is_pick(t, k);
    crate::sched_domain::lemma_pick_unique(t, i, c);
    assert(pick(t) == Some(i));
    assert(t[i].unwrap().last_queued != 0);
    assert(next_outcome(t, mid.clock).1.unwrap().id == cm.id);
}

/// A switch saves the continuation depth of the thread switched away from in it, and
/// the thread switched to resumes the depth it was saved with, or starts with an empty
/// stack when it was never switched away from.
pub proof fn law_switch_saves_and_resumes_depth(pre: KernelState, post: KernelState, r: ScheduleOutcome)
    requires
        can_schedule(pre),
        scheduled(pre, post, r),
        r matches ScheduleOutcome::Switch { prev, next } && prev != next,
    ensures
        r matches ScheduleOutcome::Switch { prev, next } && {
            &&& post.threads.contains_key(prev)
            &&& post.threads.contains_key(next)
            &&& post.threads[prev].continuation_ptr == pre.cont
            &&& pre.threads[next].continuation_ptr matches Some(d) ==> post.cont == Some(d)
            &&& pre.threads[next].continuation_ptr is None ==> post.cont == Some(0usize)
            &&& post.threads[next].continuation_ptr == post.cont
        },
        post.threads.dom() == pre.threads.dom(),
        forall|id: u64|
            #[trigger] post.threads.contains_key(id) ==> (Thread {
                continuation_ptr: pre.threads[id].continuation_ptr,
                ..post.threads[id]
            }) == pre.threads[id],
        forall|id: u64|
            #[trigger] post.threads.contains_key(id) && !(r matches ScheduleOutcome::Switch {
                prev,
                next,
            } && (id == prev || id == next)) ==> post.threads[id] == pre.threads[id],
{
    let (after, got) = scan(pre.table, pre.clock, pre.threads);
    let m = got.unwrap();
    law_scan_skips_waiting(pre.table, pre.clock, pre.threads);
    let j = choose|j: int|
        0 <= j < pre.table.len() && #[trigger] pre.table[j] is Some && crate::sched_domain::dequeued(
            pre.table[j].unwrap(),
            pre.clock,
        ) == m;
    assert(pre.threads.contains_key(pre.table[j].unwrap().id));
}

/// A thread switched away from at continuation depth `d` resumes at depth `d` when the
/// next switch returns to it.
pub proof fn law_depth_round_trip(
    s0: KernelState,
    s1: KernelState,
    s2: KernelState,
    r1: ScheduleOutcome,
    r2: ScheduleOutcome,
)
    requires
        can_schedule(s0),
        scheduled(s0, s1, r1),
        can_schedule(s1),
        scheduled(s1, s2, r2),
        r1 matches ScheduleOutcome::Switch { prev, next } && prev != next && r2 == (
        ScheduleOutcome::Switch { prev: next, next: prev }),
        s0.cont is Some,
    ensures
        s2.cont == s0.cont,
{
    law_switch_saves_and_resumes_depth(s0, s1, r1);
    law_switch_saves_and_resumes_depth(s1, s2, r2);
}

/// The pick loop skips only threads the kernel holds as `Waiting`: when the first
/// thread `get_next` hands out is one the kernel does not hold as waiting (runnable,
/// rebalanced or in any other state), `schedule` switches to it from a current thread
/// it knows.
pub proof fn law_schedule_takes_first_not_waiting(pre: KernelState, post: KernelState, r: ScheduleOutcome)
    requires
        can_schedule(pre),
        scheduled(pre, post, r),
        next_outcome(pre.table, pre.clock).1 matches Some(m) && !(pre.threads.contains_key(m.id)
            && pre.threads[m.id].state == ThreadState::Waiting),
        pre.threads.contains_key(pre.current.unwrap().unwrap().id),
    ensures
        r == (ScheduleOutcome::Switch {
            prev: pre.current.unwrap().unwrap().id,
            next: next_outcome(pre.table, pre.clock).1.unwrap().id,
        }),
        post.current == Some(next_outcome(pre.table, pre.clock).1),
{
}

/// A thread the kernel holds as `Waiting` that `get_next` hands out is skipped: the
/// schedule goes on exactly as it would on the table without that thread.
pub proof fn law_waiting_is_skipped(pre: KernelState, post: KernelState, r: ScheduleOutcome)
    requires
        next_outcome(pre.table, pre.clock).1 matches Some(m) && pre.threads.contains_key(m.id)
            && pre.threads[m.id].state == ThreadState::Waiting,
    ensures
        scheduled(pre, post, r) == scheduled(
            KernelState { table: next_outcome(pre.table, pre.clock).0, ..pre },
            post,
            r,
        ),
{
    let after = next_outcome(pre.table, pre.clock).0;
    assert(scan(pre.table, pre.clock, pre.threads) == scan(after, pre.clock, pre.threads));
}

/// `post` is `pre` after a thread named `name`, running `func` on the stack at
/// `stack_base`, was made under the next id and added.
pub open spec fn created(pre: KernelState, post: KernelState, name: Seq<char>, func: usize, stack_base: usize) -> bool {
    let id = pre.next_id;
    &&& post.next_id == id + 1
    &&& post.table == table_store(pre.table, id as int, fresh_meta(id))
    &&& post.threads.dom() == pre.threads.dom().insert(id)
    &&& forall|i: u64| #[trigger] pre.threads.contains_key(i) && i != id ==> post.threads[i] == pre.threads[i]
    &&& fresh_thread(post.threads[id], id, name, func, stack_base)
    &&& post.clock == pre.clock
    &&& post.idle == pre.idle
    &&& post.current == pre.current
    &&& post.cont == pre.cont
    &&& post.flags == pre.flags
    &&& post.rb_queues == pre.rb_queues
}

/// Making a thread keeps the table sound: every queued thread is still known, and
/// still fits a clock no earlier than the timestamp new threads are queued with.
pub proof fn law_create_keeps_table_sound(pre: KernelState, post: KernelState, name: Seq<char>, func: usize, stack_base: usize)
    requires
        pre.table.len() == META_SLOTS,
        pre.next_id < META_SLOTS,
        all_fit(pre.table, pre.clock),
        all_known(pre.table, pre.threads),
        pre.clock >= 11,
        created(pre, post, name, func, stack_base),
    ensures
        all_known(post.table, post.threads),
        all_fit(post.table, post.clock),
{
    let id = pre.next_id;
    assert forall|i: int| 0 <= i < post.table.len() && #[trigger] post.table[i] is Some implies post.threads.contains_key(
        post.table[i].unwrap().id,
    ) by {
        if i != id {
            assert(post.table[i] == pre.table[i]);
        }
    }
    assert forall|i: int|
        0 <= i < post.table.len() && #[trigger] post.table[i] is Some && post.table[i].unwrap().last_queued != 0
            implies post.table[i].unwrap().last_queued <= post.clock && post.table[i].unwrap().run_delay
            + (post.clock - post.table[i].unwrap().last_queued) <= u64::MAX by {
        if i != id {
            assert(post.table[i] == pre.table[i]);
        }
    }
}

/// A kernel fresh from `init_threads`, or any whose table is empty and whose current
/// thread is the idle thread, can schedule, and scheduling it keeps the idle thread
/// running.
pub proof fn law_idle_alone_stays(s: KernelState)
    requires
        s.table.len() == META_SLOTS,
        forall|i: int| 0 <= i < META_SLOTS ==> #[trigger] s.table[i] is None,
        s.current matches Some(Some(m)) && s.threads.contains_key(m.id) && s.threads[m.id].state
            == ThreadState::Idle,
    ensures
        can_schedule(s),
        scan(s.table, s.clock, s.threads) == (s.table, None::<ThreadMeta>),
{
    let t = s.table;
    assert forall|j: int| !#[trigger] crate::sched_domain::is_candidate(t, j) by {
        if 0 <= j < t.len() {
            assert(t[j] is None);
        }
    }
    crate::sched_domain::law_pick_is_highest_runnable(t);
    assert(all_fit(t, s.clock));
    assert(all_known(t, s.threads));
}

/// On a kernel with a rebalance queue for every CPU, pushing thread `id` on the queue
/// of CPU `queue` and popping that queue hands `id` back and leaves the kernel as it
/// was (see `Kernel::lemma_wf_sizes` for the number of queues).
pub proof fn law_kernel_rebalance_round_trip(pre: KernelState, queue: usize, id: u64)
    requires
        pre.rb_queues.len() == MAX_CPUS,
        queue < MAX_CPUS,
    ensures
        ({
            let q = queue as int;
            let mid = KernelState { rb_queues: pre.rb_queues.update(q, pre.rb_queues[q].push(id)), ..pre };
            &&& mid.rb_queues[q].len() > 0
            &&& mid.rb_queues[q].last() == id
            &&& (KernelState { rb_queues: mid.rb_queues.update(q, mid.rb_queues[q].drop_last()), ..mid }) == pre
        }),
{
    let q = queue as int;
    law_rebalance_push_then_pop(pre.rb_queues, q, id);
    let mid = KernelState { rb_queues: pre.rb_queues.update(q, pre.rb_queues[q].push(id)), ..pre };
    assert(mid.rb_queues.update(q, mid.rb_queues[q].drop_last()) == pre.rb_queues);
}

/// The kernel's thread bookkeeping.
pub struct Kernel {
    thread_id: u64,
    meta_array: ThreadMetaQueues,
    thread_map: ThreadMap,
    scheduler: SchedulerDomain,
    current_meta: Option<Option<ThreadMeta>>,
    cont_state: Option<usize>,
    rebalance_flags: RebalanceFlags,
    rebalance_queues: RebalanceQueues,
}

impl View for Kernel {
    type V = KernelState;

    closed spec fn view(&self) -> KernelState {
        KernelState {
            next_id: self.thread_id,
            table: self.meta_array.slots(),
            clock: self.meta_array.get_queue_ref().clock_value(),
            threads: self.thread_map.contents(),
            idle: self.scheduler.idle_id(),
            current: self.current_meta,
            cont: self.cont_state,
            flags: self.rebalance_flags.flags@.map_values(|f: RebalanceFlag| f.rebalance),
            rb_queues: self.rebalance_queues.queues@.map_values(|q: Vec<u64>| q@),
        }
    }
}

impl Kernel {
    /// The structures have their full sizes.
    pub closed spec fn wf(&self) -> bool {
        &&& self.meta_array.wf()
        &&& self.rebalance_flags.flags@.len() == MAX_CPUS
        &&& self.rebalance_queues.queues@.len() == MAX_CPUS
    }

    /// A well-formed kernel has a full metadata table and a rebalance flag and queue for
    /// every CPU.
    pub proof fn lemma_wf_sizes(&self)
        requires
            self.wf(),
        ensures
            self@.table.len() == META_SLOTS,
            self@.flags.len() == MAX_CPUS,
            self@.rb_queues.len() == MAX_CPUS,
    {
    }

    /// Sets the thread lists up and makes the idle thread, whose function is `idle_func`
    /// and whose stack starts at `idle_stack`, the current thread: thread 0, in state
    /// `Idle`, recorded as the idle thread, its continuation stack empty, its metadata
    /// taken out of the table as the current one. Hands back the kernel and the words
    /// to store on the idle stack.
    pub fn init_threads(idle_func: usize, idle_stack: usize, die: usize) -> (r: (Kernel, Vec<StackWrite>))
        requires
            idle_stack + STACK_BYTES <= usize::MAX,
        ensures
            r.0.wf(),
            r.0@.next_id == 1,
            r.0@.clock == crate::sched::INITIAL_CLOCK,
            forall|i: int| 0 <= i < META_SLOTS ==> #[trigger] r.0@.table[i] is None,
            r.0@.threads.dom() == set![0u64],
            fresh_thread(
                Thread { state: ThreadState::Runnable, continuation_ptr: None, ..r.0@.threads[0] },
                0,
                "idle"@,
                idle_func,
                idle_stack,
            ),
            r.0@.threads[0].state == ThreadState::Idle,
            r.0@.threads[0].continuation_ptr == Some(0usize),
            r.0@.idle == 0,
            r.0@.current == Some(Some(fresh_meta(0))),
            r.0@.cont is None,
            forall|i: int| 0 <= i < MAX_CPUS ==> !#[trigger] r.0@.flags[i],
            forall|i: int| 0 <= i < MAX_CPUS ==> #[trigger] r.0@.rb_queues[i] == Seq::<u64>::empty(),
            r.1@ == stack_writes(idle_stack, die),
    {
        let (mut meta_array, mut thread_map) = init_thread_list();
        let mut scheduler = SchedulerDomain::new();
        let mut thread_id: u64 = 0;
        let (mut idle, writes) = Thread::new(&mut thread_id, &mut meta_array, "idle", idle_func, idle_stack, die);
        idle.state = ThreadState::Idle;
        idle.continuation_ptr = Some(0);
        let _ = scheduler.set_idle_thread(idle.id);
        let idle_meta = meta_array.get_thread(idle.id);
        let idle_id = idle.id;
        let _ = thread_map.insert(idle_id, idle);
        let mut k = Kernel {
            thread_id,
            meta_array,
            thread_map,
            scheduler,
            current_meta: None,
            cont_state: None,
            rebalance_flags: RebalanceFlags::new(),
            rebalance_queues: RebalanceQueues::new(),
        };
        k.set_current(idle_meta);
        proof {
            assert(k@.threads.dom() =~= set![0u64]);
            assert forall|i: int| 0 <= i < META_SLOTS implies #[trigger] k@.table[i] is None by {
                if i != 0 {
                    assert(k@.table[i] == meta_array.slots()[i]);
                }
            }
        }
        (k, writes)
    }

    /// The id the next thread gets.
    pub fn next_thread_id(&self) -> (r: u64)
        ensures
            r == self@.next_id,
    {
        self.thread_id
    }

    /// The thread stored under `id`, if any.
    pub fn get_thread(&self, id: u64) -> (r: Option<&Thread>)
        ensures
            match r {
                Some(t) => self@.threads.contains_key(id) && *t == self@.threads[id],
                None => !self@.threads.contains_key(id),
            },
    {
        self.thread_map.get(id)
    }

    /// Makes `meta` the metadata of the current thread.
    pub fn set_current(&mut self, meta: ThreadMeta)
        ensures
            final(self)@ == (KernelState { current: Some(Some(meta)), ..old(self)@ }),
            final(self).wf() == old(self).wf(),
    {
        self.current_meta = Some(Some(meta));
    }

    /// Takes the metadata of the current thread, to hand it to the scheduler domain.
    pub fn get_current_meta(&mut self) -> (r: ThreadMeta)
        requires
            old(self)@.current matches Some(Some(_)),
        ensures
            old(self)@.current == Some(Some(r)),
            final(self)@ == (KernelState { current: Some(None), ..old(self)@ }),
            final(self).wf() == old(self).wf(),
    {
        let r = self.current_meta.unwrap().unwrap();
        self.current_meta = Some(None);
        r
    }

    /// The current thread, if the kernel knows it.
    pub fn get_current_ref_option(&self) -> (r: Option<&Thread>)
        requires
            self@.current matches Some(Some(_)),
        ensures
            ({
                let id = self@.current.unwrap().unwrap().id;
                match r {
                    Some(t) => self@.threads.contains_key(id) && *t == self@.threads[id],
                    None => !self@.threads.contains_key(id),
                }
            }),
    {
        let id = self.current_meta.unwrap().unwrap().id;
        self.thread_map.get(id)
    }

    /// The current thread, which the kernel must know.
    pub fn get_current_ref(&self) -> (r: &Thread)
        requires
            self@.current matches Some(Some(m)) && self@.threads.contains_key(m.id),
        ensures
            *r == self@.threads[self@.current.unwrap().unwrap().id],
    {
        self.get_current_ref_option().unwrap()
    }

    /// The domain of the current thread, which must have one.
    pub fn get_domain_of_current(&self) -> (r: u64)
        requires
            self@.current matches Some(Some(m)) && self@.threads.contains_key(m.id)
                && self@.threads[m.id].domain is Some,
        ensures
            Some(r) == self@.threads[self@.current.unwrap().unwrap().id].domain,
    {
        self.get_current_ref().domain.unwrap()
    }

    /// A handle on the current thread, which the kernel must know.
    pub fn get_current_pthread(&self) -> (r: PThread)
        requires
            self@.current matches Some(Some(m)) && self@.threads.contains_key(m.id),
        ensures
            r.thread == self@.current.unwrap().unwrap().id,
    {
        let id = self.current_meta.unwrap().unwrap().id;
        PThread::new(id)
    }

    /// Makes a thread named `name` that runs `func` on the stack at `stack_base` and adds
    /// it to the threads. Hands back a handle on it and the words to store on its stack.
    pub fn create_thread(&mut self, name: &str, func: usize, stack_base: usize, die: usize) -> (r: (
        PThread,
        Vec<StackWrite>,
    ))
        requires
            old(self).wf(),
            old(self)@.next_id < META_SLOTS,
            stack_base + STACK_BYTES <= usize::MAX,
        ensures
            final(self).wf(),
            r.0.thread == old(self)@.next_id,
            created(old(self)@, final(self)@, name@, func, stack_base),
            r.1@ == stack_writes(stack_base, die),
    {
        let (t, writes) = Thread::new(&mut self.thread_id, &mut self.meta_array, name, func, stack_base, die);
        let id = t.id;
        let _ = self.thread_map.insert(id, t);
        (PThread::new(id), writes)
    }

    /// Picks the thread to run next and does the bookkeeping of the switch to it. The
    /// scheduler domain hands out threads from the metadata table; those the kernel
    /// holds as `Waiting` are skipped. When none is handed out, or the kernel does not
    /// know the current thread, the current thread keeps running. Otherwise the current
    /// thread is handed back to the scheduler domain (or, when it is the idle thread,
    /// recorded as such), the thread picked becomes current, and the continuation depth
    /// of the current thread is saved in it while the picked thread's own is resumed.
    pub fn schedule(&mut self) -> (r: ScheduleOutcome)
        requires
            old(self).wf(),
            can_schedule(old(self)@),
        ensures
            final(self).wf(),
            scheduled(old(self)@, final(self)@, r),
    {
        let ghost table0 = self@.table;
        let ghost threads0 = self@.threads;
        let ghost clock0 = self@.clock;
        let ghost scan0 = scan(table0, clock0, threads0);
        let mut next_meta: Option<ThreadMeta> = None;
        loop
            invariant_except_break
                next_meta is None,
                scan(self@.table, clock0, threads0) == scan0,
            invariant
                clock0 == old(self)@.clock,
                threads0 == old(self)@.threads,
                scan0 == scan(old(self)@.table, clock0, threads0),
                self.wf(),
                self@.threads == threads0,
                self@.clock == clock0,
                self@.current == old(self)@.current,
                self@.idle == old(self)@.idle,
                self@.cont == old(self)@.cont,
                self@.next_id == old(self)@.next_id,
                self@.flags == old(self)@.flags,
                self@.rb_queues == old(self)@.rb_queues,
                self@.current matches Some(Some(_)),
                all_fit(self@.table, clock0),
                all_known(self@.table, threads0),
                ({
                    let cm = old(self)@.current.unwrap().unwrap();
                    &&& scan0.1 is None && threads0.contains_key(cm.id) ==> threads0[cm.id].state
                        == ThreadState::Runnable || threads0[cm.id].state == ThreadState::Idle
                }),
            ensures
                self.wf(),
                self@.threads == threads0,
                self@.clock == clock0,
                self@.current == old(self)@.current,
                self@.idle == old(self)@.idle,
                self@.cont == old(self)@.cont,
                self@.next_id == old(self)@.next_id,
                self@.flags == old(self)@.flags,
                self@.rb_queues == old(self)@.rb_queues,
                next_meta is Some,
                scan0 == (self@.table, next_meta),
                threads0.contains_key(next_meta.unwrap().id),
            decreases filled(self@.table),
        {
            proof {
                self.meta_array.lemma_inner();
                lemma_all_fit(self@.table, clock0, 0);
            }
            let ghost before = self@.table;
            let got = self.scheduler.get_next(&mut self.meta_array.queue);
            proof {
                self.meta_array.lemma_inner();
            }
            match got {
                Ok(Some(t)) => {
                    proof {
                        let i = pick(before).unwrap();
                        assert(is_pick(before, i));
                        assert(threads0.contains_key(before[i].unwrap().id));
                        assert(t.id == before[i].unwrap().id);
                        lemma_all_fit(before, clock0, i);
                        lemma_all_known(before, threads0, i);
                        lemma_next_drains(before, clock0);
                    }
                    let waiting = match self.thread_map.get(t.id) {
                        Some(th) => th.state == ThreadState::Waiting,
                        None => false,
                    };
                    if waiting {
                        assert(scan(before, clock0, threads0) == scan(self@.table, clock0, threads0));
                        continue;
                    }
                    assert(scan(before, clock0, threads0) == (self@.table, Some(t)));
                    next_meta = Some(t);
                    break;
                },
                _ => {
                    assert(scan(before, clock0, threads0) == (self@.table, None::<ThreadMeta>));
                    match self.get_current_ref_option() {
                        None => {
                            return ScheduleOutcome::Stay;
                        },
                        Some(c) => {
                            if c.state == ThreadState::Runnable || c.state == ThreadState::Idle {
                                return ScheduleOutcome::Stay;
                            }
                            proof {
                                assert(false);
                            }
                            return ScheduleOutcome::Stay;
                        },
                    }
                },
            }
        }
        let m = next_meta.unwrap();
        let cid = self.current_meta.unwrap().unwrap().id;
        let (cstate, c_thread_id) = match self.thread_map.get(cid) {
            None => {
                return ScheduleOutcome::Stay;
            },
            Some(c) => (c.state, c.id),
        };
        if cstate == ThreadState::Idle {
            let _ = self.scheduler.set_idle_thread(c_thread_id);
        } else {
            let cm = self.get_current_meta();
            proof {
                self.meta_array.lemma_inner();
            }
            self.scheduler.add_thread(&mut self.meta_array.queue, cm);
            proof {
                self.meta_array.lemma_inner();
            }
        }
        self.set_current(m);
        let ghost cont0 = self.cont_state;
        let mut prev = self.thread_map.remove(cid).unwrap();
        prev.continuation_ptr = self.cont_state;
        let _ = self.thread_map.insert(cid, prev);
        proof {
            assert(self@.threads =~= threads0.insert(
                cid,
                Thread { continuation_ptr: cont0, ..threads0[cid] },
            ));
        }
        let mut next = self.thread_map.remove(m.id).unwrap();
        if next.continuation_ptr.is_none() {
            next.continuation_ptr = Some(0);
        }
        self.cont_state = next.continuation_ptr;
        let _ = self.thread_map.insert(m.id, next);
        proof {
            assert(self@.threads =~= switched_threads(threads0, cid, m.id, cont0));
        }
        ScheduleOutcome::Switch { prev: cid, next: m.id }
    }

    /// Whether `schedule` may be called now: it would not fail.
    pub fn schedule_allowed(&self) -> (r: bool)
        requires
            self.wf(),
        ensures
            r == can_schedule(self@),
    {
        let cm = match self.current_meta {
            Some(Some(cm)) => cm,
            _ => {
                return false;
            },
        };
        proof {
            self.meta_array.lemma_inner();
        }
        let clock = self.meta_array.get_queue_ref().get_clock();
        let ghost table = self@.table;
        let mut i: usize = 0;
        while i < META_SLOTS
            invariant
                i <= META_SLOTS,
                table == self@.table,
                table.len() == META_SLOTS,
                clock == self@.clock,
                forall|j: int|
                    0 <= j < i && #[trigger] table[j] is Some && table[j].unwrap().last_queued != 0
                        ==> table[j].unwrap().last_queued <= clock && table[j].unwrap().run_delay
                        + (clock - table[j].unwrap().last_queued) <= u64::MAX,
                forall|j: int|
                    0 <= j < i && #[trigger] table[j] is Some ==> self@.threads.contains_key(
                        table[j].unwrap().id,
                    ),
            decreases META_SLOTS - i,
        {
            match self.meta_array.get_queue_ref().slot(i) {
                Some(m) => {
                    if m.last_queued != 0 {
                        if m.last_queued > clock || m.run_delay > u64::MAX - (clock - m.last_queued) {
                            assert(!all_fit(table, clock)) by {
                                assert(table[i as int] is Some);
                            }
                            return false;
                        }
                    }
                    if self.thread_map.get(m.id).is_none() {
                        assert(!all_known(table, self@.threads)) by {
                            assert(table[i as int] is Some);
                        }
                        return false;
                    }
                },
                None => {},
            }
            i = i + 1;
        }
        let mut copy = self.meta_array.get_queue_ref().duplicate();
        let ghost threads = self@.threads;
        let ghost scan0 = scan(table, clock, threads);
        let mut got_some = false;
        loop
            invariant_except_break
                !got_some,
                scan(copy.slots(), clock, threads) == scan0,
            invariant
                copy.wf(),
                copy.clock_value() == clock,
                threads == self@.threads,
                scan0 == scan(table, clock, threads),
                all_fit(copy.slots(), clock),
                all_known(copy.slots(), threads),
            ensures
                got_some == scan0.1 is Some,
            decreases filled(copy.slots()),
        {
            proof {
                lemma_all_fit(copy.slots(), clock, 0);
            }
            let ghost before = copy.slots();
            match self.scheduler.get_next(&mut copy) {
                Ok(Some(t)) => {
                    proof {
                        let i = pick(before).unwrap();
                        assert(is_pick(before, i));
                        assert(t.id == before[i].unwrap().id);
                        lemma_all_fit(before, clock, i);
                        lemma_all_known(before, threads, i);
                        lemma_next_drains(before, clock);
                    }
                    let waiting = match self.thread_map.get(t.id) {
                        Some(th) => th.state == ThreadState::Waiting,
                        None => false,
                    };
                    if waiting {
                        assert(scan(before, clock, threads) == scan(copy.slots(), clock, threads));
                        continue;
                    }
                    assert(scan(before, clock, threads) == (copy.slots(), Some(t)));
                    got_some = true;
                    break;
                },
                _ => {
                    assert(scan(before, clock, threads) == (copy.slots(), None::<ThreadMeta>));
                    break;
                },
            }
        }
        match self.thread_map.get(cm.id) {
            None => true,
            Some(c) => {
                if !got_some {
                    c.state == ThreadState::Runnable || c.state == ThreadState::Idle
                } else {
                    c.state == ThreadState::Idle || cm.id < META_SLOTS as u64
                }
            },
        }
    }

    /// Gives up the CPU: the same as `schedule`.
    pub fn do_yield(&mut self) -> (r: ScheduleOutcome)
        requires
            old(self).wf(),
            can_schedule(old(self)@),
        ensures
            final(self).wf(),
            scheduled(old(self)@, final(self)@, r),
    {
        self.schedule()
    }

    /// Pushes `cont` on the continuation stack of the current thread, which must not be
    /// full, and hands back the slot it went to: the depth of the stack before the push.
    pub fn push_continuation(&mut self, cont: Continuation) -> (r: usize)
        requires
            old(self).wf(),
            continuation_ready(old(self)@),
            old(self)@.cont.unwrap() < MAX_CONT,
        ensures
            final(self).wf(),
            r == old(self)@.cont.unwrap(),
            pushed(old(self)@, final(self)@, cont),
    {
        let d = self.cont_state.unwrap();
        let cid = self.current_meta.unwrap().unwrap().id;
        let mut t = self.thread_map.remove(cid).unwrap();
        t.continuations.set(d, cont);
        let _ = self.thread_map.insert(cid, t);
        self.cont_state = Some(d + 1);
        proof {
            assert(self@.threads.dom() =~= old(self)@.threads.dom());
        }
        d
    }

    /// Pops the top of the continuation stack of the current thread, which must not be
    /// empty, and hands it back.
    pub fn pop_continuation(&mut self) -> (r: Continuation)
        requires
            old(self).wf(),
            continuation_ready(old(self)@),
            old(self)@.cont.unwrap() > 0,
        ensures
            final(self).wf(),
            popped(old(self)@, final(self)@, r),
    {
        let d = self.cont_state.unwrap();
        let cid = self.current_meta.unwrap().unwrap().id;
        let r = match self.thread_map.get(cid) {
            Some(t) => t.continuations[d - 1],
            None => Continuation::zeroed(),
        };
        self.cont_state = Some(d - 1);
        r
    }

    /// Pushes thread `id` on the rebalance queue of CPU `queue`.
    pub fn rb_push_thread(&mut self, queue: usize, id: u64)
        requires
            old(self).wf(),
            queue < MAX_CPUS,
        ensures
            final(self).wf(),
            final(self)@ == (KernelState {
                rb_queues: old(self)@.rb_queues.update(queue as int, old(self)@.rb_queues[queue as int].push(id)),
                ..old(self)@
            }),
    {
        let mut q = self.rebalance_queues.queues.remove(queue);
        q.push(id);
        self.rebalance_queues.queues.insert(queue, q);
        proof {
            assert(self@.rb_queues =~= old(self)@.rb_queues.update(
                queue as int,
                old(self)@.rb_queues[queue as int].push(id),
            ));
        }
    }

    /// Takes the thread pushed last on the rebalance queue of CPU `queue`, if any.
    pub fn rb_pop_thread(&mut self, queue: usize) -> (r: Option<u64>)
        requires
            old(self).wf(),
            queue < MAX_CPUS,
        ensures
            final(self).wf(),
            old(self)@.rb_queues[queue as int].len() == 0 ==> r is None && final(self)@ == old(self)@,
            old(self)@.rb_queues[queue as int].len() > 0 ==> r == Some(old(self)@.rb_queues[queue as int].last())
                && final(self)@ == (KernelState {
                rb_queues: old(self)@.rb_queues.update(queue as int, old(self)@.rb_queues[queue as int].drop_last()),
                ..old(self)@
            }),
    {
        let mut q = self.rebalance_queues.queues.remove(queue);
        let r = q.pop();
        self.rebalance_queues.queues.insert(queue, q);
        proof {
            if old(self)@.rb_queues[queue as int].len() == 0 {
                assert(self@.rb_queues =~= old(self)@.rb_queues);
            } else {
                assert(self@.rb_queues =~= old(self)@.rb_queues.update(
                    queue as int,
                    old(self)@.rb_queues[queue as int].drop_last(),
                ));
            }
        }
        r
    }

    /// Raises the rebalance flag of CPU `queue`.
    pub fn rb_queue_signal(&mut self, queue: usize)
        requires
            old(self).wf(),
            queue < MAX_CPUS,
        ensures
            final(self).wf(),
            final(self)@ == (KernelState { flags: old(self)@.flags.update(queue as int, true), ..old(self)@ }),
    {
        self.rebalance_flags.flags.set(queue, RebalanceFlag { rebalance: true });
        proof {
            assert(self@.flags =~= old(self)@.flags.update(queue as int, true));
        }
    }

    /// Lowers the rebalance flag of CPU `queue`.
    pub fn rb_queue_clear_signal(&mut self, queue: usize)
        requires
            old(self).wf(),
            queue < MAX_CPUS,
        ensures
            final(self).wf(),
            final(self)@ == (KernelState { flags: old(self)@.flags.update(queue as int, false), ..old(self)@ }),
    {
        self.rebalance_flags.flags.set(queue, RebalanceFlag { rebalance: false });
        proof {
            assert(self@.flags =~= old(self)@.flags.update(queue as int, false));
        }
    }

    /// Whether CPU `queue` is asked to rebalance: reading the flag is switched off, so never.
    pub fn rb_check_signal(&self, queue: usize) -> (r: bool)
        ensures
            !r,
    {
        false
    }

    /// Sends thread `id` to the CPU its affinity names: it goes on that CPU's rebalance
    /// queue and the CPU's rebalance flag is raised.
    pub fn rebalance_thread(&mut self, id: u64)
        requires
            old(self).wf(),
            old(self)@.threads.contains_key(id),
            (old(self)@.threads[id].affinity as usize) < MAX_CPUS,
        ensures
            final(self).wf(),
            ({
                let cpu = old(self)@.threads[id].affinity as usize as int;
                final(self)@ == (KernelState {
                    rb_queues: old(self)@.rb_queues.update(cpu, old(self)@.rb_queues[cpu].push(id)),
                    flags: old(self)@.flags.update(cpu, true),
                    ..old(self)@
                })
            }),
    {
        let cpu_id = match self.thread_map.get(id) {
            Some(t) => t.affinity,
            None => 0,
        };
        self.rb_push_thread(cpu_id as usize, id);
        self.rb_queue_signal(cpu_id as usize);
    }
}

/// The metadata table and the thread map, both empty.
fn init_thread_list() -> (r: (ThreadMetaQueues, ThreadMap))
    ensures
        r.0.wf(),
        forall|i: int| 0 <= i < META_SLOTS ==> #[trigger] r.0.slots()[i] is None,
        r.0.get_queue_ref().clock_value() == crate::sched::INITIAL_CLOCK,
        r.1.contents() == Map::<u64, Thread>::empty(),
{
    (ThreadMetaQueues::new(), ThreadMap::new())
}

/// A handle on a thread, by id.
#[derive(Clone, Copy, Debug, PartialEq, Eq, Structural)]
pub struct PThread {
    pub thread: u64,
}

impl PThread {
    /// A handle on thread `t`.
    pub fn new(t: u64) -> (r: PThread)
        ensures
            r.thread == t,
    {
        PThread { thread: t }
    }

    /// The id the thread holds.
    pub fn get_id(&self, k: &Kernel) -> (r: u64)
        requires
            k@.threads.contains_key(self.thread),
        ensures
            r == k@.threads[self.thread].id,
    {
        match k.thread_map.get(self.thread) {
            Some(t) => t.id,
            None => 0,
        }
    }

    /// Asks the thread to move to CPU `affinity`: refused, with nothing changed, when
    /// fewer than `affinity + 1` of the `active_cpus` CPUs are active (the affinity is
    /// compared in its low 32 bits); otherwise the thread records the affinity, is
    /// marked for rebalancing and is put in state `Rebalanced`.
    pub fn set_affinity(&self, k: &mut Kernel, affinity: u64, active_cpus: u32)
        requires
            old(k).wf(),
            old(k)@.threads.contains_key(self.thread),
        ensures
            final(k).wf(),
            (affinity as u32) >= active_cpus ==> final(k)@ == old(k)@,
            (affinity as u32) < active_cpus ==> final(k)@ == (KernelState {
                threads: old(k)@.threads.insert(
                    self.thread,
                    Thread {
                        affinity,
                        rebalance: true,
                        state: ThreadState::Rebalanced,
                        ..old(k)@.threads[self.thread]
                    },
                ),
                ..old(k)@
            }),
    {
        if affinity as u32 >= active_cpus {
            return;
        }
        let mut thread = k.thread_map.remove(self.thread).unwrap();
        thread.affinity = affinity;
        thread.rebalance = true;
        thread.state = ThreadState::Rebalanced;
        let _ = k.thread_map.insert(self.thread, thread);
        proof {
            assert(k@.threads =~= old(k)@.threads.insert(
                self.thread,
                Thread {
                    affinity,
                    rebalance: true,
                    state: ThreadState::Rebalanced,
                    ..old(k)@.threads[self.thread]
                },
            ));
        }
    }

    /// Gives the thread priority `prio`: refused, with nothing changed, above `MAX_PRIO`.
    pub fn set_priority(&self, k: &mut Kernel, prio: u64)
        requires
            old(k).wf(),
            old(k)@.threads.contains_key(self.thread),
        ensures
            final(k).wf(),
            (prio as usize) > MAX_PRIO ==> final(k)@ == old(k)@,
            (prio as usize) <= MAX_PRIO ==> final(k)@ == (KernelState {
                threads: old(k)@.threads.insert(
                    self.thread,
                    Thread { priority: prio as usize, ..old(k)@.threads[self.thread] },
                ),
                ..old(k)@
            }),
    {
        if prio as usize > MAX_PRIO {
            return;
        }
        let mut thread = k.thread_map.remove(self.thread).unwrap();
        thread.priority = prio as usize;
        let _ = k.thread_map.insert(self.thread, thread);
        proof {
            assert(k@.threads =~= old(k)@.threads.insert(
                self.thread,
                Thread { priority: prio as usize, ..old(k)@.threads[self.thread] },
            ));
        }
    }

    /// Puts the thread in state `state` when that is `Waiting` or `Runnable`; any other
    /// state is refused, with nothing changed.
    pub fn set_state(&self, k: &mut Kernel, state: ThreadState)
        requires
            old(k).wf(),
            old(k)@.threads.contains_key(self.thread),
        ensures
            final(k).wf(),
            state == ThreadState::Waiting || state == ThreadState::Runnable ==> final(k)@ == (
            KernelState {
                threads: old(k)@.threads.insert(
                    self.thread,
                    with_state(old(k)@.threads[self.thread], state),
                ),
                ..old(k)@
            }),
            !(state == ThreadState::Waiting || state == ThreadState::Runnable) ==> final(k)@ == old(
                k,
            )@,
    {
        let mut thread = k.thread_map.remove(self.thread).unwrap();
        match state {
            ThreadState::Waiting => {
                thread.state = ThreadState::Waiting;
            },
            ThreadState::Runnable => {
                thread.state = ThreadState::Runnable;
            },
            _ => {},
        }
        let _ = k.thread_map.insert(self.thread, thread);
        proof {
            if state == ThreadState::Waiting || state == ThreadState::Runnable {
                assert(k@.threads =~= old(k)@.threads.insert(
                    self.thread,
                    with_state(old(k)@.threads[self.thread], state),
                ));
            } else {
                assert(k@.threads =~= old(k)@.threads);
            }
        }
    }

    /// Puts the thread to sleep: it goes to state `Waiting` and the CPU is given up as
    /// `do_yield` does.
    pub fn sleep(&self, k: &mut Kernel) -> (r: ScheduleOutcome)
        requires
            old(k).wf(),
            old(k)@.threads.contains_key(self.thread),
            can_schedule(
                KernelState {
                    threads: old(k)@.threads.insert(
                        self.thread,
                        with_state(old(k)@.threads[self.thread], ThreadState::Waiting),
                    ),
                    ..old(k)@
                },
            ),
        ensures
            final(k).wf(),
            scheduled(
                KernelState {
                    threads: old(k)@.threads.insert(
                        self.thread,
                        with_state(old(k)@.threads[self.thread], ThreadState::Waiting),
                    ),
                    ..old(k)@
                },
                final(k)@,
                r,
            ),
    {
        let mut thread = k.thread_map.remove(self.thread).unwrap();
        thread.state = ThreadState::Waiting;
        let _ = k.thread_map.insert(self.thread, thread);
        proof {
            assert(k@.threads =~= old(k)@.threads.insert(
                self.thread,
                with_state(old(k)@.threads[self.thread], ThreadState::Waiting),
            ));
        }
        k.do_yield()
    }
}

} // verus!
