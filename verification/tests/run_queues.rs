use redleaf::thread::{schedule, Context, Scheduler, SchedulerQueue, State, Thread};

fn thread(rsp: usize) -> Thread {
    let mut context = Context::new();
    context.rsp = rsp;
    Thread { state: State::Runnable, priority: 0, context }
}

#[test]
fn context_new_is_zero() {
    let c = Context::new();
    assert_eq!(c.r15, 0);
    assert_eq!(c.rsp, 0);
    assert_eq!(c.rflags, 0);
    assert_eq!(c.rbp, 0);
}

#[test]
fn queue_is_last_in_first_out() {
    let mut q = SchedulerQueue::new();
    assert!(q.get_highest().is_none());
    q.put_thread(thread(1));
    q.put_thread(thread(2));
    assert_eq!(q.get_highest().unwrap().context.rsp, 2);
    assert_eq!(q.get_highest().unwrap().context.rsp, 1);
    assert!(q.get_highest().is_none());
}

#[test]
fn put_in_passive_leaves_active_queue() {
    let mut s = Scheduler::new();
    s.put_in_passive(thread(5));
    assert!(s.get_next().is_none());
    assert!(s.get_next_active().is_none());
    s.flip_queues();
    assert_eq!(s.get_next().unwrap().context.rsp, 5);
}

#[test]
fn flip_twice_is_identity() {
    let mut s = Scheduler::new();
    s.put_in_passive(thread(3));
    s.flip_queues();
    s.flip_queues();
    assert!(s.get_next().is_none());
    s.flip_queues();
    assert_eq!(s.get_next().unwrap().context.rsp, 3);
}

#[test]
fn schedule_flips_when_active_is_empty() {
    let mut s = Scheduler::new();
    assert!(!s.has_threads());
    s.put_in_passive(thread(7));
    s.put_in_passive(thread(8));
    assert!(s.has_threads());
    let t = schedule(&mut s);
    assert_eq!(t.context.rsp, 8);
    let t = schedule(&mut s);
    assert_eq!(t.context.rsp, 7);
}

#[test]
fn schedule_prefers_active_queue() {
    let mut s = Scheduler::new();
    s.put_in_passive(thread(1));
    s.flip_queues();
    s.put_in_passive(thread(2));
    let t = schedule(&mut s);
    assert_eq!(t.context.rsp, 1);
    assert_eq!(t.state, State::Runnable);
}
