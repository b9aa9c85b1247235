use redleaf::sched::{
    ThreadMeta, ThreadMetaQueues, ThreadMetaQueuesInner, ThreadState, INITIAL_CLOCK, META_SLOTS,
};

fn meta(id: u64, state: ThreadState, priority: usize, last_queued: u64) -> ThreadMeta {
    ThreadMeta {
        id,
        current_domain_id: 0,
        state,
        priority,
        affinity: 0,
        rebalance: false,
        last_queued,
        run_delay: 0,
    }
}

#[test]
fn new_table_is_empty_with_clock() {
    let q = ThreadMetaQueuesInner::new();
    for i in 0..META_SLOTS {
        assert_eq!(q.slot(i), None);
    }
    assert_eq!(q.get_clock(), INITIAL_CLOCK);
    assert_eq!(q.get_clock(), 12);
}

#[test]
fn set_thread_then_take_slot() {
    let mut q = ThreadMetaQueuesInner::new();
    let m = meta(7, ThreadState::Runnable, 3, 11);
    q.set_thread(7, m);
    assert_eq!(q.slot(7), Some(m));
    assert_eq!(q.slot(6), None);
    assert_eq!(q.take_slot(7), Some(m));
    assert_eq!(q.slot(7), None);
    assert_eq!(q.take_slot(7), None);
}

#[test]
fn set_thread_replaces() {
    let mut q = ThreadMetaQueuesInner::new();
    q.set_thread(3, meta(3, ThreadState::Runnable, 1, 11));
    let m2 = meta(3, ThreadState::Waiting, 2, 5);
    q.set_thread(3, m2);
    assert_eq!(q.slot(3), Some(m2));
}

#[test]
fn add_run_delay_accumulates_and_keeps_clock() {
    let mut q = ThreadMetaQueuesInner::new();
    q.add_run_delay(5);
    q.add_run_delay(7);
    assert_eq!(q.get_clock(), 12);
}

#[test]
fn queues_add_get_thread() {
    let mut qs = ThreadMetaQueues::new();
    let m = meta(255, ThreadState::Idle, 0, 11);
    qs.add_thread(255, m);
    assert_eq!(*qs.get_thread_ref(255), m);
    assert_eq!(qs.get_queue_ref().slot(255), Some(m));
    assert_eq!(qs.get_thread(255), m);
    assert_eq!(qs.get_queue_ref().slot(255), None);
    assert_eq!(qs.get_queue_ref().get_clock(), 12);
}
