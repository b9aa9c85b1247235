use redleaf::sched::Scheduler as SchedulerApi;
use redleaf::sched::{ThreadMeta, ThreadMetaQueuesInner, ThreadState};
use redleaf::sched_domain::Scheduler;

fn meta(id: u64, state: ThreadState, priority: usize, last_queued: u64) -> ThreadMeta {
    ThreadMeta {
        id,
        current_domain_id: 0,
        state,
        priority,
        affinity: 0,
        rebalance: false,
        last_queued,
        run_delay: 0,
    }
}

#[test]
fn idle_thread_is_recorded() {
    let mut s = Scheduler::new();
    assert_eq!(s.get_idle_thread(), Ok(0));
    assert_eq!(s.set_idle_thread(9), Ok(()));
    assert_eq!(s.get_idle_thread(), Ok(9));
}

#[test]
fn get_next_on_empty_table() {
    let s = Scheduler::new();
    let mut q = ThreadMetaQueuesInner::new();
    assert_eq!(s.get_next(&mut q), Ok(None));
}

#[test]
fn get_next_picks_highest_priority() {
    let s = Scheduler::new();
    let mut q = ThreadMetaQueuesInner::new();
    q.set_thread(1, meta(1, ThreadState::Runnable, 2, 11));
    q.set_thread(2, meta(2, ThreadState::Runnable, 5, 11));
    q.set_thread(3, meta(3, ThreadState::Runnable, 4, 11));
    let got = s.get_next(&mut q).unwrap().unwrap();
    assert_eq!(got.id, 2);
    assert_eq!(got.priority, 5);
    assert_eq!(q.slot(2), None);
    assert!(q.slot(1).is_some());
    assert!(q.slot(3).is_some());
}

#[test]
fn get_next_takes_last_of_equal_priority() {
    let s = Scheduler::new();
    let mut q = ThreadMetaQueuesInner::new();
    q.set_thread(4, meta(4, ThreadState::Runnable, 3, 11));
    q.set_thread(9, meta(9, ThreadState::Runnable, 3, 11));
    q.set_thread(6, meta(6, ThreadState::Runnable, 3, 11));
    assert_eq!(s.get_next(&mut q).unwrap().unwrap().id, 9);
    assert_eq!(s.get_next(&mut q).unwrap().unwrap().id, 6);
    assert_eq!(s.get_next(&mut q).unwrap().unwrap().id, 4);
    assert_eq!(s.get_next(&mut q), Ok(None));
}

#[test]
fn get_next_skips_threads_not_runnable() {
    let s = Scheduler::new();
    let mut q = ThreadMetaQueuesInner::new();
    q.set_thread(1, meta(1, ThreadState::Waiting, 9, 11));
    q.set_thread(2, meta(2, ThreadState::Idle, 9, 11));
    q.set_thread(3, meta(3, ThreadState::Runnable, 0, 11));
    assert_eq!(s.get_next(&mut q).unwrap().unwrap().id, 3);
    assert_eq!(s.get_next(&mut q), Ok(None));
    assert!(q.slot(1).is_some());
    assert!(q.slot(2).is_some());
}

#[test]
fn get_next_adds_wait_to_run_delay() {
    let s = Scheduler::new();
    let mut q = ThreadMetaQueuesInner::new();
    let mut m = meta(5, ThreadState::Runnable, 1, 7);
    m.run_delay = 100;
    q.set_thread(5, m);
    let got = s.get_next(&mut q).unwrap().unwrap();
    assert_eq!(got.last_queued, 0);
    assert_eq!(got.run_delay, 105);
    assert_eq!(got.id, 5);
    assert_eq!(got.priority, 1);
}

#[test]
fn get_next_drops_unqueued_thread() {
    let s = Scheduler::new();
    let mut q = ThreadMetaQueuesInner::new();
    q.set_thread(5, meta(5, ThreadState::Runnable, 1, 0));
    assert_eq!(s.get_next(&mut q), Ok(None));
    assert_eq!(q.slot(5), None);
}

#[test]
fn add_thread_stamps_unqueued_thread() {
    let s = Scheduler::new();
    let mut q = ThreadMetaQueuesInner::new();
    s.add_thread(&mut q, meta(8, ThreadState::Runnable, 1, 0));
    assert_eq!(q.slot(8).unwrap().last_queued, 12);
    s.add_thread(&mut q, meta(9, ThreadState::Runnable, 1, 3));
    assert_eq!(q.slot(9).unwrap().last_queued, 3);
}

#[test]
fn requeued_thread_comes_back_unchanged() {
    let s = Scheduler::new();
    let mut q = ThreadMetaQueuesInner::new();
    q.set_thread(2, meta(2, ThreadState::Runnable, 4, 11));
    let first = s.get_next(&mut q).unwrap().unwrap();
    assert_eq!(first.run_delay, 1);
    s.add_thread(&mut q, first);
    let again = s.get_next(&mut q).unwrap().unwrap();
    assert_eq!(again, first);
    assert_eq!(q.slot(2), None);
}

#[test]
fn clock_stays_across_calls() {
    let s = Scheduler::new();
    let mut q = ThreadMetaQueuesInner::new();
    assert_eq!(q.get_clock(), 12);
    q.set_thread(3, meta(3, ThreadState::Runnable, 2, 0));
    assert_eq!(q.get_clock(), 12);
    s.add_thread(&mut q, meta(5, ThreadState::Runnable, 4, 0));
    assert_eq!(q.get_clock(), 12);
    q.add_run_delay(7);
    assert_eq!(q.get_clock(), 12);
    let next = s.get_next(&mut q).unwrap().unwrap();
    assert_eq!(next.id, 5);
    assert_eq!(q.get_clock(), 12);
    assert_eq!(q.take_slot(3).unwrap().id, 3);
    assert_eq!(q.get_clock(), 12);
    assert_eq!(s.get_next(&mut q), Ok(None));
    assert_ne!(q.get_clock(), 0);
}
