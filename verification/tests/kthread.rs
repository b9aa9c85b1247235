use redleaf::kthread::{Continuation, Context, Kernel, PThread, ScheduleOutcome, STACK_BYTES};
use redleaf::sched::ThreadState;

const STACK0: usize = 0x100_0000_0000;
const DIE: usize = 0xdead_0000;

fn stack(n: usize) -> usize {
    STACK0 + n * STACK_BYTES
}

#[test]
fn kernel_context_new_is_zero() {
    let c = Context::new();
    assert_eq!(c.r15, 0);
    assert_eq!(c.rsp, 0);
}

#[test]
fn init_makes_idle_current() {
    let (k, writes) = Kernel::init_threads(0x1111, stack(0), DIE);
    assert_eq!(writes.len(), 2);
    assert_eq!(writes[0].addr, stack(0) + STACK_BYTES - 8);
    assert_eq!(writes[0].value, 0);
    assert_eq!(writes[1].addr, stack(0) + STACK_BYTES - 16);
    assert_eq!(writes[1].value, DIE);
    let idle = k.get_thread(0).unwrap();
    assert_eq!(idle.state, ThreadState::Idle);
    assert_eq!(idle.name, "idle");
    assert_eq!(idle.continuation_ptr, Some(0));
    assert_eq!(idle.context.r15, 0x1111);
    assert_eq!(idle.context.rsp, stack(0) + STACK_BYTES - 16);
    assert_eq!(k.get_current_ref().id, 0);
    assert_eq!(k.get_current_pthread().get_id(&k), 0);
    assert!(k.get_thread(1).is_none());
}

#[test]
fn schedule_with_only_idle_stays() {
    let (mut k, _) = Kernel::init_threads(0x1111, stack(0), DIE);
    assert_eq!(k.schedule(), ScheduleOutcome::Stay);
    assert_eq!(k.get_current_ref().id, 0);
}

#[test]
fn create_thread_registers_it() {
    let (mut k, _) = Kernel::init_threads(0x1111, stack(0), DIE);
    let (p, writes) = k.create_thread("worker", 0x2222, stack(1), DIE);
    assert_eq!(p.thread, 1);
    assert_eq!(p.get_id(&k), 1);
    assert_eq!(writes[1].addr, stack(1) + STACK_BYTES - 16);
    let t = k.get_thread(1).unwrap();
    assert_eq!(t.name, "worker");
    assert_eq!(t.state, ThreadState::Runnable);
    assert_eq!(t.continuation_ptr, None);
    assert_eq!(t.stack, stack(1));
    assert_eq!(t.continuations.len(), 10);
}

#[test]
fn schedule_switches_from_idle_to_new_thread() {
    let (mut k, _) = Kernel::init_threads(0x1111, stack(0), DIE);
    k.create_thread("worker", 0x2222, stack(1), DIE);
    assert_eq!(k.schedule(), ScheduleOutcome::Switch { prev: 0, next: 1 });
    assert_eq!(k.get_current_ref().id, 1);
    assert_eq!(k.get_thread(1).unwrap().continuation_ptr, Some(0));
    assert_eq!(k.get_thread(0).unwrap().continuation_ptr, None);
    // No other thread is queued: the worker keeps running.
    assert_eq!(k.do_yield(), ScheduleOutcome::Stay);
}

#[test]
fn schedule_skips_waiting_thread() {
    let (mut k, _) = Kernel::init_threads(0x1111, stack(0), DIE);
    k.create_thread("a", 0x2222, stack(1), DIE);
    let (b, _) = k.create_thread("b", 0x3333, stack(2), DIE);
    b.set_state(&mut k, ThreadState::Waiting);
    assert_eq!(k.get_thread(2).unwrap().state, ThreadState::Waiting);
    assert_eq!(k.schedule(), ScheduleOutcome::Switch { prev: 0, next: 1 });
}

#[test]
fn set_priority_bounds() {
    let (mut k, _) = Kernel::init_threads(0x1111, stack(0), DIE);
    let (p, _) = k.create_thread("a", 0x2222, stack(1), DIE);
    p.set_priority(&mut k, 16);
    assert_eq!(k.get_thread(1).unwrap().priority, 0);
    p.set_priority(&mut k, 15);
    assert_eq!(k.get_thread(1).unwrap().priority, 15);
}

#[test]
fn set_affinity_bounds() {
    let (mut k, _) = Kernel::init_threads(0x1111, stack(0), DIE);
    let (p, _) = k.create_thread("a", 0x2222, stack(1), DIE);
    p.set_affinity(&mut k, 2, 2);
    let t = k.get_thread(1).unwrap();
    assert_eq!(t.affinity, 0);
    assert_eq!(t.state, ThreadState::Runnable);
    assert!(!t.rebalance);
    p.set_affinity(&mut k, 1, 2);
    let t = k.get_thread(1).unwrap();
    assert_eq!(t.affinity, 1);
    assert_eq!(t.state, ThreadState::Rebalanced);
    assert!(t.rebalance);
}

#[test]
fn set_state_refuses_other_states() {
    let (mut k, _) = Kernel::init_threads(0x1111, stack(0), DIE);
    let (p, _) = k.create_thread("a", 0x2222, stack(1), DIE);
    p.set_state(&mut k, ThreadState::Paused);
    assert_eq!(k.get_thread(1).unwrap().state, ThreadState::Runnable);
    p.set_state(&mut k, ThreadState::Waiting);
    assert_eq!(k.get_thread(1).unwrap().state, ThreadState::Waiting);
    p.set_state(&mut k, ThreadState::Runnable);
    assert_eq!(k.get_thread(1).unwrap().state, ThreadState::Runnable);
}

#[test]
fn sleeping_thread_gives_way() {
    let (mut k, _) = Kernel::init_threads(0x1111, stack(0), DIE);
    k.create_thread("a", 0x2222, stack(1), DIE);
    let (b, _) = k.create_thread("b", 0x3333, stack(2), DIE);
    assert_eq!(k.schedule(), ScheduleOutcome::Switch { prev: 0, next: 2 });
    let idle = PThread::new(0);
    assert_eq!(idle.get_id(&k), 0);
    assert_eq!(b.sleep(&mut k), ScheduleOutcome::Switch { prev: 2, next: 1 });
    assert_eq!(k.get_thread(2).unwrap().state, ThreadState::Waiting);
    assert_eq!(k.get_current_ref().id, 1);
}

#[test]
fn continuations_push_then_pop() {
    let (mut k, _) = Kernel::init_threads(0x1111, stack(0), DIE);
    k.create_thread("a", 0x2222, stack(1), DIE);
    k.schedule();
    let mut c = Continuation::zeroed();
    c.func = 0x77;
    c.rsp = 0x88;
    assert_eq!(k.push_continuation(c), 0);
    assert_eq!(k.get_current_ref().continuations[0], c);
    let mut d = Continuation::zeroed();
    d.func = 0x99;
    assert_eq!(k.push_continuation(d), 1);
    assert_eq!(k.pop_continuation(), d);
    assert_eq!(k.pop_continuation(), c);
}

#[test]
fn rebalance_queue_is_last_in_first_out() {
    let (mut k, _) = Kernel::init_threads(0x1111, stack(0), DIE);
    k.rb_push_thread(3, 10);
    k.rb_push_thread(3, 11);
    assert_eq!(k.rb_pop_thread(4), None);
    assert_eq!(k.rb_pop_thread(3), Some(11));
    assert_eq!(k.rb_pop_thread(3), Some(10));
    assert_eq!(k.rb_pop_thread(3), None);
    k.rb_queue_signal(3);
    assert!(!k.rb_check_signal(3));
    k.rb_queue_clear_signal(3);
}

#[test]
fn rebalance_thread_goes_to_its_cpu() {
    let (mut k, _) = Kernel::init_threads(0x1111, stack(0), DIE);
    let (p, _) = k.create_thread("a", 0x2222, stack(1), DIE);
    p.set_affinity(&mut k, 5, 8);
    k.rebalance_thread(1);
    assert_eq!(k.rb_pop_thread(5), Some(1));
    assert_eq!(k.rb_pop_thread(5), None);
}

#[test]
fn schedule_allowed_tracks_state() {
    let (mut k, _) = Kernel::init_threads(0x1111, stack(0), DIE);
    assert!(k.schedule_allowed());
    assert_eq!(k.next_thread_id(), 1);
    let (a, _) = k.create_thread("a", 0x2222, stack(1), DIE);
    assert_eq!(k.next_thread_id(), 2);
    assert!(k.schedule_allowed());
    assert_eq!(k.schedule(), ScheduleOutcome::Switch { prev: 0, next: 1 });
    // The running thread goes to sleep with nothing else queued: the pick finds nothing
    // and the current thread is neither runnable nor idle.
    a.set_state(&mut k, ThreadState::Waiting);
    assert!(!k.schedule_allowed());
}
