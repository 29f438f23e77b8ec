use vain::run_queue::RunQueue;
use vain::sched::{spawn_kernel_thread, Action, Scheduler};
use vain::thread::{initial_context, ThreadControlBlock, ThreadId, ThreadState};

fn tcb(next_id: &mut u64, priority: u8) -> ThreadControlBlock {
    ThreadControlBlock::new(priority, 0x10_0000, next_id)
}

#[test]
fn thread_ids_count_up_and_wrap() {
    let mut next = 1u64;
    let a = ThreadId::new(&mut next);
    let b = ThreadId::new(&mut next);
    assert_ne!(a, b);
    assert_eq!(next, 3);
    let mut top = u64::MAX;
    ThreadId::new(&mut top);
    assert_eq!(top, 0);
}

#[test]
fn new_thread_frame_sits_below_stack_top() {
    let mut next = 1u64;
    let t = ThreadControlBlock::new(4, 0x2000, &mut next);
    assert_eq!(t.context, 0x2000 - 56);
    assert_eq!(t.stack_top, 0x2000);
    assert_eq!(t.priority, 4);
    assert_eq!(t.state, ThreadState::Runnable);
    let c = initial_context(0xAAAA, 0xBBBB);
    assert_eq!(c.r12, 0xAAAA);
    assert_eq!(c.rip, 0xBBBB);
    assert_eq!(c.rbp, 0);
}

#[test]
fn run_queue_serves_highest_priority_first() {
    let mut next = 1u64;
    let mut rq = RunQueue::new();
    assert!(!rq.has_ready_threads());
    let low = tcb(&mut next, 1);
    let high = tcb(&mut next, 20);
    rq.enqueue(low);
    rq.enqueue(high);
    assert!(rq.has_ready_threads());
    assert_eq!(rq.pick_next().map(|t| t.id), Some(high.id));
    assert_eq!(rq.pick_next().map(|t| t.id), Some(low.id));
    assert!(rq.pick_next().is_none());
}

#[test]
fn run_queue_is_fifo_within_a_level() {
    let mut next = 1u64;
    let mut rq = RunQueue::new();
    let a = tcb(&mut next, 5);
    let b = tcb(&mut next, 5);
    rq.enqueue(a);
    rq.enqueue(b);
    assert_eq!(rq.pick_next().map(|t| t.id), Some(a.id));
    assert_eq!(rq.pick_next().map(|t| t.id), Some(b.id));
}

#[test]
fn run_queue_drops_out_of_range_priority() {
    let mut next = 1u64;
    let mut rq = RunQueue::new();
    rq.enqueue(tcb(&mut next, 32));
    assert!(!rq.has_ready_threads());
    rq.enqueue(tcb(&mut next, 31));
    assert!(rq.has_ready_threads());
}

#[test]
fn schedule_with_nothing_ready_continues() {
    let mut s = Scheduler::new();
    assert!(matches!(s.schedule(), Action::Continue));
    assert!(s.current().is_none());
}

#[test]
fn schedule_alternates_threads_of_equal_priority() {
    let mut next = 1u64;
    let mut s = Scheduler::new();
    let a = tcb(&mut next, 10);
    let b = tcb(&mut next, 10);
    s.enqueue(a);
    s.enqueue(b);
    match s.schedule() {
        Action::Switch(sw) => {
            assert_eq!(sw.outgoing, None);
            assert_eq!(sw.incoming, a.id);
            assert_eq!(sw.incoming_context, a.context);
            assert_eq!(sw.kernel_stack_top, a.stack_top);
        }
        _ => panic!("expected a switch"),
    }
    match s.schedule() {
        Action::Switch(sw) => {
            assert_eq!(sw.outgoing, Some(a.id));
            assert_eq!(sw.incoming, b.id);
        }
        _ => panic!("expected a switch"),
    }
    assert_eq!(s.current().map(|t| t.id), Some(b.id));
    match s.schedule() {
        Action::Switch(sw) => assert_eq!(sw.incoming, a.id),
        _ => panic!("expected a switch"),
    }
}

#[test]
fn schedule_drops_blocked_current_thread() {
    let mut next = 1u64;
    let mut s = Scheduler::new();
    let mut a = tcb(&mut next, 3);
    a.state = ThreadState::Blocked;
    s.set_current(a);
    let b = tcb(&mut next, 3);
    s.enqueue(b);
    assert!(matches!(s.schedule(), Action::Switch(_)));
    assert_eq!(s.current().map(|t| t.id), Some(b.id));
    assert!(!s.has_ready_threads());
}

#[test]
fn schedule_blocked_halts_when_nothing_is_ready() {
    let mut next = 1u64;
    let mut s = Scheduler::new();
    let a = tcb(&mut next, 3);
    assert!(matches!(s.schedule_blocked(a.id), Action::Halt));
}

#[test]
fn spawn_kernel_thread_makes_it_ready() {
    let mut next = 7u64;
    let mut s = Scheduler::new();
    let (ctx, frame) = spawn_kernel_thread(&mut s, &mut next, 2, 0x4000, 0x9000, 0x5000);
    assert_eq!(ctx, 0x9000 - 56);
    assert_eq!(frame.r12, 0x4000);
    assert_eq!(frame.rip, 0x5000);
    assert_eq!(next, 8);
    assert!(s.has_ready_threads());
    match s.schedule() {
        Action::Switch(sw) => {
            assert_eq!(sw.incoming_context, 0x9000 - 56);
            assert_eq!(sw.kernel_stack_top, 0x9000);
        }
        _ => panic!("expected a switch"),
    }
}

#[test]
fn exiting_thread_is_discarded() {
    let mut next = 1u64;
    let mut s = Scheduler::new();
    let a = tcb(&mut next, 9);
    let b = tcb(&mut next, 2);
    s.set_current(a);
    s.enqueue(b);
    match s.exit_current() {
        Action::Switch(sw) => {
            assert_eq!(sw.outgoing, Some(a.id));
            assert_eq!(sw.incoming, b.id);
        }
        _ => panic!("expected a switch"),
    }
    assert!(!s.has_ready_threads());
    assert!(matches!(s.exit_current(), Action::Halt));
}

#[test]
fn ids_from_one_counter_are_distinct() {
    let mut next = u64::MAX - 2;
    let ids: Vec<ThreadId> = (0..6).map(|_| ThreadId::new(&mut next)).collect();
    for i in 0..ids.len() {
        for j in (i + 1)..ids.len() {
            assert_ne!(ids[i], ids[j]);
        }
    }
    assert_eq!(next, 3);
}
