use vain::endpoint::Endpoint;
use vain::notification::Notification;
use vain::sched::{Action, Scheduler};
use vain::thread::{ThreadControlBlock, ThreadState};

fn tcb(next_id: &mut u64, priority: u8) -> ThreadControlBlock {
    ThreadControlBlock::new(priority, 0x10_0000, next_id)
}

#[test]
fn send_blocks_then_recv_takes_the_message() {
    let mut next = 1u64;
    let mut s = Scheduler::new();
    let mut ep = Endpoint::new();
    let mut sender = tcb(&mut next, 5);
    sender.ipc_buffer.tag = 42;
    sender.ipc_buffer.data[3] = 7;
    let receiver = tcb(&mut next, 5);
    s.enqueue(receiver);
    s.set_current(sender);
    match ep.send(&mut s) {
        Action::Switch(sw) => {
            assert_eq!(sw.outgoing, Some(sender.id));
            assert_eq!(sw.incoming, receiver.id);
        }
        _ => panic!("sender should block"),
    }
    assert!(matches!(ep.recv(&mut s), Action::Continue));
    let now = s.current().unwrap();
    assert_eq!(now.id, receiver.id);
    assert_eq!(now.ipc_buffer.tag, 42);
    assert_eq!(now.ipc_buffer.data[3], 7);
    assert_eq!(now.state, ThreadState::Runnable);
    // The sender became ready again.
    let mut rest = s;
    let woken = rest.take_current();
    assert!(woken.is_some());
    assert!(rest.has_ready_threads());
}

#[test]
fn recv_blocks_then_send_delivers() {
    let mut next = 1u64;
    let mut s = Scheduler::new();
    let mut ep = Endpoint::new();
    let receiver = tcb(&mut next, 4);
    let mut sender = tcb(&mut next, 4);
    sender.ipc_buffer.caps[0] = 99;
    s.enqueue(sender);
    s.set_current(receiver);
    assert!(matches!(ep.recv(&mut s), Action::Switch(_)));
    assert_eq!(s.current().map(|t| t.id), Some(sender.id));
    assert!(matches!(ep.send(&mut s), Action::Continue));
    assert_eq!(s.current().map(|t| t.id), Some(sender.id));
    // The receiver is ready with the message.
    let _ = s.take_current();
    match s.schedule() {
        Action::Switch(sw) => assert_eq!(sw.incoming, receiver.id),
        _ => panic!("receiver should be ready"),
    }
    let r = s.current().unwrap();
    assert_eq!(r.ipc_buffer.caps[0], 99);
}

#[test]
fn send_with_nobody_ready_halts() {
    let mut next = 1u64;
    let mut s = Scheduler::new();
    let mut ep = Endpoint::new();
    s.set_current(tcb(&mut next, 1));
    assert!(matches!(ep.send(&mut s), Action::Halt));
}

#[test]
fn signal_then_wait_does_not_block() {
    let mut next = 1u64;
    let mut s = Scheduler::new();
    let mut n = Notification::new();
    n.signal(&mut s);
    n.signal(&mut s);
    assert_eq!(n.pending_signals(), 2);
    s.set_current(tcb(&mut next, 2));
    assert!(matches!(n.wait(&mut s), Action::Continue));
    assert!(matches!(n.wait(&mut s), Action::Continue));
    assert_eq!(n.pending_signals(), 0);
}

#[test]
fn wait_blocks_then_signal_wakes() {
    let mut next = 1u64;
    let mut s = Scheduler::new();
    let mut n = Notification::new();
    let waiter = tcb(&mut next, 6);
    let other = tcb(&mut next, 6);
    s.enqueue(other);
    s.set_current(waiter);
    match n.wait(&mut s) {
        Action::Switch(sw) => {
            assert_eq!(sw.outgoing, Some(waiter.id));
            assert_eq!(sw.incoming, other.id);
        }
        _ => panic!("waiter should block"),
    }
    n.signal(&mut s);
    assert_eq!(n.pending_signals(), 0);
    assert!(s.has_ready_threads());
    let _ = s.take_current();
    match s.schedule() {
        Action::Switch(sw) => assert_eq!(sw.incoming, waiter.id),
        _ => panic!("waiter should be ready"),
    }
    assert_eq!(s.current().unwrap().state, ThreadState::Runnable);
}

#[test]
fn waiting_senders_are_served_oldest_first() {
    let mut next = 1u64;
    let mut s = Scheduler::new();
    let mut ep = Endpoint::new();
    let mut first = tcb(&mut next, 2);
    first.ipc_buffer.tag = 1;
    let mut second = tcb(&mut next, 2);
    second.ipc_buffer.tag = 2;
    let receiver = tcb(&mut next, 2);
    s.enqueue(second);
    s.enqueue(receiver);
    s.set_current(first);
    assert!(matches!(ep.send(&mut s), Action::Switch(_)));
    assert_eq!(s.current().unwrap().id, second.id);
    assert!(matches!(ep.send(&mut s), Action::Switch(_)));
    assert_eq!(s.current().unwrap().id, receiver.id);
    assert!(matches!(ep.recv(&mut s), Action::Continue));
    assert_eq!(s.current().unwrap().ipc_buffer.tag, 1);
    assert!(matches!(ep.recv(&mut s), Action::Continue));
    assert_eq!(s.current().unwrap().ipc_buffer.tag, 2);
}

#[test]
fn signals_are_counted_and_each_wait_consumes_one() {
    let mut next = 1u64;
    let mut s = Scheduler::new();
    let mut n = Notification::new();
    s.set_current(tcb(&mut next, 1));
    for _ in 0..5 {
        n.signal(&mut s);
    }
    assert_eq!(n.pending_signals(), 5);
    for left in (0..5).rev() {
        assert!(matches!(n.wait(&mut s), Action::Continue));
        assert_eq!(n.pending_signals(), left);
    }
    assert!(matches!(n.wait(&mut s), Action::Halt));
}
