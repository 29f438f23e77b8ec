use vain::cap_table::{CapTable, Capability};
use vain::endpoint::Endpoint;
use vain::notification::Notification;
use vain::objects::KernelObjects;
use vain::sched::{Action, Scheduler};
use vain::thread::ThreadControlBlock;

fn tcb(next_id: &mut u64, priority: u8) -> ThreadControlBlock {
    ThreadControlBlock::new(priority, 0x10_0000, next_id)
}

#[test]
fn capabilities_name_the_objects_they_were_made_for() {
    let mut objects = KernelObjects::new();
    let e0 = objects.add_endpoint(Endpoint::new());
    let n0 = objects.add_notification(Notification::new());
    let e1 = objects.add_endpoint(Endpoint::new());
    assert!(e0 == Capability::Endpoint(0));
    assert!(n0 == Capability::Notification(0));
    assert!(e1 == Capability::Endpoint(1));
}

#[test]
fn a_message_goes_through_a_capability_from_the_table() {
    let mut next = 1u64;
    let mut s = Scheduler::new();
    let mut objects = KernelObjects::new();
    let mut table = CapTable::new();
    let handle = table.insert(objects.add_endpoint(Endpoint::new()));
    let cap = table.get(handle).unwrap();

    let mut sender = tcb(&mut next, 3);
    sender.ipc_buffer.tag = 77;
    let receiver = tcb(&mut next, 3);
    s.enqueue(receiver);
    s.set_current(sender);
    assert!(matches!(objects.send(cap, &mut s), Some(Action::Switch(_))));
    assert!(matches!(objects.recv(cap, &mut s), Some(Action::Continue)));
    assert_eq!(s.current().unwrap().ipc_buffer.tag, 77);
}

#[test]
fn a_capability_of_the_wrong_kind_or_past_the_end_changes_nothing() {
    let mut next = 1u64;
    let mut s = Scheduler::new();
    let mut objects = KernelObjects::new();
    let n = objects.add_notification(Notification::new());
    s.set_current(tcb(&mut next, 1));
    assert!(objects.send(n, &mut s).is_none());
    assert!(objects.recv(Capability::Endpoint(5), &mut s).is_none());
    assert!(!objects.signal(Capability::Endpoint(0), &mut s));
    assert!(objects.wait(Capability::Notification(1), &mut s).is_none());
    assert!(s.current().is_some());
}

#[test]
fn a_signal_through_a_capability_is_consumed_by_a_wait() {
    let mut next = 1u64;
    let mut s = Scheduler::new();
    let mut objects = KernelObjects::new();
    let n = objects.add_notification(Notification::new());
    s.set_current(tcb(&mut next, 1));
    assert!(objects.signal(n, &mut s));
    assert!(matches!(objects.wait(n, &mut s), Some(Action::Continue)));
    // Nothing pending now: the waiter blocks and, with nothing ready, the processor halts.
    assert!(matches!(objects.wait(n, &mut s), Some(Action::Halt)));
}
