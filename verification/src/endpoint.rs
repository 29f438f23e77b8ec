//! Synchronous IPC endpoints: a sender and a receiver meet and the message is copied.

use vstd::prelude::*;
use std::collections::VecDeque;
use crate::run_queue::enqueue_spec;
use crate::sched::{blocked_post, Action, Scheduler};
use crate::thread::{with_message, with_state, ThreadControlBlock, ThreadState};

verus! {

/// What `sender` sending does to the endpoint: the blocked senders and receivers afterwards,
/// and the receiver that gets the message and becomes ready (none when the sender blocks).
pub open spec fn send_effect(
    senders: Seq<ThreadControlBlock>,
    receivers: Seq<ThreadControlBlock>,
    sender: ThreadControlBlock,
) -> (Seq<ThreadControlBlock>, Seq<ThreadControlBlock>, Option<ThreadControlBlock>) {
    if receivers.len() > 0 {
        (senders, receivers.drop_first(), Some(with_state(with_message(receivers[0], sender.ipc_buffer), ThreadState::Runnable)))
    } else {
        (senders.push(with_state(sender, ThreadState::Blocked)), receivers, None)
    }
}

/// What `receiver` receiving does to the endpoint: the blocked senders and receivers
/// afterwards and, when a sender was waiting, that sender made ready together with the
/// receiver holding the sender's message (none when the receiver blocks).
pub open spec fn recv_effect(
    senders: Seq<ThreadControlBlock>,
    receivers: Seq<ThreadControlBlock>,
    receiver: ThreadControlBlock,
) -> (Seq<ThreadControlBlock>, Seq<ThreadControlBlock>, Option<(ThreadControlBlock, ThreadControlBlock)>) {
    if senders.len() > 0 {
        (senders.drop_first(), receivers, Some((
            with_state(senders[0], ThreadState::Runnable),
            with_state(with_message(receiver, senders[0].ipc_buffer), ThreadState::Runnable),
        )))
    } else {
        (senders, receivers.push(with_state(receiver, ThreadState::Blocked)), None)
    }
}

/// The endpoint invariant: threads never wait on both sides at once, and every queued thread
/// is blocked.
pub open spec fn endpoint_inv(senders: Seq<ThreadControlBlock>, receivers: Seq<ThreadControlBlock>) -> bool {
    &&& senders.len() == 0 || receivers.len() == 0
    &&& forall|i: int| 0 <= i < senders.len() ==> (#[trigger] senders[i]).state == ThreadState::Blocked
    &&& forall|i: int| 0 <= i < receivers.len() ==> (#[trigger] receivers[i]).state == ThreadState::Blocked
}

/// What `send` does: the endpoint `e0` becomes `e1`, the scheduler `s0` becomes `s1`, and `r`
/// is the action returned.
pub open spec fn send_post(e0: Endpoint, e1: Endpoint, s0: Scheduler, s1: Scheduler, r: Action) -> bool {
    let sender = s0.running().unwrap();
    let (senders, receivers, woken) = send_effect(e0.blocked_senders(), e0.blocked_receivers(), sender);
    &&& e1.blocked_senders() == senders
    &&& e1.blocked_receivers() == receivers
    &&& match woken {
        Some(w) => {
            &&& r == Action::Continue
            &&& s1.queues() == enqueue_spec(s0.queues(), w)
            &&& s1.running() == Some(with_state(sender, ThreadState::Runnable))
        },
        None => blocked_post(s0.queues(), None, sender.id, s1.queues(), s1.running(), r),
    }
}

/// What `recv` does: the endpoint `e0` becomes `e1`, the scheduler `s0` becomes `s1`, and `r`
/// is the action returned.
pub open spec fn recv_post(e0: Endpoint, e1: Endpoint, s0: Scheduler, s1: Scheduler, r: Action) -> bool {
    let receiver = s0.running().unwrap();
    let (senders, receivers, met) = recv_effect(e0.blocked_senders(), e0.blocked_receivers(), receiver);
    &&& e1.blocked_senders() == senders
    &&& e1.blocked_receivers() == receivers
    &&& match met {
        Some((woken, received)) => {
            &&& r == Action::Continue
            &&& s1.queues() == enqueue_spec(s0.queues(), woken)
            &&& s1.running() == Some(received)
        },
        None => blocked_post(s0.queues(), None, receiver.id, s1.queues(), s1.running(), r),
    }
}

/// An endpoint: threads blocked sending and threads blocked receiving, oldest first.
pub struct Endpoint {
    senders: VecDeque<ThreadControlBlock>,
    receivers: VecDeque<ThreadControlBlock>,
}

impl Endpoint {
    pub closed spec fn blocked_senders(&self) -> Seq<ThreadControlBlock> {
        self.senders@
    }

    pub closed spec fn blocked_receivers(&self) -> Seq<ThreadControlBlock> {
        self.receivers@
    }

    /// The endpoint invariant holds of this endpoint's queues.
    pub open spec fn inv(&self) -> bool {
        endpoint_inv(self.blocked_senders(), self.blocked_receivers())
    }

    /// An endpoint with nobody waiting.
    pub fn new() -> (r: Self)
        ensures
            r.inv(),
            r.blocked_senders() == Seq::<ThreadControlBlock>::empty(),
            r.blocked_receivers() == Seq::<ThreadControlBlock>::empty(),
    {
        Endpoint { senders: VecDeque::new(), receivers: VecDeque::new() }
    }

    /// The running thread sends its message buffer. When a receiver waits, the oldest one
    /// gets the message and becomes ready while the sender keeps running; otherwise the
    /// sender blocks on the endpoint and the next ready thread is scheduled.
    pub fn send(&mut self, sched: &mut Scheduler) -> (r: Action)
        requires
            old(sched).wf(),
            old(sched).running() is Some,
        ensures
            final(sched).wf(),
            old(self).inv() ==> final(self).inv(),
            send_post(*old(self), *final(self), *old(sched), *final(sched), r),
    {
        let current = sched.take_current();
        let mut sender = current.unwrap();
        let popped = self.receivers.pop_front();
        match popped {
            Some(receiver) => {
                let mut receiver = receiver;
                receiver.ipc_buffer = sender.ipc_buffer;
                receiver.state = ThreadState::Runnable;
                sched.enqueue(receiver);
                sender.state = ThreadState::Runnable;
                sched.set_current(sender);
                Action::Continue
            },
            None => {
                sender.state = ThreadState::Blocked;
                let id = sender.id;
                self.senders.push_back(sender);
                sched.schedule_blocked(id)
            },
        }
    }

    /// The running thread receives. When a sender waits, the receiver takes the oldest
    /// sender's message and keeps running while that sender becomes ready; otherwise the
    /// receiver blocks on the endpoint and the next ready thread is scheduled.
    pub fn recv(&mut self, sched: &mut Scheduler) -> (r: Action)
        requires
            old(sched).wf(),
            old(sched).running() is Some,
        ensures
            final(sched).wf(),
            old(self).inv() ==> final(self).inv(),
            recv_post(*old(self), *final(self), *old(sched), *final(sched), r),
    {
        let current = sched.take_current();
        let mut receiver = current.unwrap();
        let popped = self.senders.pop_front();
        match popped {
            Some(sender) => {
                receiver.ipc_buffer = sender.ipc_buffer;
                let mut sender = sender;
                sender.state = ThreadState::Runnable;
                sched.enqueue(sender);
                receiver.state = ThreadState::Runnable;
                sched.set_current(receiver);
                Action::Continue
            },
            None => {
                receiver.state = ThreadState::Blocked;
                let id = receiver.id;
                self.receivers.push_back(receiver);
                sched.schedule_blocked(id)
            },
        }
    }
}


/// Sending and receiving keep the endpoint invariant: threads wait on one side only, every
/// queued thread is blocked, a sender that finds no receiver joins the back of the senders, and
/// a receiver is served by the sender at the front, the one that has waited longest.
pub proof fn lemma_endpoint_inv_kept(senders: Seq<ThreadControlBlock>, receivers: Seq<ThreadControlBlock>, t: ThreadControlBlock)
    requires
        endpoint_inv(senders, receivers),
    ensures
        ({
            let (s1, r1, _w) = send_effect(senders, receivers, t);
            let (s2, r2, met) = recv_effect(senders, receivers, t);
            &&& endpoint_inv(s1, r1)
            &&& endpoint_inv(s2, r2)
            &&& receivers.len() == 0 ==> s1 == senders.push(with_state(t, ThreadState::Blocked))
            &&& senders.len() > 0 ==> {
                &&& met matches Some((woken, received))
                &&& woken == with_state(senders[0], ThreadState::Runnable)
                &&& received.ipc_buffer == senders[0].ipc_buffer
                &&& s2 == senders.drop_first()
            }
        }),
{
}

/// A message sent while nobody receives waits with its blocked sender; the next receiver
/// takes exactly that message, the sender becomes ready, and nobody is left waiting.
pub proof fn lemma_send_then_recv_delivers(sender: ThreadControlBlock, receiver: ThreadControlBlock)
    ensures
        ({
            let (s1, r1, w1) = send_effect(Seq::empty(), Seq::empty(), sender);
            let (s2, r2, met) = recv_effect(s1, r1, receiver);
            &&& w1 is None
            &&& met == Some((
                with_state(sender, ThreadState::Runnable),
                with_state(with_message(receiver, sender.ipc_buffer), ThreadState::Runnable),
            ))
            &&& s2.len() == 0
            &&& r2.len() == 0
        }),
{
    let (s1, r1, w1) = send_effect(Seq::empty(), Seq::empty(), sender);
    assert(s1[0] == with_state(sender, ThreadState::Blocked));
    assert(with_state(with_state(sender, ThreadState::Blocked), ThreadState::Runnable) == with_state(sender, ThreadState::Runnable));
}

/// A receiver that blocks first is handed the message of the next sender, which keeps
/// running, and nobody is left waiting.
pub proof fn lemma_recv_then_send_delivers(sender: ThreadControlBlock, receiver: ThreadControlBlock)
    ensures
        ({
            let (s1, r1, met) = recv_effect(Seq::empty(), Seq::empty(), receiver);
            let (s2, r2, woken) = send_effect(s1, r1, sender);
            &&& met is None
            &&& woken == Some(with_state(with_message(receiver, sender.ipc_buffer), ThreadState::Runnable))
            &&& s2.len() == 0
            &&& r2.len() == 0
        }),
{
    let (s1, r1, met) = recv_effect(Seq::empty(), Seq::empty(), receiver);
    assert(r1[0] == with_state(receiver, ThreadState::Blocked));
    assert(with_state(with_message(with_state(receiver, ThreadState::Blocked), sender.ipc_buffer), ThreadState::Runnable)
        == with_state(with_message(receiver, sender.ipc_buffer), ThreadState::Runnable));
}

/// Blocked senders are served in the order they blocked: the next receiver gets the
/// message of the one that blocked first.
pub proof fn lemma_senders_served_in_order(first: ThreadControlBlock, second: ThreadControlBlock, receiver: ThreadControlBlock)
    ensures
        ({
            let (s1, r1, _w1) = send_effect(Seq::empty(), Seq::empty(), first);
            let (s2, r2, _w2) = send_effect(s1, r1, second);
            let (s3, _r3, met) = recv_effect(s2, r2, receiver);
            &&& met matches Some((_, received)) && received.ipc_buffer == first.ipc_buffer
            &&& s3.len() == 1
            &&& s3[0].ipc_buffer == second.ipc_buffer
        }),
{
    let (s1, r1, _w1) = send_effect(Seq::empty(), Seq::empty(), first);
    let (s2, r2, _w2) = send_effect(s1, r1, second);
    assert(s2[0] == with_state(first, ThreadState::Blocked));
    assert(s2[1] == with_state(second, ThreadState::Blocked));
    assert(s2.drop_first()[0] == s2[1]);
}

/// Receivers are served in the order they blocked: with receivers waiting, a send hands its
/// message to the one that blocked first, makes it ready, and leaves the others queued in
/// their order, while the sender itself is not queued.
pub proof fn lemma_send_serves_first_receiver(senders: Seq<ThreadControlBlock>, receivers: Seq<ThreadControlBlock>, sender: ThreadControlBlock)
    requires
        receivers.len() > 0,
    ensures
        ({
            let (s1, r1, woken) = send_effect(senders, receivers, sender);
            &&& woken matches Some(w) && w.id == receivers[0].id && w.state == ThreadState::Runnable
                && w.ipc_buffer == sender.ipc_buffer && w.priority == receivers[0].priority
            &&& r1 == receivers.subrange(1, receivers.len() as int)
            &&& s1 == senders
        }),
{
}

/// Two receivers that block in turn on an endpoint nobody sends on, followed by one send: the
/// first receiver gets the message and becomes ready, and the second stays blocked.
pub proof fn lemma_two_receivers_then_send(r1: ThreadControlBlock, r2: ThreadControlBlock, sender: ThreadControlBlock)
    ensures
        ({
            let (sa, ra, _m1) = recv_effect(Seq::empty(), Seq::empty(), r1);
            let (sb, rb, _m2) = recv_effect(sa, ra, r2);
            let (sc, rc, woken) = send_effect(sb, rb, sender);
            &&& woken matches Some(w) && w.id == r1.id && w.ipc_buffer == sender.ipc_buffer
                && w.state == ThreadState::Runnable
            &&& rc.len() == 1
            &&& rc[0].id == r2.id && rc[0].state == ThreadState::Blocked
            &&& sc.len() == 0
        }),
{
    let (sa, ra, _m1) = recv_effect(Seq::empty(), Seq::empty(), r1);
    let (sb, rb, _m2) = recv_effect(sa, ra, r2);
    assert(rb[0] == with_state(r1, ThreadState::Blocked));
    assert(rb[1] == with_state(r2, ThreadState::Blocked));
    assert(rb.drop_first()[0] == rb[1]);
}

/// Over the operations themselves: on an endpoint nobody waits on, thread `a` receives and
/// blocks, then thread `b` receives and blocks, then thread `c` sends. The send hands `c`'s
/// message to `a`, the receiver that blocked first, makes it ready, lets `c` keep running, and
/// leaves `b` alone in the queue of receivers.
pub proof fn lemma_receivers_served_in_order(
    e0: Endpoint, e1: Endpoint, e2: Endpoint, e3: Endpoint,
    s0: Scheduler, s1: Scheduler, t1: Scheduler, t2: Scheduler, u2: Scheduler, u3: Scheduler,
    r1: Action, r2: Action, r3: Action,
    a: ThreadControlBlock, b: ThreadControlBlock, c: ThreadControlBlock,
)
    requires
        e0.blocked_senders().len() == 0,
        e0.blocked_receivers().len() == 0,
        s0.running() == Some(a),
        recv_post(e0, e1, s0, s1, r1),
        t1.running() == Some(b),
        recv_post(e1, e2, t1, t2, r2),
        u2.running() == Some(c),
        send_post(e2, e3, u2, u3, r3),
    ensures
        r3 == Action::Continue,
        u3.queues() == enqueue_spec(u2.queues(), with_state(with_message(a, c.ipc_buffer), ThreadState::Runnable)),
        u3.running() == Some(with_state(c, ThreadState::Runnable)),
        e3.blocked_receivers() == seq![with_state(b, ThreadState::Blocked)],
        e3.blocked_senders().len() == 0,
{
    let rb = e2.blocked_receivers();
    assert(rb[0] == with_state(a, ThreadState::Blocked));
    assert(rb[1] == with_state(b, ThreadState::Blocked));
    assert(with_state(with_message(with_state(a, ThreadState::Blocked), c.ipc_buffer), ThreadState::Runnable)
        == with_state(with_message(a, c.ipc_buffer), ThreadState::Runnable));
    assert(rb.drop_first() =~= seq![with_state(b, ThreadState::Blocked)]);
}

} // verus!
