//! Notifications: counting signals that wake waiting threads.

use vstd::prelude::*;
use std::collections::VecDeque;
use crate::run_queue::enqueue_spec;
use crate::sched::{blocked_post, Action, Scheduler};
use crate::thread::{with_state, ThreadControlBlock, ThreadState};

verus! {

/// What a signal does: the pending count and waiters afterwards, and the waiter that is
/// woken (none when nobody waits and the signal is recorded instead).
pub open spec fn signal_effect(pending: nat, waiting: Seq<ThreadControlBlock>) -> (nat, Seq<ThreadControlBlock>, Option<ThreadControlBlock>) {
    if waiting.len() > 0 {
        (pending, waiting.drop_first(), Some(with_state(waiting[0], ThreadState::Runnable)))
    } else {
        (pending + 1, waiting, None)
    }
}

/// The pending count after a wait that consumes a signal; none when no signal is pending and
/// the waiter blocks.
pub open spec fn wait_effect(pending: nat) -> Option<nat> {
    if pending > 0 { Some((pending - 1) as nat) } else { None }
}

/// What `signal` does: the notification `n0` becomes `n1` and the scheduler `s0` becomes `s1`.
pub open spec fn signal_post(n0: Notification, n1: Notification, s0: Scheduler, s1: Scheduler) -> bool {
    let (pending, waiting, woken) = signal_effect(n0.pending(), n0.waiting());
    &&& s1.running() == s0.running()
    &&& n1.pending() == pending
    &&& n1.waiting() == waiting
    &&& s1.queues() == match woken {
        Some(w) => enqueue_spec(s0.queues(), w),
        None => s0.queues(),
    }
}

/// What `wait` does: the notification `n0` becomes `n1`, the scheduler `s0` becomes `s1`, and
/// `r` is the action returned.
pub open spec fn wait_post(n0: Notification, n1: Notification, s0: Scheduler, s1: Scheduler, r: Action) -> bool {
    &&& wait_effect(n0.pending()) matches Some(p) ==> {
        &&& r == Action::Continue
        &&& n1.pending() == p
        &&& n1.waiting() == n0.waiting()
        &&& s1.queues() == s0.queues()
        &&& s1.running() == s0.running()
    }
    &&& wait_effect(n0.pending()) is None ==> {
        let waiter = s0.running().unwrap();
        &&& n1.pending() == 0
        &&& n1.waiting() == n0.waiting().push(with_state(waiter, ThreadState::Blocked))
        &&& blocked_post(s0.queues(), None, waiter.id, s1.queues(), s1.running(), r)
    }
}

/// A notification: signals not yet consumed, and the threads blocked waiting for one.
pub struct Notification {
    count: u64,
    waiters: VecDeque<ThreadControlBlock>,
}

impl Notification {
    /// Signals that no thread has consumed yet.
    pub closed spec fn pending(&self) -> nat {
        self.count as nat
    }

    /// Threads blocked waiting, oldest first.
    pub closed spec fn waiting(&self) -> Seq<ThreadControlBlock> {
        self.waiters@
    }

    /// A notification with no pending signal and no waiter.
    pub fn new() -> (r: Self)
        ensures
            r.pending() == 0,
            r.waiting() == Seq::<ThreadControlBlock>::empty(),
    {
        Notification { count: 0, waiters: VecDeque::new() }
    }

    /// Number of pending signals.
    pub fn pending_signals(&self) -> (r: u64)
        ensures
            r == self.pending(),
    {
        self.count
    }

    /// Wakes the oldest waiter, making it ready; with no waiter, records the signal.
    pub fn signal(&mut self, sched: &mut Scheduler)
        requires
            old(sched).wf(),
            old(self).waiting().len() == 0 ==> old(self).pending() < u64::MAX,
        ensures
            final(sched).wf(),
            signal_post(*old(self), *final(self), *old(sched), *final(sched)),
    {
        let popped = self.waiters.pop_front();
        match popped {
            Some(waiter) => {
                let mut woken = waiter;
                woken.state = ThreadState::Runnable;
                sched.enqueue(woken);
            },
            None => {
                self.count = self.count + 1;
            },
        }
    }

    /// Consumes a pending signal; with none pending, the running thread blocks on the
    /// notification and the next ready thread is scheduled.
    pub fn wait(&mut self, sched: &mut Scheduler) -> (r: Action)
        requires
            old(sched).wf(),
            old(self).pending() == 0 ==> old(sched).running() is Some,
        ensures
            final(sched).wf(),
            wait_post(*old(self), *final(self), *old(sched), *final(sched), r),
    {
        if self.count > 0 {
            self.count = self.count - 1;
            Action::Continue
        } else {
            let current = sched.take_current();
            let mut waiter = current.unwrap();
            waiter.state = ThreadState::Blocked;
            let id = waiter.id;
            self.waiters.push_back(waiter);
            sched.schedule_blocked(id)
        }
    }
}


/// With nobody waiting, a signal followed by a wait does not block and leaves the pending
/// count as it was.
pub proof fn lemma_signal_then_wait_restores(pending: nat, waiting: Seq<ThreadControlBlock>)
    requires
        waiting.len() == 0,
    ensures
        signal_effect(pending, waiting).1 == waiting,
        wait_effect(signal_effect(pending, waiting).0) == Some(pending),
{
}

/// The pending count after `k` signals with nobody waiting, starting from `pending`.
pub open spec fn after_signals(pending: nat, k: nat) -> nat
    decreases k,
{
    if k == 0 {
        pending
    } else {
        signal_effect(after_signals(pending, (k - 1) as nat), Seq::empty()).0
    }
}

/// The pending count after `k` waits starting from `pending`, or `None` when one of them
/// would block.
pub open spec fn after_waits(pending: nat, k: nat) -> Option<nat>
    decreases k,
{
    if k == 0 {
        Some(pending)
    } else {
        match after_waits(pending, (k - 1) as nat) {
            Some(p) => wait_effect(p),
            None => None,
        }
    }
}

/// Signals are not lost: with nobody waiting, `k` signals raise the pending count by `k`,
/// and the next `k` waits all go through without blocking and bring it back to where it was.
pub proof fn lemma_signals_counted(pending: nat, k: nat)
    ensures
        after_signals(pending, k) == pending + k,
        after_waits(pending + k, k) == Some(pending),
    decreases k,
{
    if k > 0 {
        lemma_signals_counted(pending, (k - 1) as nat);
        lemma_waits_count_down(pending, k);
    }
}

proof fn lemma_waits_count_down(pending: nat, k: nat)
    ensures
        after_waits(pending + k, k) == Some(pending),
    decreases k,
{
    if k > 0 {
        lemma_waits_count_down(pending + 1, (k - 1) as nat);
    }
}

/// A waiter that blocked is the one the next signal wakes, made ready, and the signal is
/// not counted.
pub proof fn lemma_wait_then_signal_wakes(pending: nat, waiter: ThreadControlBlock)
    requires
        pending == 0,
    ensures
        wait_effect(pending) is None,
        signal_effect(pending, Seq::empty().push(with_state(waiter, ThreadState::Blocked)))
            == (pending, Seq::<ThreadControlBlock>::empty(), Some(with_state(waiter, ThreadState::Runnable))),
{
    let w = Seq::<ThreadControlBlock>::empty().push(with_state(waiter, ThreadState::Blocked));
    assert(w.drop_first() =~= Seq::<ThreadControlBlock>::empty());
    assert(with_state(with_state(waiter, ThreadState::Blocked), ThreadState::Runnable) == with_state(waiter, ThreadState::Runnable));
}

/// Waiters are woken in the order they blocked: with threads waiting, a signal makes the one
/// that has waited longest ready, leaves the others waiting in their order, and does not
/// count the signal.
pub proof fn lemma_signal_wakes_longest_waiter(pending: nat, waiting: Seq<ThreadControlBlock>)
    requires
        waiting.len() > 0,
    ensures
        ({
            let (p1, w1, woken) = signal_effect(pending, waiting);
            &&& woken matches Some(w) && w.id == waiting[0].id && w.state == ThreadState::Runnable
                && w.ipc_buffer == waiting[0].ipc_buffer && w.priority == waiting[0].priority
            &&& w1 == waiting.subrange(1, waiting.len() as int)
            &&& p1 == pending
        }),
{
}

/// Two threads that wait in turn on a notification with nothing pending, then one signal: the
/// first waiter is woken and the second keeps waiting.
pub proof fn lemma_two_waiters_then_signal(a: ThreadControlBlock, b: ThreadControlBlock)
    ensures
        ({
            let waiting = Seq::empty().push(with_state(a, ThreadState::Blocked)).push(with_state(b, ThreadState::Blocked));
            let (p1, w1, woken) = signal_effect(0, waiting);
            &&& wait_effect(0) is None
            &&& woken matches Some(w) && w.id == a.id && w.state == ThreadState::Runnable
            &&& w1.len() == 1 && w1[0].id == b.id && w1[0].state == ThreadState::Blocked
            &&& p1 == 0
        }),
{
    let waiting = Seq::empty().push(with_state(a, ThreadState::Blocked)).push(with_state(b, ThreadState::Blocked));
    assert(waiting.drop_first()[0] == waiting[1]);
}

/// Over the operations themselves: on a notification with nothing pending and nobody
/// waiting, thread `a` waits and blocks, then thread `b` waits and blocks, then a signal
/// arrives. The signal makes `a`, the waiter that blocked first, ready, and `b` keeps waiting.
pub proof fn lemma_waiters_woken_in_order(
    n0: Notification, n1: Notification, n2: Notification, n3: Notification,
    s0: Scheduler, s1: Scheduler, t1: Scheduler, t2: Scheduler, u2: Scheduler, u3: Scheduler,
    r1: Action, r2: Action,
    a: ThreadControlBlock, b: ThreadControlBlock,
)
    requires
        n0.pending() == 0,
        n0.waiting().len() == 0,
        s0.running() == Some(a),
        wait_post(n0, n1, s0, s1, r1),
        t1.running() == Some(b),
        wait_post(n1, n2, t1, t2, r2),
        signal_post(n2, n3, u2, u3),
    ensures
        u3.queues() == enqueue_spec(u2.queues(), with_state(a, ThreadState::Runnable)),
        n3.waiting() == seq![with_state(b, ThreadState::Blocked)],
        n3.pending() == 0,
{
    let w = n2.waiting();
    assert(w[0] == with_state(a, ThreadState::Blocked));
    assert(with_state(with_state(a, ThreadState::Blocked), ThreadState::Runnable) == with_state(a, ThreadState::Runnable));
    assert(w.drop_first() =~= seq![with_state(b, ThreadState::Blocked)]);
}

} // verus!
