//! Scheduling decisions: which thread runs next, and what the context switch must do.

use vstd::prelude::*;
use crate::run_queue::{all_empty, any_ready, enqueue_spec, lemma_enqueue_then_pick, pick_spec, RunQueue, NUM_PRIORITIES};
use crate::thread::{advance, initial_context, ThreadContext, ThreadControlBlock, ThreadId, ThreadState, CONTEXT_SIZE};

verus! {

/// What the caller must do to carry out a scheduling decision.
#[derive(Clone, Copy)]
pub struct ContextSwitch {
    /// The thread whose registers are saved, if any.
    pub outgoing: Option<ThreadId>,
    /// The thread that resumes.
    pub incoming: ThreadId,
    /// Address of the incoming thread's saved register frame.
    pub incoming_context: u64,
    /// Kernel stack to install for system calls made by the incoming thread.
    pub kernel_stack_top: u64,
}

/// The outcome of a scheduling decision.
#[derive(Clone, Copy)]
pub enum Action {
    /// The calling thread keeps running.
    Continue,
    /// Switch to another thread.
    Switch(ContextSwitch),
    /// No thread can run: the processor halts.
    Halt,
}

/// The switch that resumes `next`, saving `outgoing`'s registers.
pub open spec fn switch_to(outgoing: Option<ThreadId>, next: ThreadControlBlock) -> Action {
    Action::Switch(ContextSwitch {
        outgoing,
        incoming: next.id,
        incoming_context: next.context,
        kernel_stack_top: next.stack_top,
    })
}

/// The queues after the previously running thread is put back, if it is still runnable.
pub open spec fn requeue_previous(queues: Seq<Seq<ThreadControlBlock>>, previous: Option<ThreadControlBlock>) -> Seq<Seq<ThreadControlBlock>> {
    match previous {
        Some(t) => if t.state == ThreadState::Runnable { enqueue_spec(queues, t) } else { queues },
        None => queues,
    }
}

/// The ready queues and the running thread.
pub struct Scheduler {
    run_queue: RunQueue,
    current: Option<ThreadControlBlock>,
}

impl Scheduler {
    pub closed spec fn queues(&self) -> Seq<Seq<ThreadControlBlock>> {
        self.run_queue@
    }

    pub closed spec fn running(&self) -> Option<ThreadControlBlock> {
        self.current
    }

    pub open spec fn wf(&self) -> bool {
        self.queues().len() == NUM_PRIORITIES
    }

    /// No thread is running and none is ready.
    pub fn new() -> (r: Self)
        ensures
            r.wf(),
            r.running() is None,
            forall|i: int| 0 <= i < NUM_PRIORITIES ==> (#[trigger] r.queues()[i]).len() == 0,
    {
        Scheduler { run_queue: RunQueue::new(), current: None }
    }

    /// The running thread, if any.
    pub fn current(&self) -> (r: Option<ThreadControlBlock>)
        ensures
            r == self.running(),
    {
        self.current
    }

    /// Takes the running thread out of the running slot.
    pub fn take_current(&mut self) -> (r: Option<ThreadControlBlock>)
        requires
            old(self).wf(),
        ensures
            final(self).wf(),
            r == old(self).running(),
            final(self).running() is None,
            final(self).queues() == old(self).queues(),
    {
        self.current.take()
    }

    /// Makes `thread` the running thread.
    pub fn set_current(&mut self, thread: ThreadControlBlock)
        requires
            old(self).wf(),
        ensures
            final(self).wf(),
            final(self).running() == Some(thread),
            final(self).queues() == old(self).queues(),
    {
        self.current = Some(thread);
    }

    /// Makes `thread` ready to run.
    pub fn enqueue(&mut self, thread: ThreadControlBlock)
        requires
            old(self).wf(),
        ensures
            final(self).wf(),
            final(self).queues() == enqueue_spec(old(self).queues(), thread),
            final(self).running() == old(self).running(),
    {
        self.run_queue.enqueue(thread);
    }

    /// Whether some thread is ready to run.
    pub fn has_ready_threads(&self) -> (r: bool)
        requires
            self.wf(),
        ensures
            r == any_ready(self.queues()),
    {
        self.run_queue.has_ready_threads()
    }

    /// Preemption point: when a thread is ready, it becomes the running thread and the
    /// previously running one, if still runnable, goes back to its ready queue.
    pub fn schedule(&mut self) -> (r: Action)
        requires
            old(self).wf(),
        ensures
            final(self).wf(),
            !any_ready(old(self).queues()) ==> {
                &&& r == Action::Continue
                &&& final(self).queues() == old(self).queues()
                &&& final(self).running() == old(self).running()
            },
            any_ready(old(self).queues()) ==> {
                let (next, rest) = pick_spec(old(self).queues());
                &&& final(self).running() == next
                &&& final(self).queues() == requeue_previous(rest, old(self).running())
                &&& r == switch_to(
                    match old(self).running() { Some(t) => Some(t.id), None => None },
                    next.unwrap(),
                )
            },
    {
        let picked = self.run_queue.pick_next();
        match picked {
            Some(next_thread) => {
                let previous = self.current.take();
                let outgoing = match previous {
                    Some(t) => {
                        let id = t.id;
                        match t.state {
                            ThreadState::Runnable => {
                                self.run_queue.enqueue(t);
                            },
                            _ => {},
                        }
                        Some(id)
                    },
                    None => None,
                };
                let sw = ContextSwitch {
                    outgoing,
                    incoming: next_thread.id,
                    incoming_context: next_thread.context,
                    kernel_stack_top: next_thread.stack_top,
                };
                self.current = Some(next_thread);
                Action::Switch(sw)
            },
            None => Action::Continue,
        }
    }

    /// Called after the running thread `outgoing` has been taken out of the running slot and
    /// parked elsewhere: the next ready thread becomes the running one, or, when none is
    /// ready, the processor halts.
    pub fn schedule_blocked(&mut self, outgoing: ThreadId) -> (r: Action)
        requires
            old(self).wf(),
        ensures
            final(self).wf(),
            blocked_post(old(self).queues(), old(self).running(), outgoing, final(self).queues(), final(self).running(), r),
    {
        let picked = self.run_queue.pick_next();
        match picked {
            Some(next_thread) => {
                let sw = ContextSwitch {
                    outgoing: Some(outgoing),
                    incoming: next_thread.id,
                    incoming_context: next_thread.context,
                    kernel_stack_top: next_thread.stack_top,
                };
                self.current = Some(next_thread);
                Action::Switch(sw)
            },
            None => Action::Halt,
        }
    }
}

impl Scheduler {
    /// The running thread exits: it is marked dead and discarded, and the next ready thread
    /// is scheduled (or the processor halts when none is ready).
    pub fn exit_current(&mut self) -> (r: Action)
        requires
            old(self).wf(),
            old(self).running() is Some,
        ensures
            final(self).wf(),
            blocked_post(old(self).queues(), None, old(self).running().unwrap().id, final(self).queues(), final(self).running(), r),
    {
        let current = self.current.take();
        let mut exiting = current.unwrap();
        exiting.state = ThreadState::Dead;
        let id = exiting.id;
        self.schedule_blocked(id)
    }
}

/// The state after a blocked thread `outgoing` gives up the processor: the highest-priority
/// ready thread runs, or, when none is ready, the processor halts with nothing changed.
pub open spec fn blocked_post(
    queues: Seq<Seq<ThreadControlBlock>>,
    running: Option<ThreadControlBlock>,
    outgoing: ThreadId,
    new_queues: Seq<Seq<ThreadControlBlock>>,
    new_running: Option<ThreadControlBlock>,
    action: Action,
) -> bool {
    let (next, rest) = pick_spec(queues);
    if any_ready(queues) {
        &&& new_running == next
        &&& new_queues == rest
        &&& action == switch_to(Some(outgoing), next.unwrap())
    } else {
        &&& new_running == running
        &&& new_queues == queues
        &&& action == Action::Halt
    }
}

/// Creates a kernel thread of the given priority whose stack ends at `stack_top` and makes it
/// ready. Returns where its initial register frame goes and the frame itself, which starts
/// the thread at `entry` through the trampoline at `startup`.
pub fn spawn_kernel_thread(
    sched: &mut Scheduler,
    next_id: &mut u64,
    priority: u8,
    entry: u64,
    stack_top: u64,
    startup: u64,
) -> (r: (u64, ThreadContext))
    requires
        old(sched).wf(),
        stack_top >= CONTEXT_SIZE,
    ensures
        final(sched).wf(),
        final(sched).running() == old(sched).running(),
        r.0 == stack_top - CONTEXT_SIZE,
        r.1.r12 == entry,
        r.1.rip == startup,
        r.1.rbp == 0 && r.1.rbx == 0 && r.1.r13 == 0 && r.1.r14 == 0 && r.1.r15 == 0,
        *final(next_id) == advance(*old(next_id)),
        exists|t: ThreadControlBlock| {
            &&& t.id@ == *old(next_id)
            &&& t.priority == priority
            &&& t.state == ThreadState::Runnable
            &&& t.context == stack_top - CONTEXT_SIZE
            &&& t.stack_top == stack_top
            &&& t.ipc_buffer.is_zeroed()
            &&& final(sched).queues() == enqueue_spec(old(sched).queues(), t)
        },
{
    let tcb = ThreadControlBlock::new(priority, stack_top, next_id);
    let context = tcb.context;
    sched.enqueue(tcb);
    (context, initial_context(entry, startup))
}


/// A preempted thread that is still runnable goes to the back of its level; one that is
/// blocked or dead is not put back.
pub proof fn lemma_preempted_thread_requeued(queues: Seq<Seq<ThreadControlBlock>>, previous: ThreadControlBlock)
    requires
        queues.len() == NUM_PRIORITIES,
    ensures
        previous.state == ThreadState::Runnable && (previous.priority as int) < NUM_PRIORITIES ==> {
            let q = requeue_previous(queues, Some(previous));
            &&& q[previous.priority as int].last() == previous
            &&& q[previous.priority as int].drop_last() == queues[previous.priority as int]
        },
        previous.state != ThreadState::Runnable ==> requeue_previous(queues, Some(previous)) == queues,
{
    if previous.state == ThreadState::Runnable && (previous.priority as int) < NUM_PRIORITIES {
        let p = previous.priority as int;
        assert(requeue_previous(queues, Some(previous))[p].drop_last() =~= queues[p]);
    }
}

/// Two runnable threads of the same priority, with nothing else ready, take turns: each
/// preemption runs the other one and puts the preempted one back.
pub proof fn lemma_same_priority_round_robin(queues: Seq<Seq<ThreadControlBlock>>, a: ThreadControlBlock, b: ThreadControlBlock)
    requires
        queues.len() == NUM_PRIORITIES,
        all_empty(queues),
        a.state == ThreadState::Runnable,
        b.state == ThreadState::Runnable,
        a.priority == b.priority,
        (a.priority as int) < NUM_PRIORITIES,
    ensures
        ({
            let q0 = enqueue_spec(queues, b);
            let (next1, rest1) = pick_spec(q0);
            let q1 = requeue_previous(rest1, Some(a));
            let (next2, rest2) = pick_spec(q1);
            let q2 = requeue_previous(rest2, next1);
            &&& next1 == Some(b)
            &&& q1 == enqueue_spec(queues, a)
            &&& next2 == Some(a)
            &&& q2 == enqueue_spec(queues, b)
        }),
{
    lemma_enqueue_then_pick(queues, b);
    lemma_enqueue_then_pick(queues, a);
}

} // verus!
