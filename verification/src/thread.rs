//! Threads: identifiers, states, saved register frames and control blocks.

use vstd::prelude::*;
use crate::ipc_message::IpcMessage;

verus! {

/// Size in bytes of a saved register frame (seven 64-bit registers).
pub const CONTEXT_SIZE: u64 = 56;

/// A thread identifier.
#[derive(Debug, Clone, Copy, PartialEq, Eq, PartialOrd, Ord, Hash)]
pub struct ThreadId(u64);

impl View for ThreadId {
    type V = u64;

    closed spec fn view(&self) -> u64 {
        self.0
    }
}

/// The counter after handing out one identifier: one up, wrapping to 0 at the top.
pub open spec fn advance(counter: u64) -> u64 {
    if counter == u64::MAX { 0 } else { (counter + 1) as u64 }
}

/// The counter after `k` identifiers were handed out starting from `start`.
pub open spec fn counter_after(start: u64, k: nat) -> u64
    decreases k,
{
    if k == 0 { start } else { advance(counter_after(start, (k - 1) as nat)) }
}

impl ThreadId {
    /// Hands out the identifier held in the counter `next` and advances the counter,
    /// wrapping around at the top of the range.
    pub fn new(next: &mut u64) -> (r: Self)
        ensures
            r@ == *old(next),
            *final(next) == advance(*old(next)),
    {
        let id = *next;
        *next = if id == u64::MAX { 0 } else { id + 1 };
        ThreadId(id)
    }
}

proof fn lemma_counter_closed_form(start: u64, k: nat)
    ensures
        counter_after(start, k) == (start + k) % 0x1_0000_0000_0000_0000,
    decreases k,
{
    if k > 0 {
        lemma_counter_closed_form(start, (k - 1) as nat);
        let m: int = 0x1_0000_0000_0000_0000;
        let x: int = start + k - 1;
        assert((x % m + 1) % m == (x + 1) % m) by (nonlinear_arith)
            requires m > 0, x >= 0;
    }
}

/// The identifiers that one counter hands out are pairwise distinct until it has handed out
/// every value of the range: the `i`-th and the `j`-th differ whenever `i < j < 2^64`.
pub proof fn lemma_thread_ids_distinct(start: u64, i: nat, j: nat)
    requires
        i < j < 0x1_0000_0000_0000_0000,
    ensures
        counter_after(start, i) != counter_after(start, j),
{
    lemma_counter_closed_form(start, i);
    lemma_counter_closed_form(start, j);
    let m: int = 0x1_0000_0000_0000_0000;
    let x: int = start + i;
    let y: int = start + j;
    assert(x % m != y % m) by (nonlinear_arith)
        requires m > 0, 0 <= x < y, y - x < m;
}

/// Whether a thread can be scheduled.
#[derive(Debug, Clone, Copy, PartialEq, Eq)]
pub enum ThreadState {
    Runnable,
    Blocked,
    Dead,
}

/// The callee-saved registers and return address stored when a thread is switched out.
#[derive(Clone, Copy)]
pub struct ThreadContext {
    pub r15: u64,
    pub r14: u64,
    pub r13: u64,
    pub r12: u64,
    pub rbx: u64,
    pub rbp: u64,
    pub rip: u64,
}

/// The register frame that starts a new kernel thread: execution begins in the startup
/// trampoline at `startup`, which calls the entry point passed in `r12`.
pub fn initial_context(entry: u64, startup: u64) -> (r: ThreadContext)
    ensures
        r.rip == startup,
        r.r12 == entry,
        r.rbp == 0,
        r.rbx == 0,
        r.r13 == 0,
        r.r14 == 0,
        r.r15 == 0,
{
    ThreadContext { r15: 0, r14: 0, r13: 0, r12: entry, rbx: 0, rbp: 0, rip: startup }
}

/// The scheduler's record of one thread.
#[derive(Clone, Copy)]
pub struct ThreadControlBlock {
    pub id: ThreadId,
    pub priority: u8,
    pub state: ThreadState,
    /// Address of the thread's saved register frame.
    pub context: u64,
    pub stack_top: u64,
    /// The last message the thread sent or received.
    pub ipc_buffer: IpcMessage,
}

/// `thread` with its state replaced by `state`.
pub open spec fn with_state(thread: ThreadControlBlock, state: ThreadState) -> ThreadControlBlock {
    ThreadControlBlock { state, ..thread }
}

/// `thread` with its message buffer replaced by `message`.
pub open spec fn with_message(thread: ThreadControlBlock, message: IpcMessage) -> ThreadControlBlock {
    ThreadControlBlock { ipc_buffer: message, ..thread }
}

impl ThreadControlBlock {
    /// A runnable kernel thread whose initial register frame sits just below `stack_top`;
    /// its identifier is taken from the counter `next_id`.
    pub fn new(priority: u8, stack_top: u64, next_id: &mut u64) -> (r: Self)
        requires
            stack_top >= CONTEXT_SIZE,
        ensures
            r.id@ == *old(next_id),
            *final(next_id) == advance(*old(next_id)),
            r.priority == priority,
            r.state == ThreadState::Runnable,
            r.context == stack_top - CONTEXT_SIZE,
            r.stack_top == stack_top,
            r.ipc_buffer.is_zeroed(),
    {
        let id = ThreadId::new(next_id);
        ThreadControlBlock {
            id,
            priority,
            state: ThreadState::Runnable,
            context: stack_top - CONTEXT_SIZE,
            stack_top,
            ipc_buffer: IpcMessage::empty(),
        }
    }
}

} // verus!
