//! Ready threads, one FIFO queue per priority level.

use vstd::prelude::*;
use std::collections::VecDeque;
use crate::thread::ThreadControlBlock;

verus! {

/// Number of priority levels; level 31 is served first.
pub const NUM_PRIORITIES: usize = 32;

/// The highest priority level whose queue holds a thread, if any does.
pub open spec fn top_nonempty(queues: Seq<Seq<ThreadControlBlock>>, p: int) -> bool {
    &&& 0 <= p < queues.len()
    &&& queues[p].len() > 0
    &&& forall|j: int| p < j < queues.len() ==> #[trigger] queues[j].len() == 0
}

/// Whether any queue holds a thread.
pub open spec fn any_ready(queues: Seq<Seq<ThreadControlBlock>>) -> bool {
    exists|i: int| 0 <= i < queues.len() && #[trigger] queues[i].len() > 0
}

/// The queues after `thread` is appended to its level; a thread whose priority is outside
/// the levels leaves them unchanged.
pub open spec fn enqueue_spec(queues: Seq<Seq<ThreadControlBlock>>, thread: ThreadControlBlock) -> Seq<Seq<ThreadControlBlock>> {
    if (thread.priority as int) < queues.len() {
        queues.update(thread.priority as int, queues[thread.priority as int].push(thread))
    } else {
        queues
    }
}

/// The highest level that holds a thread (meaningful when some level does).
pub open spec fn top_priority(queues: Seq<Seq<ThreadControlBlock>>) -> int {
    choose|p: int| top_nonempty(queues, p)
}

/// The thread handed out next and the queues that remain.
pub open spec fn pick_spec(queues: Seq<Seq<ThreadControlBlock>>) -> (Option<ThreadControlBlock>, Seq<Seq<ThreadControlBlock>>) {
    if any_ready(queues) {
        let p = top_priority(queues);
        (Some(queues[p][0]), queues.update(p, queues[p].drop_first()))
    } else {
        (None, queues)
    }
}

proof fn lemma_top_nonempty_unique(queues: Seq<Seq<ThreadControlBlock>>, p: int, q: int)
    requires
        top_nonempty(queues, p),
        top_nonempty(queues, q),
    ensures
        p == q,
{
    if p < q {
        assert(queues[q].len() == 0);
    } else if q < p {
        assert(queues[p].len() == 0);
    }
}

proof fn lemma_top_from(queues: Seq<Seq<ThreadControlBlock>>, k: int, i: int)
    requires
        0 <= i < k <= queues.len(),
        queues[i].len() > 0,
        forall|j: int| k <= j < queues.len() ==> #[trigger] queues[j].len() == 0,
    ensures
        top_nonempty(queues, top_priority(queues)),
    decreases k,
{
    if queues[k - 1].len() > 0 {
        assert(top_nonempty(queues, k - 1));
    } else {
        lemma_top_from(queues, k - 1, i);
    }
}

/// When some level holds a thread, the top priority names the highest such level.
pub proof fn lemma_top_priority(queues: Seq<Seq<ThreadControlBlock>>)
    requires
        any_ready(queues),
    ensures
        top_nonempty(queues, top_priority(queues)),
{
    let i = choose|i: int| 0 <= i < queues.len() && #[trigger] queues[i].len() > 0;
    lemma_top_from(queues, queues.len() as int, i);
}

pub struct RunQueue {
    queues: Vec<VecDeque<ThreadControlBlock>>,
}

impl View for RunQueue {
    type V = Seq<Seq<ThreadControlBlock>>;

    closed spec fn view(&self) -> Seq<Seq<ThreadControlBlock>> {
        self.queues@.map_values(|q: VecDeque<ThreadControlBlock>| q@)
    }
}

impl RunQueue {
    /// An empty run queue.
    pub fn new() -> (r: Self)
        ensures
            r@.len() == NUM_PRIORITIES,
            forall|i: int| 0 <= i < NUM_PRIORITIES ==> (#[trigger] r@[i]).len() == 0,
    {
        let mut queues: Vec<VecDeque<ThreadControlBlock>> = Vec::new();
        let mut i: usize = 0;
        while i < NUM_PRIORITIES
            invariant
                i <= NUM_PRIORITIES,
                queues@.len() == i,
                forall|j: int| 0 <= j < i ==> (#[trigger] queues@[j])@.len() == 0,
            decreases NUM_PRIORITIES - i,
        {
            queues.push(VecDeque::new());
            i = i + 1;
        }
        RunQueue { queues }
    }

    /// Appends `thread` to the queue of its priority level. A thread whose priority is
    /// outside the levels is dropped.
    pub fn enqueue(&mut self, thread: ThreadControlBlock)
        requires
            old(self)@.len() == NUM_PRIORITIES,
        ensures
            final(self)@ == enqueue_spec(old(self)@, thread),
    {
        let prio = thread.priority as usize;
        if prio < NUM_PRIORITIES {
            self.queues[prio].push_back(thread);
            proof {
                assert(self@ =~= old(self)@.update(prio as int, old(self)@[prio as int].push(thread)));
            }
        }
    }

    /// Removes and returns the oldest thread of the highest non-empty priority level.
    pub fn pick_next(&mut self) -> (r: Option<ThreadControlBlock>)
        requires
            old(self)@.len() == NUM_PRIORITIES,
        ensures
            final(self)@.len() == NUM_PRIORITIES,
            (r, final(self)@) == pick_spec(old(self)@),
    {
        let mut i: usize = NUM_PRIORITIES;
        while i > 0
            invariant
                i <= NUM_PRIORITIES,
                self@ == old(self)@,
                self.queues@.len() == NUM_PRIORITIES,
                forall|j: int| i <= j < NUM_PRIORITIES ==> #[trigger] self@[j].len() == 0,
            decreases i,
        {
            i = i - 1;
            let ghost before = self@;
            let popped = self.queues[i].pop_front();
            match popped {
                Some(thread) => {
                    proof {
                        assert(top_nonempty(old(self)@, i as int));
                        assert(any_ready(old(self)@));
                        lemma_top_priority(old(self)@);
                        lemma_top_nonempty_unique(old(self)@, i as int, top_priority(old(self)@));
                        assert(self@ =~= old(self)@.update(i as int, old(self)@[i as int].drop_first()));
                    }
                    return Some(thread);
                }
                None => {
                    assert(self@ =~= old(self)@);
                }
            }
        }
        assert(!any_ready(old(self)@));
        None
    }

    /// Whether some level holds a thread.
    pub fn has_ready_threads(&self) -> (r: bool)
        requires
            self@.len() == NUM_PRIORITIES,
        ensures
            r == any_ready(self@),
    {
        let mut i: usize = 0;
        while i < NUM_PRIORITIES
            invariant
                i <= NUM_PRIORITIES,
                self.queues@.len() == NUM_PRIORITIES,
                forall|j: int| 0 <= j < i ==> #[trigger] self@[j].len() == 0,
            decreases NUM_PRIORITIES - i,
        {
            if self.queues[i].len() > 0 {
                assert(self@[i as int].len() > 0);
                return true;
            }
            i = i + 1;
        }
        false
    }
}


/// Every thread waits at the level of its own priority.
pub open spec fn levels_consistent(queues: Seq<Seq<ThreadControlBlock>>) -> bool {
    forall|i: int, j: int| 0 <= i < queues.len() && 0 <= j < queues[i].len() ==> (#[trigger] queues[i][j]).priority == i
}

/// All levels are empty.
pub open spec fn all_empty(queues: Seq<Seq<ThreadControlBlock>>) -> bool {
    forall|i: int| 0 <= i < queues.len() ==> (#[trigger] queues[i]).len() == 0
}

/// A thread put on an empty run queue is the next one picked, and picking it empties the
/// queue again.
pub proof fn lemma_enqueue_then_pick(queues: Seq<Seq<ThreadControlBlock>>, t: ThreadControlBlock)
    requires
        queues.len() == NUM_PRIORITIES,
        all_empty(queues),
        (t.priority as int) < NUM_PRIORITIES,
    ensures
        pick_spec(enqueue_spec(queues, t)) == (Some(t), queues),
{
    let q = enqueue_spec(queues, t);
    let p = t.priority as int;
    assert(q[p].len() == 1);
    assert(top_nonempty(q, p));
    lemma_top_priority(q);
    lemma_top_nonempty_unique(q, p, top_priority(q));
    assert(q[p].drop_first() =~= queues[p]);
    assert(q.update(p, q[p].drop_first()) =~= queues);
}

/// Threads of one priority run in the order they became ready.
pub proof fn lemma_same_level_fifo(queues: Seq<Seq<ThreadControlBlock>>, a: ThreadControlBlock, b: ThreadControlBlock)
    requires
        queues.len() == NUM_PRIORITIES,
        all_empty(queues),
        (a.priority as int) < NUM_PRIORITIES,
        a.priority == b.priority,
    ensures
        pick_spec(enqueue_spec(enqueue_spec(queues, a), b)).0 == Some(a),
        pick_spec(pick_spec(enqueue_spec(enqueue_spec(queues, a), b)).1).0 == Some(b),
{
    let p = a.priority as int;
    let q1 = enqueue_spec(queues, a);
    let q2 = enqueue_spec(q1, b);
    assert(q2[p] =~= seq![a, b]);
    assert(top_nonempty(q2, p));
    lemma_top_priority(q2);
    lemma_top_nonempty_unique(q2, p, top_priority(q2));
    let q3 = pick_spec(q2).1;
    assert(q3[p] =~= seq![b]);
    assert(top_nonempty(q3, p));
    lemma_top_priority(q3);
    lemma_top_nonempty_unique(q3, p, top_priority(q3));
}

/// A thread whose priority is beyond the levels is dropped: the queues do not change.
pub proof fn lemma_out_of_range_priority_dropped(queues: Seq<Seq<ThreadControlBlock>>, t: ThreadControlBlock)
    requires
        queues.len() == NUM_PRIORITIES,
        (t.priority as int) >= NUM_PRIORITIES,
    ensures
        enqueue_spec(queues, t) == queues,
{
}

/// Enqueueing and picking keep every thread at the level of its priority.
pub proof fn lemma_levels_preserved(queues: Seq<Seq<ThreadControlBlock>>, t: ThreadControlBlock)
    requires
        levels_consistent(queues),
    ensures
        levels_consistent(enqueue_spec(queues, t)),
        levels_consistent(pick_spec(queues).1),
{
    let q = enqueue_spec(queues, t);
    assert forall|i: int, j: int| 0 <= i < q.len() && 0 <= j < q[i].len() implies (#[trigger] q[i][j]).priority == i by {
        if i == t.priority as int && (t.priority as int) < queues.len() && j == queues[i].len() {
        } else {
            assert(q[i][j] == queues[i][j]);
        }
    }
    if any_ready(queues) {
        lemma_top_priority(queues);
        let r = pick_spec(queues).1;
        let p = top_priority(queues);
        assert forall|i: int, j: int| 0 <= i < r.len() && 0 <= j < r[i].len() implies (#[trigger] r[i][j]).priority == i by {
            if i == p {
                assert(r[i][j] == queues[i][j + 1]);
            } else {
                assert(r[i][j] == queues[i][j]);
            }
        }
    }
}

/// The thread picked has the highest priority among all ready threads.
pub proof fn lemma_pick_highest_priority(queues: Seq<Seq<ThreadControlBlock>>)
    requires
        levels_consistent(queues),
        any_ready(queues),
    ensures
        pick_spec(queues).0 matches Some(t) && forall|i: int, j: int|
            0 <= i < queues.len() && 0 <= j < queues[i].len() ==> (#[trigger] queues[i][j]).priority <= t.priority,
{
    lemma_top_priority(queues);
    let p = top_priority(queues);
    let t = queues[p][0];
    assert(t.priority == p);
    assert forall|i: int, j: int| 0 <= i < queues.len() && 0 <= j < queues[i].len() implies (#[trigger] queues[i][j]).priority <= t.priority by {
        if i > p {
            assert(queues[i].len() == 0);
        }
    }
}

/// The next thread is the one at the front of the highest level that holds a thread: if level
/// `p` holds a thread and every level above it is empty, picking hands out the thread that
/// joined level `p` first and leaves the rest of that level, and every other level, in order.
/// A thread is enqueued at the back of the level of its priority.
pub proof fn lemma_pick_takes_front_of_top_level(queues: Seq<Seq<ThreadControlBlock>>, p: int, t: ThreadControlBlock)
    requires
        0 <= p < queues.len(),
        queues[p].len() > 0,
        forall|j: int| p < j < queues.len() ==> #[trigger] queues[j].len() == 0,
    ensures
        pick_spec(queues).0 == Some(queues[p][0]),
        pick_spec(queues).1[p] == queues[p].subrange(1, queues[p].len() as int),
        forall|j: int| 0 <= j < queues.len() && j != p ==> #[trigger] pick_spec(queues).1[j] == queues[j],
        pick_spec(queues).1.len() == queues.len(),
        (t.priority as int) < queues.len() ==> {
            &&& enqueue_spec(queues, t)[t.priority as int] == queues[t.priority as int].push(t)
            &&& forall|j: int| 0 <= j < queues.len() && j != t.priority ==> #[trigger] enqueue_spec(queues, t)[j] == queues[j]
        },
{
    assert(top_nonempty(queues, p));
    lemma_top_priority(queues);
    lemma_top_nonempty_unique(queues, p, top_priority(queues));
}

} // verus!
