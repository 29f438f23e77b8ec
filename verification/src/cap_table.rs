//! Per-process capability tables: slots that name kernel objects.

use vstd::prelude::*;

verus! {

/// Index of a capability in its table.
pub type CapHandle = u64;

/// Most slots a table may grow to.
pub const MAX_CAPABILITIES: usize = 65536;

/// A right to use a kernel object, named by the object's index among the kernel's
/// endpoints or notifications; `objects::KernelObjects` resolves the index.
#[derive(Clone, Copy, PartialEq, Eq)]
pub enum Capability {
    Endpoint(u64),
    Notification(u64),
}

/// `i` is the lowest empty slot of `entries`.
pub open spec fn lowest_free(entries: Seq<Option<Capability>>, i: int) -> bool {
    &&& 0 <= i < entries.len()
    &&& entries[i] is None
    &&& forall|j: int| 0 <= j < i ==> #[trigger] entries[j] is Some
}

/// Whether `entries` has an empty slot.
pub open spec fn has_free(entries: Seq<Option<Capability>>) -> bool {
    exists|i: int| 0 <= i < entries.len() && #[trigger] entries[i] is None
}

/// The lowest empty slot (meaningful when there is one).
pub open spec fn first_free(entries: Seq<Option<Capability>>) -> int {
    choose|i: int| lowest_free(entries, i)
}

/// The handle that inserting `cap` returns and the slots afterwards: the lowest empty slot
/// is filled, or, when none is empty, a slot is appended.
pub open spec fn insert_spec(entries: Seq<Option<Capability>>, cap: Capability) -> (int, Seq<Option<Capability>>) {
    if has_free(entries) {
        let i = first_free(entries);
        (i, entries.update(i, Some(cap)))
    } else {
        (entries.len() as int, entries.push(Some(cap)))
    }
}

/// What looking up `handle` gives.
pub open spec fn get_spec(entries: Seq<Option<Capability>>, handle: CapHandle) -> Option<Capability> {
    if (handle as usize) < entries.len() {
        entries[handle as usize as int]
    } else {
        None
    }
}

/// The slots after `handle` is revoked.
pub open spec fn revoke_spec(entries: Seq<Option<Capability>>, handle: CapHandle) -> Seq<Option<Capability>> {
    if (handle as usize) < entries.len() {
        entries.update(handle as usize as int, None)
    } else {
        entries
    }
}

proof fn lemma_lowest_from(entries: Seq<Option<Capability>>, k: int, i: int)
    requires
        0 <= k <= i < entries.len(),
        entries[i] is None,
        forall|j: int| 0 <= j < k ==> #[trigger] entries[j] is Some,
    ensures
        lowest_free(entries, first_free(entries)),
    decreases i - k,
{
    if entries[k] is None {
        assert(lowest_free(entries, k));
    } else {
        lemma_lowest_from(entries, k + 1, i);
    }
}

/// When some slot is empty, the first free slot is the lowest empty one.
pub proof fn lemma_first_free(entries: Seq<Option<Capability>>)
    requires
        has_free(entries),
    ensures
        lowest_free(entries, first_free(entries)),
{
    let i = choose|i: int| 0 <= i < entries.len() && #[trigger] entries[i] is None;
    lemma_lowest_from(entries, 0, i);
}

proof fn lemma_lowest_free_unique(entries: Seq<Option<Capability>>, i: int, j: int)
    requires
        lowest_free(entries, i),
        lowest_free(entries, j),
    ensures
        i == j,
{
    if i < j {
        assert(entries[i] is Some);
    } else if j < i {
        assert(entries[j] is Some);
    }
}

/// A table of capability slots; a revoked slot stays empty until reused.
pub struct CapTable {
    entries: Vec<Option<Capability>>,
}

impl View for CapTable {
    type V = Seq<Option<Capability>>;

    closed spec fn view(&self) -> Seq<Option<Capability>> {
        self.entries@
    }
}

impl CapTable {
    /// A table never has more slots than a `usize` can count.
    pub proof fn lemma_len_bounded(&self)
        ensures
            self@.len() <= usize::MAX,
    {
        assert(self.entries.len() == self.entries@.len());
    }

    /// A table with no slots.
    pub fn new() -> (r: Self)
        ensures
            r@ == Seq::<Option<Capability>>::empty(),
    {
        CapTable { entries: Vec::new() }
    }

    /// Stores `cap` in the lowest empty slot, or in a new slot when none is empty, and
    /// returns the slot's handle. A full table may not grow past `MAX_CAPABILITIES` slots.
    pub fn insert(&mut self, cap: Capability) -> (r: CapHandle)
        requires
            has_free(old(self)@) || old(self)@.len() < MAX_CAPABILITIES,
        ensures
            (r as int, final(self)@) == insert_spec(old(self)@, cap),
            get_spec(final(self)@, r) == Some(cap),
            forall|h: CapHandle| #[trigger] get_spec(old(self)@, h) is Some ==> get_spec(final(self)@, h) == get_spec(old(self)@, h),
    {
        proof {
            self.lemma_len_bounded();
            lemma_get_after_insert(self@, cap, 0);
            assert forall|h: CapHandle| #[trigger] get_spec(old(self)@, h) is Some implies get_spec(insert_spec(old(self)@, cap).1, h) == get_spec(old(self)@, h) by {
                lemma_get_after_insert(old(self)@, cap, h);
            }
        }
        let len = self.entries.len();
        let mut i: usize = 0;
        while i < len
            invariant
                len == self.entries@.len(),
                self@ == old(self)@,
                i <= len,
                forall|j: int| 0 <= j < i ==> #[trigger] self@[j] is Some,
            decreases len - i,
        {
            if self.entries[i].is_none() {
                proof {
                    assert(lowest_free(self@, i as int));
                    lemma_first_free(self@);
                    lemma_lowest_free_unique(self@, i as int, first_free(self@));
                }
                self.entries.set(i, Some(cap));
                return i as u64;
            }
            i = i + 1;
        }
        assert(!has_free(old(self)@));
        self.entries.push(Some(cap));
        (self.entries.len() - 1) as u64
    }

    /// The capability stored under `handle`, if any.
    pub fn get(&self, handle: CapHandle) -> (r: Option<Capability>)
        ensures
            r == get_spec(self@, handle),
    {
        let idx = handle as usize;
        if idx < self.entries.len() {
            self.entries[idx]
        } else {
            None
        }
    }

    /// Empties the slot `handle`; a handle outside the table is ignored.
    pub fn revoke(&mut self, handle: CapHandle)
        ensures
            final(self)@ == revoke_spec(old(self)@, handle),
    {
        let idx = handle as usize;
        if idx < self.entries.len() {
            self.entries.set(idx, None);
        }
    }
}


/// Looking up the handle that an insertion returned gives the inserted capability, and every
/// other slot keeps what it held; in particular an insertion never overwrites a held slot, so
/// a capability stays reachable under its handle until that handle is revoked.
pub proof fn lemma_get_after_insert(entries: Seq<Option<Capability>>, cap: Capability, other: CapHandle)
    requires
        has_free(entries) || entries.len() < MAX_CAPABILITIES,
        entries.len() <= usize::MAX,
    ensures
        ({
            let (h, e2) = insert_spec(entries, cap);
            &&& get_spec(e2, h as u64) == Some(cap)
            &&& other as usize != h ==> get_spec(e2, other) == get_spec(entries, other)
            &&& get_spec(entries, other) is Some ==> get_spec(e2, other) == get_spec(entries, other)
        }),
{
    if has_free(entries) {
        lemma_first_free(entries);
    }
    let (h, e2) = insert_spec(entries, cap);
    assert(0 <= h < e2.len());
    assert((h as u64) as usize == h);
}

/// A revoked handle looks up nothing, and other slots keep what they held.
pub proof fn lemma_get_after_revoke(entries: Seq<Option<Capability>>, handle: CapHandle, other: CapHandle)
    ensures
        get_spec(revoke_spec(entries, handle), handle) is None,
        other as usize != handle as usize ==> get_spec(revoke_spec(entries, handle), other) == get_spec(entries, other),
{
}

/// After revoking a handle below every other empty slot, the next insertion reuses it.
pub proof fn lemma_insert_reuses_revoked(entries: Seq<Option<Capability>>, handle: CapHandle, cap: Capability)
    requires
        (handle as usize) < entries.len(),
        forall|j: int| 0 <= j < handle as usize ==> #[trigger] entries[j] is Some,
    ensures
        insert_spec(revoke_spec(entries, handle), cap).0 == handle as usize,
{
    let e = revoke_spec(entries, handle);
    let h = handle as usize as int;
    assert(lowest_free(e, h));
    lemma_first_free(e);
    lemma_lowest_free_unique(e, h, first_free(e));
}

} // verus!
