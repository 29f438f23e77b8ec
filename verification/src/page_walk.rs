//! The four-level page-table walk, over a model of memory that maps each table's frame
//! address to its 512 raw entries: what a lookup finds, what mapping a page writes, and how
//! the two relate.

use vstd::prelude::*;
use crate::paging::{table_indices_spec, ADDRESS_MASK, TABLE_LINK_FLAGS};

verus! {

/// The present bit of a raw entry.
pub open spec fn entry_present(e: u64) -> bool {
    e & 1u64 != 0
}

/// The frame address held by a raw entry.
pub open spec fn entry_frame(e: u64) -> u64 {
    e & ADDRESS_MASK
}

/// A cleared table.
pub open spec fn empty_table() -> Seq<u64> {
    Seq::new(512, |i: int| 0u64)
}

/// The index into the table of `level` (0 is the top level) for `va`.
pub open spec fn level_index(va: u64, level: int) -> int {
    table_indices_spec(va)@[level] as int
}

/// The table that the walk for `va` reaches at `level` (0: the top-level table `root`), or
/// `None` when an entry above it is absent.
pub open spec fn walk_table(mem: Map<u64, Seq<u64>>, root: u64, va: u64, level: nat) -> Option<u64>
    decreases level,
{
    if level == 0 {
        Some(root)
    } else {
        match walk_table(mem, root, va, (level - 1) as nat) {
            Some(t) => {
                let e = mem[t][level_index(va, level - 1)];
                if entry_present(e) { Some(entry_frame(e)) } else { None }
            },
            None => None,
        }
    }
}

/// Whether `va` is mapped: the walk reaches the last table and its entry is present.
pub open spec fn is_mapped_spec(mem: Map<u64, Seq<u64>>, root: u64, va: u64) -> bool {
    match walk_table(mem, root, va, 3) {
        Some(t) => entry_present(mem[t][level_index(va, 3)]),
        None => false,
    }
}

/// The leaf entry for `va` (meaningful when `va` is mapped).
pub open spec fn leaf_entry(mem: Map<u64, Seq<u64>>, root: u64, va: u64) -> u64 {
    mem[walk_table(mem, root, va, 3)->Some_0][level_index(va, 3)]
}

/// One step of mapping: follows entry `idx` of `table`, or, when it is absent, clears the
/// table in frame `fresh` and links it there. Gives the memory afterwards and the table below.
pub open spec fn descend(mem: Map<u64, Seq<u64>>, table: u64, idx: int, fresh: u64) -> (Map<u64, Seq<u64>>, u64) {
    let e = mem[table][idx];
    if entry_present(e) {
        (mem, entry_frame(e))
    } else {
        let m = mem.insert(fresh, empty_table());
        (m.insert(table, mem[table].update(idx, (fresh & ADDRESS_MASK) | TABLE_LINK_FLAGS)), fresh & ADDRESS_MASK)
    }
}

/// Mapping `va` to `phys` with `flags`, taking the frames of any missing tables from `fresh`
/// (one per level below the top): the memory afterwards, or `None` when the page is already
/// mapped and nothing is written to its leaf.
pub open spec fn map_page_spec(mem: Map<u64, Seq<u64>>, root: u64, va: u64, phys: u64, flags: u64, fresh: Seq<u64>) -> Option<Map<u64, Seq<u64>>> {
    let (m1, t1) = descend(mem, root, level_index(va, 0), fresh[0]);
    let (m2, t2) = descend(m1, t1, level_index(va, 1), fresh[1]);
    let (m3, t3) = descend(m2, t2, level_index(va, 2), fresh[2]);
    let idx = level_index(va, 3);
    if entry_present(m3[t3][idx]) {
        None
    } else {
        Some(m3.insert(t3, m3[t3].update(idx, (phys & ADDRESS_MASK) | (flags | 1u64))))
    }
}

/// The tables in `mem` are well formed: each has 512 entries, and every present entry points
/// at a table of `mem`.
pub open spec fn tables_closed(mem: Map<u64, Seq<u64>>) -> bool {
    &&& forall|t: u64| #[trigger] mem.dom().contains(t) ==> mem[t].len() == 512
    &&& forall|t: u64, i: int|
        mem.dom().contains(t) && 0 <= i < 512 && entry_present(#[trigger] mem[t][i])
            ==> mem.dom().contains(entry_frame(mem[t][i]))
}

/// The tables that the walk for `va` passes through are distinct.
pub open spec fn walk_distinct(mem: Map<u64, Seq<u64>>, root: u64, va: u64) -> bool {
    forall|a: nat, b: nat|
        a < b <= 3 && (#[trigger] walk_table(mem, root, va, a)) is Some && (#[trigger] walk_table(mem, root, va, b)) is Some
            ==> walk_table(mem, root, va, a) != walk_table(mem, root, va, b)
}

/// Frames for new tables: three distinct frame addresses that hold no table yet.
pub open spec fn fresh_frames(mem: Map<u64, Seq<u64>>, fresh: Seq<u64>) -> bool {
    &&& fresh.len() == 3
    &&& forall|k: int| 0 <= k < 3 ==> (#[trigger] fresh[k]) & ADDRESS_MASK == fresh[k] && !mem.dom().contains(fresh[k])
    &&& fresh[0] != fresh[1] && fresh[0] != fresh[2] && fresh[1] != fresh[2]
}

proof fn lemma_entry_bits(f: u64, phys: u64, flags: u64)
    requires
        flags & ADDRESS_MASK == 0,
    ensures
        entry_present((f & ADDRESS_MASK) | TABLE_LINK_FLAGS),
        entry_frame((f & ADDRESS_MASK) | TABLE_LINK_FLAGS) == f & ADDRESS_MASK,
        entry_present((phys & ADDRESS_MASK) | (flags | 1u64)),
        entry_frame((phys & ADDRESS_MASK) | (flags | 1u64)) == phys & ADDRESS_MASK,
        !entry_present(0u64),
{
    assert(((f & 0x000F_FFFF_FFFF_F000u64) | 7u64) & 1u64 != 0) by (bit_vector);
    assert(((f & 0x000F_FFFF_FFFF_F000u64) | 7u64) & 0x000F_FFFF_FFFF_F000u64 == f & 0x000F_FFFF_FFFF_F000u64) by (bit_vector);
    assert(((phys & 0x000F_FFFF_FFFF_F000u64) | (flags | 1u64)) & 1u64 != 0) by (bit_vector);
    assert(((phys & 0x000F_FFFF_FFFF_F000u64) | (flags | 1u64)) & 0x000F_FFFF_FFFF_F000u64
        == phys & 0x000F_FFFF_FFFF_F000u64) by (bit_vector)
        requires
            flags & 0x000F_FFFF_FFFF_F000u64 == 0,
    ;
    assert(0u64 & 1u64 == 0) by (bit_vector);
}

proof fn lemma_indices_in_range(va: u64)
    ensures
        forall|l: int| 0 <= l < 4 ==> 0 <= #[trigger] level_index(va, l) < 512,
{
    assert((va >> 39u64) & 0x1FFu64 < 512 && (va >> 30u64) & 0x1FFu64 < 512
        && (va >> 21u64) & 0x1FFu64 < 512 && (va >> 12u64) & 0x1FFu64 < 512) by (bit_vector);
}

/// Mapping a page refuses exactly when the page is already mapped; when it succeeds, the
/// walk for the page then finds a present leaf entry holding `phys`'s frame.
pub proof fn lemma_map_then_lookup(mem: Map<u64, Seq<u64>>, root: u64, va: u64, phys: u64, flags: u64, fresh: Seq<u64>)
    requires
        mem.dom().contains(root),
        tables_closed(mem),
        walk_distinct(mem, root, va),
        fresh_frames(mem, fresh),
        flags & ADDRESS_MASK == 0,
    ensures
        map_page_spec(mem, root, va, phys, flags, fresh) is None <==> is_mapped_spec(mem, root, va),
        map_page_spec(mem, root, va, phys, flags, fresh) matches Some(m) ==> {
            &&& is_mapped_spec(m, root, va)
            &&& entry_frame(leaf_entry(m, root, va)) == phys & ADDRESS_MASK
        },
{
    lemma_indices_in_range(va);
    lemma_entry_bits(fresh[0], phys, flags);
    lemma_entry_bits(fresh[1], phys, flags);
    lemma_entry_bits(fresh[2], phys, flags);
    let i0 = level_index(va, 0);
    let i1 = level_index(va, 1);
    let i2 = level_index(va, 2);
    let i3 = level_index(va, 3);
    assert(0 <= i0 < 512 && 0 <= i1 < 512 && 0 <= i2 < 512 && 0 <= i3 < 512);
    let w0 = walk_table(mem, root, va, 0);
    let w1 = walk_table(mem, root, va, 1);
    let w2 = walk_table(mem, root, va, 2);
    let w3 = walk_table(mem, root, va, 3);
    let (m1, t1) = descend(mem, root, i0, fresh[0]);
    let (m2, t2) = descend(m1, t1, i1, fresh[1]);
    let (m3, t3) = descend(m2, t2, i2, fresh[2]);
    assert(empty_table()[i1] == 0u64 && empty_table()[i2] == 0u64 && empty_table()[i3] == 0u64);
    assert(m1.dom().contains(t1) && m1[t1].len() == 512);
    assert(m2.dom().contains(t2) && m2[t2].len() == 512);
    assert(m3.dom().contains(t3) && m3[t3].len() == 512);
    if w1 is Some && w2 is Some {
        assert(w0 != w1 && w0 != w2 && w1 != w2);
    }
    if w1 is Some && w3 is Some {
        assert(w0 != w3 && w1 != w3);
    }
    if w2 is Some && w3 is Some {
        assert(w2 != w3);
    }
    assert(entry_present(m1[root][i0]) && entry_frame(m1[root][i0]) == t1);
    assert(entry_present(m2[t1][i1]) && entry_frame(m2[t1][i1]) == t2);
    assert(entry_present(m3[t2][i2]) && entry_frame(m3[t2][i2]) == t3);
    assert(root != t1);
    assert(root != t2 && t1 != t2);
    assert(root != t3 && t1 != t3 && t2 != t3);
    assert(m3[root][i0] == m1[root][i0]);
    assert(m3[t1][i1] == m2[t1][i1]);
    if let Some(m) = map_page_spec(mem, root, va, phys, flags, fresh) {
        assert(m[root] == m3[root] && m[t1] == m3[t1] && m[t2] == m3[t2]);
        assert(walk_table(m, root, va, 0) == Some(root));
        assert(walk_table(m, root, va, 1) == Some(t1));
        assert(walk_table(m, root, va, 2) == Some(t2));
        assert(walk_table(m, root, va, 3) == Some(t3));
    }
}

} // verus!
