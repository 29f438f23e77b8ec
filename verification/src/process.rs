//! Checking and laying out the loadable segments of a program image.

use vstd::prelude::*;
use crate::elf::{Elf64_Phdr, PT_LOAD};

verus! {

/// First address that belongs to the kernel half of the address space.
pub const USER_SPACE_END: u64 = 0x0000_8000_0000_0000;

/// Lowest address a segment may be loaded at.
pub const MIN_LOAD_ADDRESS: u64 = 0x1000;

/// Bottom of every process's user stack.
pub const USER_STACK_BOTTOM: u64 = 0x7000_0000_0000;

/// Size of the user stack (16 KiB).
pub const USER_STACK_SIZE: u64 = 16384;

/// Why a program image cannot be loaded.
#[derive(Debug, Clone, Copy, PartialEq, Eq)]
pub enum LoadError {
    /// A segment starts below `MIN_LOAD_ADDRESS`.
    InvalidAddress(u64),
    /// A segment's file offset lies past the end of the image.
    OffsetOutOfBounds,
    /// A segment's file bytes run past the end of the image.
    FileSizeExceedsData,
    /// A segment's address range wraps around the address space.
    AddressOverflow,
    /// A segment reaches into kernel space.
    KernelSpace,
}

/// Where a segment goes and what fills it.
#[derive(Debug, Clone, Copy, PartialEq, Eq)]
pub struct SegmentPlan {
    /// Address of the segment's first byte.
    pub vaddr: u64,
    /// First page to map.
    pub start_page: u64,
    /// End (exclusive) of the pages to map.
    pub end_page: u64,
    /// Where the segment's bytes start in the image.
    pub file_offset: u64,
    /// How many bytes are copied from the image.
    pub file_size: u64,
    /// How many bytes after the copied ones are zeroed.
    pub zero_len: u64,
}

/// `a + b` on `usize`, held at the top of the range.
pub open spec fn saturating_add_usize(a: usize, b: usize) -> usize {
    if a + b > usize::MAX { usize::MAX } else { (a + b) as usize }
}

/// How one loadable segment is checked and laid out against an image of `data_len` bytes.
pub open spec fn segment_spec(p: Elf64_Phdr, data_len: usize) -> Result<SegmentPlan, LoadError> {
    if p.p_vaddr < MIN_LOAD_ADDRESS {
        Err(LoadError::InvalidAddress(p.p_vaddr))
    } else if (p.p_offset as usize) > data_len {
        Err(LoadError::OffsetOutOfBounds)
    } else if saturating_add_usize(p.p_offset as usize, p.p_filesz as usize) > data_len {
        Err(LoadError::FileSizeExceedsData)
    } else if p.p_vaddr + p.p_memsz + 0xFFF > u64::MAX {
        Err(LoadError::AddressOverflow)
    } else {
        let end_page = ((p.p_vaddr + p.p_memsz + 0xFFF) as u64) & !0xFFFu64;
        if end_page >= USER_SPACE_END {
            Err(LoadError::KernelSpace)
        } else {
            Ok(SegmentPlan {
                vaddr: p.p_vaddr,
                start_page: p.p_vaddr & !0xFFFu64,
                end_page,
                file_offset: p.p_offset,
                file_size: p.p_filesz,
                zero_len: if p.p_memsz > p.p_filesz { (p.p_memsz - p.p_filesz) as u64 } else { 0 },
            })
        }
    }
}

/// The plans of the loadable segments among the first `n` program headers, in order, or
/// the error of the first loadable segment that fails.
pub open spec fn plan_spec(phdrs: Seq<Elf64_Phdr>, data_len: usize, n: nat) -> Result<Seq<SegmentPlan>, LoadError>
    decreases n,
{
    if n == 0 {
        Ok(Seq::empty())
    } else {
        match plan_spec(phdrs, data_len, (n - 1) as nat) {
            Err(e) => Err(e),
            Ok(plans) => {
                let p = phdrs[n - 1];
                if p.p_type != PT_LOAD {
                    Ok(plans)
                } else {
                    match segment_spec(p, data_len) {
                        Err(e) => Err(e),
                        Ok(plan) => Ok(plans.push(plan)),
                    }
                }
            },
        }
    }
}

/// Checks one loadable segment against an image of `data_len` bytes and lays it out.
pub fn plan_segment(phdr: &Elf64_Phdr, data_len: usize) -> (r: Result<SegmentPlan, LoadError>)
    ensures
        r == segment_spec(*phdr, data_len),
{
    let vaddr = phdr.p_vaddr;
    let memsz = phdr.p_memsz;
    let filesz = phdr.p_filesz;
    let offset = phdr.p_offset;
    if vaddr < MIN_LOAD_ADDRESS {
        return Err(LoadError::InvalidAddress(vaddr));
    }
    if offset as usize > data_len {
        return Err(LoadError::OffsetOutOfBounds);
    }
    if (offset as usize).saturating_add(filesz as usize) > data_len {
        return Err(LoadError::FileSizeExceedsData);
    }
    let end = match vaddr.checked_add(memsz) {
        Some(end) => end,
        None => return Err(LoadError::AddressOverflow),
    };
    if end > u64::MAX - 0xFFF {
        return Err(LoadError::AddressOverflow);
    }
    let end_page = (end + 0xFFF) & !0xFFFu64;
    if end_page >= USER_SPACE_END {
        return Err(LoadError::KernelSpace);
    }
    let zero_len = if memsz > filesz { memsz - filesz } else { 0 };
    Ok(SegmentPlan {
        vaddr,
        start_page: vaddr & !0xFFFu64,
        end_page,
        file_offset: offset,
        file_size: filesz,
        zero_len,
    })
}

/// Checks and lays out every loadable segment of an image of `data_len` bytes, in
/// program-header order; other segments are skipped. Stops at the first failing segment.
pub fn plan_load(phdrs: &Vec<Elf64_Phdr>, data_len: usize) -> (r: Result<Vec<SegmentPlan>, LoadError>)
    ensures
        match r {
            Ok(plans) => plan_spec(phdrs@, data_len, phdrs@.len()) == Ok::<Seq<SegmentPlan>, LoadError>(plans@),
            Err(e) => plan_spec(phdrs@, data_len, phdrs@.len()) == Err::<Seq<SegmentPlan>, LoadError>(e),
        },
{
    let mut plans: Vec<SegmentPlan> = Vec::new();
    let mut i: usize = 0;
    while i < phdrs.len()
        invariant
            i <= phdrs@.len(),
            plan_spec(phdrs@, data_len, i as nat) == Ok::<Seq<SegmentPlan>, LoadError>(plans@),
        decreases phdrs@.len() - i,
    {
        let phdr = &phdrs[i];
        if phdr.p_type == PT_LOAD {
            match plan_segment(phdr, data_len) {
                Ok(plan) => {
                    plans.push(plan);
                },
                Err(e) => {
                    proof {
                        lemma_plan_error_sticks(phdrs@, data_len, (i + 1) as nat, phdrs@.len());
                    }
                    return Err(e);
                },
            }
        }
        i = i + 1;
    }
    Ok(plans)
}

proof fn lemma_plan_error_sticks(phdrs: Seq<Elf64_Phdr>, data_len: usize, k: nat, n: nat)
    requires
        k <= n,
        plan_spec(phdrs, data_len, k) is Err,
    ensures
        plan_spec(phdrs, data_len, n) == plan_spec(phdrs, data_len, k),
    decreases n - k,
{
    if k < n {
        lemma_plan_error_sticks(phdrs, data_len, k, (n - 1) as nat);
    }
}

/// A planned segment's pages cover its bytes, start at or below its first byte, are
/// page-aligned, and stay below kernel space.
pub proof fn lemma_segment_plan_covers(p: Elf64_Phdr, data_len: usize)
    requires
        segment_spec(p, data_len) is Ok,
        data_len < usize::MAX,
    ensures
        ({
            let plan = segment_spec(p, data_len)->Ok_0;
            &&& plan.start_page <= plan.vaddr
            &&& plan.vaddr - plan.start_page < 0x1000
            &&& plan.vaddr + p.p_memsz <= plan.end_page
            &&& plan.end_page < USER_SPACE_END
            &&& plan.start_page & 0xFFFu64 == 0
            &&& plan.end_page & 0xFFFu64 == 0
            &&& (plan.file_offset as usize) + (plan.file_size as usize) <= data_len
            &&& plan.file_size + plan.zero_len >= p.p_memsz
        }),
{
    let v = p.p_vaddr;
    let e: u64 = (p.p_vaddr + p.p_memsz) as u64;
    assert((v & !0xFFFu64) <= v && v - (v & !0xFFFu64) < 0x1000 && (v & !0xFFFu64) & 0xFFFu64 == 0)
        by (bit_vector);
    assert(((e + 0xFFFu64) as u64 & !0xFFFu64) >= e && ((e + 0xFFFu64) as u64 & !0xFFFu64) & 0xFFFu64 == 0)
        by (bit_vector)
        requires
            e <= 0xFFFF_FFFF_FFFF_F000u64,
    ;
}

} // verus!
