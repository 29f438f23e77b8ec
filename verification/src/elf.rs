//! Reading ELF-64 images: the file header and the program headers.

use vstd::prelude::*;
use crate::bytes::{le, read_u16, read_u32, read_u64};

verus! {

/// Size of the ELF-64 file header.
pub const EHDR_SIZE: usize = 64;

/// Size of one ELF-64 program header.
pub const PHDR_SIZE: usize = 56;

/// Program header type of a loadable segment.
pub const PT_LOAD: u32 = 1;

/// The ELF-64 file header.
#[allow(non_camel_case_types)]
#[derive(Debug, Clone, Copy)]
pub struct Elf64_Ehdr {
    pub e_ident: [u8; 16],
    pub e_type: u16,
    pub e_machine: u16,
    pub e_version: u32,
    pub e_entry: u64,
    pub e_phoff: u64,
    pub e_shoff: u64,
    pub e_flags: u32,
    pub e_ehsize: u16,
    pub e_phentsize: u16,
    pub e_phnum: u16,
    pub e_shentsize: u16,
    pub e_shnum: u16,
    pub e_shstrndx: u16,
}

/// One ELF-64 program header.
#[allow(non_camel_case_types)]
#[derive(Debug, Clone, Copy)]
pub struct Elf64_Phdr {
    pub p_type: u32,
    pub p_flags: u32,
    pub p_offset: u64,
    pub p_vaddr: u64,
    pub p_paddr: u64,
    pub p_filesz: u64,
    pub p_memsz: u64,
    pub p_align: u64,
}

/// `h` is the file header stored (little-endian) at the start of `s`.
pub open spec fn ehdr_at(s: Seq<u8>, h: Elf64_Ehdr) -> bool {
    &&& h.e_ident@ == s.subrange(0, 16)
    &&& h.e_type == le(s, 16, 2)
    &&& h.e_machine == le(s, 18, 2)
    &&& h.e_version == le(s, 20, 4)
    &&& h.e_entry == le(s, 24, 8)
    &&& h.e_phoff == le(s, 32, 8)
    &&& h.e_shoff == le(s, 40, 8)
    &&& h.e_flags == le(s, 48, 4)
    &&& h.e_ehsize == le(s, 52, 2)
    &&& h.e_phentsize == le(s, 54, 2)
    &&& h.e_phnum == le(s, 56, 2)
    &&& h.e_shentsize == le(s, 58, 2)
    &&& h.e_shnum == le(s, 60, 2)
    &&& h.e_shstrndx == le(s, 62, 2)
}

/// `p` is the program header stored (little-endian) at offset `off` of `s`.
pub open spec fn phdr_at(s: Seq<u8>, off: int, p: Elf64_Phdr) -> bool {
    &&& p.p_type == le(s, off, 4)
    &&& p.p_flags == le(s, off + 4, 4)
    &&& p.p_offset == le(s, off + 8, 8)
    &&& p.p_vaddr == le(s, off + 16, 8)
    &&& p.p_paddr == le(s, off + 24, 8)
    &&& p.p_filesz == le(s, off + 32, 8)
    &&& p.p_memsz == le(s, off + 40, 8)
    &&& p.p_align == le(s, off + 48, 8)
}

/// `s` is long enough for a file header and starts with the ELF magic bytes.
pub open spec fn is_elf(s: Seq<u8>) -> bool {
    &&& s.len() >= EHDR_SIZE
    &&& s[0] == 0x7fu8
    &&& s[1] == 0x45u8
    &&& s[2] == 0x4cu8
    &&& s[3] == 0x46u8
}

/// Every program header that the file header announces lies inside `s`.
pub open spec fn phdrs_fit(s: Seq<u8>) -> bool {
    let phoff = le(s, 32, 8);
    let phentsize = le(s, 54, 2);
    let phnum = le(s, 56, 2);
    phnum == 0 || phoff + (phnum - 1) * phentsize + PHDR_SIZE <= s.len()
}

/// Reads the file header at the start of `data`.
fn parse_ehdr(data: &[u8]) -> (h: Elf64_Ehdr)
    requires
        data@.len() >= EHDR_SIZE,
    ensures
        ehdr_at(data@, h),
{
    let e_ident: [u8; 16] = [
        data[0], data[1], data[2], data[3], data[4], data[5], data[6], data[7],
        data[8], data[9], data[10], data[11], data[12], data[13], data[14], data[15],
    ];
    assert(e_ident@ =~= data@.subrange(0, 16));
    Elf64_Ehdr {
        e_ident,
        e_type: read_u16(data, 16),
        e_machine: read_u16(data, 18),
        e_version: read_u32(data, 20),
        e_entry: read_u64(data, 24),
        e_phoff: read_u64(data, 32),
        e_shoff: read_u64(data, 40),
        e_flags: read_u32(data, 48),
        e_ehsize: read_u16(data, 52),
        e_phentsize: read_u16(data, 54),
        e_phnum: read_u16(data, 56),
        e_shentsize: read_u16(data, 58),
        e_shnum: read_u16(data, 60),
        e_shstrndx: read_u16(data, 62),
    }
}

/// Reads the program header at offset `off` of `data`.
fn parse_phdr(data: &[u8], off: usize) -> (p: Elf64_Phdr)
    requires
        off + PHDR_SIZE <= data@.len(),
    ensures
        phdr_at(data@, off as int, p),
{
    let len = data.len();
    assert(off + PHDR_SIZE <= len);
    Elf64_Phdr {
        p_type: read_u32(data, off),
        p_flags: read_u32(data, off + 4),
        p_offset: read_u64(data, off + 8),
        p_vaddr: read_u64(data, off + 16),
        p_paddr: read_u64(data, off + 24),
        p_filesz: read_u64(data, off + 32),
        p_memsz: read_u64(data, off + 40),
        p_align: read_u64(data, off + 48),
    }
}

/// A view of an ELF-64 image.
pub struct ElfParser<'a> {
    data: &'a [u8],
}

impl<'a> ElfParser<'a> {
    /// The image's bytes.
    pub closed spec fn bytes(&self) -> Seq<u8> {
        self.data@
    }

    #[verifier::type_invariant]
    closed spec fn inv(&self) -> bool {
        is_elf(self.data@)
    }

    /// Accepts `data` when it holds a file header that starts with the ELF magic bytes.
    pub fn new(data: &'a [u8]) -> (r: Option<Self>)
        ensures
            r is Some <==> is_elf(data@),
            r matches Some(p) ==> p.bytes() == data@,
    {
        if data.len() < EHDR_SIZE {
            return None;
        }
        if data[0] != 0x7f || data[1] != 0x45 || data[2] != 0x4c || data[3] != 0x46 {
            return None;
        }
        Some(ElfParser { data })
    }

    /// The image's file header.
    pub fn header(&self) -> (h: Elf64_Ehdr)
        ensures
            ehdr_at(self.bytes(), h),
    {
        proof {
            use_type_invariant(self);
        }
        parse_ehdr(self.data)
    }

    /// Whether every announced program header lies inside the image.
    pub fn program_headers_fit(&self) -> (r: bool)
        ensures
            r == phdrs_fit(self.bytes()),
    {
        proof {
            use_type_invariant(self);
        }
        let h = parse_ehdr(self.data);
        if h.e_phnum == 0 {
            return true;
        }
        let phoff = h.e_phoff as u128;
        let count = h.e_phnum as u128 - 1;
        let size = h.e_phentsize as u128;
        assert(count * size <= 0xFFFF_FFFF) by (nonlinear_arith)
            requires count <= 0xFFFF, size <= 0xFFFF;
        let span = count * size;
        let last = phoff + span + PHDR_SIZE as u128;
        last <= self.data.len() as u128
    }

    /// The program headers, in file order: header `i` is read at `e_phoff + i * e_phentsize`.
    pub fn program_headers(&self) -> (r: Vec<Elf64_Phdr>)
        requires
            phdrs_fit(self.bytes()),
        ensures
            r@.len() == le(self.bytes(), 56, 2),
            forall|i: int| 0 <= i < r@.len() ==> phdr_at(
                self.bytes(),
                le(self.bytes(), 32, 8) + i * le(self.bytes(), 54, 2),
                #[trigger] r@[i],
            ),
    {
        proof {
            use_type_invariant(self);
        }
        let h = parse_ehdr(self.data);
        let phnum = h.e_phnum as usize;
        let phentsize = h.e_phentsize as usize;
        let len = self.data.len();
        let mut out: Vec<Elf64_Phdr> = Vec::new();
        if phnum == 0 {
            return out;
        }
        let ghost phoff_int = h.e_phoff as int;
        proof {
            assert(phoff_int + (phnum - 1) * phentsize + PHDR_SIZE <= len);
            assert(0 <= (phnum - 1) * phentsize) by (nonlinear_arith)
                requires phnum >= 1, phentsize >= 0;
        }
        let mut offset: usize = h.e_phoff as usize;
        let mut i: usize = 0;
        while i < phnum
            invariant
                phnum == le(self.data@, 56, 2),
                phentsize == le(self.data@, 54, 2),
                phoff_int == le(self.data@, 32, 8),
                phnum >= 1,
                len == self.data@.len(),
                phoff_int + (phnum - 1) * phentsize + PHDR_SIZE <= len,
                i <= phnum,
                i < phnum ==> offset == phoff_int + i * phentsize,
                out@.len() == i,
                forall|j: int| 0 <= j < i ==> phdr_at(self.data@, phoff_int + j * phentsize, #[trigger] out@[j]),
            decreases phnum - i,
        {
            proof {
                assert(i * phentsize <= (phnum - 1) * phentsize) by (nonlinear_arith)
                    requires i <= phnum - 1, phentsize >= 0;
            }
            out.push(parse_phdr(self.data, offset));
            i = i + 1;
            if i < phnum {
                proof {
                    assert(i * phentsize <= (phnum - 1) * phentsize) by (nonlinear_arith)
                        requires i <= phnum - 1, phentsize >= 0;
                    assert((i - 1) * phentsize + phentsize == i * phentsize) by (nonlinear_arith);
                }
                offset = offset + phentsize;
            }
        }
        out
    }
}

} // verus!
