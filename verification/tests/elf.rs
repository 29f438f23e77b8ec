use vain::elf::{ElfParser, PT_LOAD};
use vain::process::{plan_load, plan_segment, LoadError, SegmentPlan};

fn put_u16(v: &mut [u8], off: usize, x: u16) {
    v[off..off + 2].copy_from_slice(&x.to_le_bytes());
}
fn put_u32(v: &mut [u8], off: usize, x: u32) {
    v[off..off + 4].copy_from_slice(&x.to_le_bytes());
}
fn put_u64(v: &mut [u8], off: usize, x: u64) {
    v[off..off + 8].copy_from_slice(&x.to_le_bytes());
}

/// An image with two program headers: a loadable one and a note.
fn image() -> Vec<u8> {
    let mut v = vec![0u8; 64 + 2 * 56 + 32];
    v[0..4].copy_from_slice(&[0x7f, b'E', b'L', b'F']);
    v[4] = 2;
    put_u16(&mut v, 16, 2);
    put_u16(&mut v, 18, 0x3e);
    put_u32(&mut v, 20, 1);
    put_u64(&mut v, 24, 0x40_1000);
    put_u64(&mut v, 32, 64);
    put_u16(&mut v, 52, 64);
    put_u16(&mut v, 54, 56);
    put_u16(&mut v, 56, 2);
    // Loadable segment.
    put_u32(&mut v, 64, PT_LOAD);
    put_u32(&mut v, 68, 5);
    put_u64(&mut v, 72, 176);
    put_u64(&mut v, 80, 0x40_1000);
    put_u64(&mut v, 88, 0x40_1000);
    put_u64(&mut v, 96, 32);
    put_u64(&mut v, 104, 0x2010);
    put_u64(&mut v, 112, 0x1000);
    // Note segment.
    put_u32(&mut v, 120, 4);
    v
}

#[test]
fn parser_reads_header_and_program_headers() {
    let data = image();
    let parser = ElfParser::new(&data).unwrap();
    let h = parser.header();
    assert_eq!(h.e_entry, 0x40_1000);
    assert_eq!(h.e_machine, 0x3e);
    assert_eq!(h.e_phnum, 2);
    assert_eq!(h.e_ident[4], 2);
    assert!(parser.program_headers_fit());
    let phdrs = parser.program_headers();
    assert_eq!(phdrs.len(), 2);
    assert_eq!(phdrs[0].p_type, PT_LOAD);
    assert_eq!(phdrs[0].p_flags, 5);
    assert_eq!(phdrs[0].p_offset, 176);
    assert_eq!(phdrs[0].p_vaddr, 0x40_1000);
    assert_eq!(phdrs[0].p_filesz, 32);
    assert_eq!(phdrs[0].p_memsz, 0x2010);
    assert_eq!(phdrs[0].p_align, 0x1000);
    assert_eq!(phdrs[1].p_type, 4);
}

#[test]
fn parser_rejects_short_or_unmarked_data() {
    let data = image();
    assert!(ElfParser::new(&data[..63]).is_none());
    let mut bad = data.clone();
    bad[1] = b'X';
    assert!(ElfParser::new(&bad).is_none());
}

#[test]
fn program_headers_past_the_end_do_not_fit() {
    let mut data = image();
    put_u16(&mut data, 56, 5);
    let parser = ElfParser::new(&data).unwrap();
    assert!(!parser.program_headers_fit());
}

#[test]
fn plan_load_lays_out_loadable_segments() {
    let data = image();
    let parser = ElfParser::new(&data).unwrap();
    let plans = plan_load(&parser.program_headers(), data.len()).unwrap();
    assert_eq!(plans.len(), 1);
    assert_eq!(
        plans[0],
        SegmentPlan {
            vaddr: 0x40_1000,
            start_page: 0x40_1000,
            end_page: 0x40_4000,
            file_offset: 176,
            file_size: 32,
            zero_len: 0x2010 - 32,
        }
    );
}

#[test]
fn plan_segment_reports_each_error() {
    let data = image();
    let parser = ElfParser::new(&data).unwrap();
    let good = parser.program_headers()[0];
    let mut p = good;
    p.p_vaddr = 0x800;
    assert_eq!(plan_segment(&p, data.len()), Err(LoadError::InvalidAddress(0x800)));
    let mut p = good;
    p.p_offset = data.len() as u64 + 1;
    assert_eq!(plan_segment(&p, data.len()), Err(LoadError::OffsetOutOfBounds));
    let mut p = good;
    p.p_filesz = 33;
    assert_eq!(plan_segment(&p, data.len()), Err(LoadError::FileSizeExceedsData));
    let mut p = good;
    p.p_memsz = u64::MAX;
    assert_eq!(plan_segment(&p, data.len()), Err(LoadError::AddressOverflow));
    let mut p = good;
    p.p_vaddr = 0x0000_7FFF_FFFF_F000;
    p.p_memsz = 0x1001;
    assert_eq!(plan_segment(&p, data.len()), Err(LoadError::KernelSpace));
}

#[test]
fn plan_load_stops_at_first_bad_segment() {
    let data = image();
    let parser = ElfParser::new(&data).unwrap();
    let mut phdrs = parser.program_headers();
    let mut bad = phdrs[0];
    bad.p_vaddr = 0;
    phdrs.push(bad);
    phdrs[1].p_type = PT_LOAD;
    phdrs[1].p_vaddr = 0x10;
    assert_eq!(plan_load(&phdrs, data.len()), Err(LoadError::InvalidAddress(0x10)));
}
