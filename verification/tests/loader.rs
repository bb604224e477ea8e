use mikan_os::loader::{
    calc_load_address_range, copy_load_segment, load_segments, parse_kernel, plan_kernel_load, segment_fits,
    KernelImage, KernelLoadError, KernelLoadPlan, ProgramHeader, PT_LOAD,
};

fn header(p_type: u32, offset: u64, vaddr: u64, filesz: u64, memsz: u64) -> ProgramHeader {
    ProgramHeader {
        p_type,
        p_flags: 5,
        p_offset: offset,
        p_vaddr: vaddr,
        p_paddr: vaddr,
        p_filesz: filesz,
        p_memsz: memsz,
        p_align: 0x1000,
    }
}

fn push16(b: &mut Vec<u8>, v: u16) {
    b.extend_from_slice(&v.to_le_bytes());
}
fn push32(b: &mut Vec<u8>, v: u32) {
    b.extend_from_slice(&v.to_le_bytes());
}
fn push64(b: &mut Vec<u8>, v: u64) {
    b.extend_from_slice(&v.to_le_bytes());
}

/// A 64-bit little-endian executable with the given program headers and
/// `data` after them.
fn elf_file(entry: u64, headers: &[ProgramHeader], data: &[u8]) -> Vec<u8> {
    let mut b = vec![0x7f, b'E', b'L', b'F', 2, 1, 1, 0, 0, 0, 0, 0, 0, 0, 0, 0];
    push16(&mut b, 2);
    push16(&mut b, 0x3e);
    push32(&mut b, 1);
    push64(&mut b, entry);
    push64(&mut b, 64);
    push64(&mut b, 0);
    push32(&mut b, 0);
    push16(&mut b, 64);
    push16(&mut b, 56);
    push16(&mut b, headers.len() as u16);
    push16(&mut b, 64);
    push16(&mut b, 0);
    push16(&mut b, 0);
    for h in headers {
        push32(&mut b, h.p_type);
        push32(&mut b, h.p_flags);
        push64(&mut b, h.p_offset);
        push64(&mut b, h.p_vaddr);
        push64(&mut b, h.p_paddr);
        push64(&mut b, h.p_filesz);
        push64(&mut b, h.p_memsz);
        push64(&mut b, h.p_align);
    }
    b.extend_from_slice(data);
    b
}

#[test]
fn parse_keeps_entry_and_program_headers() {
    let headers = [header(PT_LOAD, 176, 0x100000, 4, 8), header(4, 0, 0, 0, 0)];
    let file = elf_file(0x101000, &headers, &[1, 2, 3, 4]);
    let image = parse_kernel(&file).unwrap();
    assert_eq!(image.entry, 0x101000);
    assert_eq!(image.program_headers, headers.to_vec());
}

#[test]
fn parse_rejects_what_is_not_elf() {
    assert!(matches!(parse_kernel(&[0u8; 80]), Err(KernelLoadError::Parse)));
    assert!(matches!(parse_kernel(&[]), Err(KernelLoadError::Parse)));
}

#[test]
fn range_covers_the_loadable_segments() {
    let image = KernelImage {
        entry: 0,
        program_headers: vec![
            header(PT_LOAD, 0, 0x102000, 0, 0x3000),
            header(6, 0, 0x1000, 0, 0x100000),
            header(PT_LOAD, 0, 0x100000, 0, 0x800),
        ],
    };
    assert_eq!(calc_load_address_range(&image, 7, 9), (0x100000, 0x105000));
    assert_eq!(
        plan_kernel_load(&image),
        Ok(KernelLoadPlan { first_address: 0x100000, last_address: 0x105000, num_pages: 5 })
    );
}

#[test]
fn page_count_rounds_down() {
    let image = KernelImage { entry: 0, program_headers: vec![header(PT_LOAD, 0, 0x100000, 0, 0x1fff)] };
    assert_eq!(plan_kernel_load(&image).unwrap().num_pages, 1);
}

#[test]
fn no_loadable_segment_is_an_empty_range() {
    let image = KernelImage { entry: 0, program_headers: vec![header(2, 0, 0x100000, 0, 0x10)] };
    assert_eq!(calc_load_address_range(&image, 0, 0), (usize::MAX, 0));
    assert_eq!(plan_kernel_load(&image), Err(KernelLoadError::EmptyLoadRange));
    let empty = KernelImage { entry: 0, program_headers: vec![] };
    assert_eq!(plan_kernel_load(&empty), Err(KernelLoadError::EmptyLoadRange));
}

#[test]
fn overflowing_segment_end_is_refused() {
    let image = KernelImage {
        entry: 0,
        program_headers: vec![header(PT_LOAD, 0, u64::MAX - 4, 0, 8)],
    };
    assert_eq!(plan_kernel_load(&image), Err(KernelLoadError::AddressOverflow));
    // a segment that is not loaded is not looked at
    let image = KernelImage {
        entry: 0,
        program_headers: vec![header(3, 0, u64::MAX - 4, 0, 8), header(PT_LOAD, 0, 0x2000, 0, 0x1000)],
    };
    assert!(plan_kernel_load(&image).is_ok());
}

#[test]
fn segment_is_copied_then_zero_filled() {
    let file = [9u8, 9, 1, 2, 3, 9];
    let ph = header(PT_LOAD, 2, 0x1000, 3, 6);
    assert!(segment_fits(&file, &ph));
    let mut dest = [7u8; 6];
    copy_load_segment(&mut dest, &file, &ph);
    assert_eq!(dest, [1, 2, 3, 0, 0, 0]);
}

#[test]
fn segments_that_do_not_fit() {
    let file = [1u8, 2, 3, 4];
    assert!(!segment_fits(&file, &header(PT_LOAD, 0, 0, 3, 2)));
    assert!(!segment_fits(&file, &header(PT_LOAD, 3, 0, 2, 2)));
    assert!(!segment_fits(&file, &header(PT_LOAD, u64::MAX, 0, 2, 2)));
    assert!(segment_fits(&file, &header(PT_LOAD, 2, 0, 2, 2)));
    assert!(segment_fits(&file, &header(PT_LOAD, 4, 0, 0, 9)));
}

#[test]
fn only_loadable_segments_are_listed() {
    let image = KernelImage {
        entry: 0,
        program_headers: vec![header(6, 0, 1, 0, 0), header(PT_LOAD, 0, 2, 0, 0), header(PT_LOAD, 0, 3, 0, 0)],
    };
    let segments = load_segments(&image);
    assert_eq!(segments, vec![header(PT_LOAD, 0, 2, 0, 0), header(PT_LOAD, 0, 3, 0, 0)]);
}
