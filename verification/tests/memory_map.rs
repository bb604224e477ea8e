use mikan_os::memory_map::{memory_map_contents, memory_map_line, MemoryMapEntry};

fn entry(code: u32, name: &str, start: u64, pages: u64, attribute: u64) -> MemoryMapEntry {
    MemoryMapEntry {
        type_code: code,
        memory_type_name: name.as_bytes().to_vec(),
        phys_start: start,
        page_count: pages,
        attribute,
    }
}

#[test]
fn line_matches_the_saved_format() {
    let e = entry(7, "CONVENTIONAL", 0x1000, 0x9f, 0x8000_0000_0000_000f);
    let line = memory_map_line(3, &e);
    let expected = format!(
        "{}, {:x}, {}, {:08x}, {:x}, {:x}",
        3, 7u32, "CONVENTIONAL", 0x1000u64, 0x9fu64, 0x8000_0000_0000_000fu64 & 0xfffff
    );
    assert_eq!(String::from_utf8(line).unwrap(), expected);
    assert_eq!(expected, "3, 7, CONVENTIONAL, 00001000, 9f, f");
}

#[test]
fn wide_values_are_not_cut() {
    let e = entry(0xdeadbeef, "X", 0x1234_5678_9abc, 0, 0xabcdef);
    let line = String::from_utf8(memory_map_line(1234567, &e)).unwrap();
    assert_eq!(line, "1234567, deadbeef, X, 123456789abc, 0, bcdef");
}

#[test]
fn contents_have_a_title_and_one_line_per_entry() {
    let entries = [entry(3, "BOOT_SERVICES_CODE", 0, 1, 0xf), entry(7, "CONVENTIONAL", 0x100000, 0x10, 0)];
    let text = String::from_utf8(memory_map_contents(&entries)).unwrap();
    assert_eq!(
        text,
        "MemoryMap \n0, 3, BOOT_SERVICES_CODE, 00000000, 1, f\n1, 7, CONVENTIONAL, 00100000, 10, 0\n"
    );
    assert_eq!(String::from_utf8(memory_map_contents(&[])).unwrap(), "MemoryMap \n");
}
