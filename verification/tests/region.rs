use macho_disasm::error::InspectError;
use macho_disasm::names::{CODE_SECTION_NAME, CODE_SEGMENT_NAME};
use macho_disasm::region::{extract, find_code_section, find_name, locate_in_sections, Section};

fn padded(text: &[u8]) -> [u8; 16] {
    let mut name = [0u8; 16];
    name[..text.len()].copy_from_slice(text);
    name
}

#[test]
fn find_name_gives_the_first_position() {
    let names = vec![padded(b"__PAGEZERO"), padded(b"__TEXT"), padded(b"__DATA"), padded(b"__TEXT")];
    assert_eq!(find_name(&names, &CODE_SEGMENT_NAME), Some(1));
    assert_eq!(find_name(&names, &padded(b"__DATA")), Some(2));
    assert_eq!(find_name(&names, &padded(b"__PAGEZERO")), Some(0));
}

#[test]
fn find_name_without_a_match() {
    let names = vec![padded(b"__PAGEZERO"), padded(b"__text"), padded(b"__DATA")];
    assert_eq!(find_name(&names, &CODE_SEGMENT_NAME), None);
    let none: Vec<[u8; 16]> = Vec::new();
    assert_eq!(find_name(&none, &CODE_SEGMENT_NAME), None);
}

#[test]
fn find_code_section_gives_the_first_position() {
    let a = [1u8, 2];
    let b = [3u8];
    let sections = vec![
        Section { name: padded(b"__stubs"), address: 0x10, data: &a },
        Section { name: padded(b"__text"), address: 0x20, data: &b },
        Section { name: padded(b"__text"), address: 0x30, data: &a },
    ];
    assert_eq!(find_code_section(&sections), Some(1));
    assert_eq!(find_code_section(&sections[..1]), None);
    assert_eq!(find_code_section(&sections[2..]), Some(0));
    assert_eq!(find_code_section(&[]), None);
}

#[test]
fn extract_copies_bytes_and_address() {
    let data = [0x1fu8, 0x20, 0x03, 0xd5];
    let section = Section { name: padded(b"__text"), address: 0x1_0000_4000, data: &data };
    let region = extract(&section);
    assert_eq!(region.bytes, vec![0x1f, 0x20, 0x03, 0xd5]);
    assert_eq!(region.address, 0x1_0000_4000);
    let empty = Section { name: padded(b"__text"), address: u64::MAX, data: &[] };
    let region = extract(&empty);
    assert!(region.bytes.is_empty());
    assert_eq!(region.address, u64::MAX);
}

#[test]
fn the_only_code_section_is_the_region() {
    let stubs = [9u8; 3];
    let code = [1u8, 2, 3, 4, 5, 6, 7, 8];
    let sections = vec![
        Section { name: padded(b"__stubs"), address: 0x100, data: &stubs },
        Section { name: padded(b"__text"), address: 0x2000, data: &code },
        Section { name: padded(b"__const"), address: 0x3000, data: &stubs },
    ];
    let region = locate_in_sections(&sections).unwrap();
    assert_eq!(region.bytes, code.to_vec());
    assert_eq!(region.address, 0x2000);
}

#[test]
fn of_two_code_sections_the_first_is_the_region() {
    let first = [1u8, 1];
    let second = [2u8, 2, 2];
    let sections = vec![
        Section { name: padded(b"__text"), address: 0x10, data: &first },
        Section { name: padded(b"__text"), address: 0x20, data: &second },
    ];
    let region = locate_in_sections(&sections).unwrap();
    assert_eq!(region.bytes, vec![1, 1]);
    assert_eq!(region.address, 0x10);
}

#[test]
fn no_code_section_is_section_not_found() {
    let data = [1u8];
    let sections = vec![
        Section { name: padded(b"__TEXT"), address: 0x10, data: &data },
        Section { name: padded(b"__text_"), address: 0x20, data: &data },
    ];
    assert_eq!(locate_in_sections(&sections).unwrap_err(), InspectError::SectionNotFound);
    assert_eq!(locate_in_sections(&[]).unwrap_err(), InspectError::SectionNotFound);
}

#[test]
fn section_name_with_bytes_in_the_padding_is_not_the_code_section() {
    let data = [1u8];
    let mut name = CODE_SECTION_NAME;
    name[15] = b'x';
    let sections = vec![Section { name, address: 0x10, data: &data }];
    assert_eq!(find_code_section(&sections), None);
    assert_eq!(locate_in_sections(&sections).unwrap_err(), InspectError::SectionNotFound);
    let mut name = CODE_SECTION_NAME;
    name[6] = 1;
    let sections = vec![Section { name, address: 0x10, data: &data }];
    assert_eq!(locate_in_sections(&sections).unwrap_err(), InspectError::SectionNotFound);
}

#[test]
fn an_empty_code_section_is_found() {
    let sections = vec![Section { name: padded(b"__text"), address: 0x4000, data: &[] }];
    let region = locate_in_sections(&sections).unwrap();
    assert!(region.bytes.is_empty());
    assert_eq!(region.address, 0x4000);
}
