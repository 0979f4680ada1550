use macho_disasm::container::{classify, fetch_instructions, Kind, Layout};
use macho_disasm::error::{ContainerKind, InspectError};

fn padded(text: &[u8]) -> [u8; 16] {
    let mut name = [0u8; 16];
    name[..text.len()].copy_from_slice(text);
    name
}

fn word(out: &mut Vec<u8>, value: u32) {
    out.extend_from_slice(&value.to_le_bytes());
}

fn long(out: &mut Vec<u8>, value: u64) {
    out.extend_from_slice(&value.to_le_bytes());
}

/// A little-endian 64-bit Mach-O image with the given segments; each segment
/// is a name and its sections, each section a name, an address and its bytes.
fn image(segments: &[([u8; 16], Vec<([u8; 16], u64, Vec<u8>)>)]) -> Vec<u8> {
    image_with(segments, &[], 0)
}

/// The same, with `extra` further load commands, given as bytes, behind the
/// segment commands.
fn image_with(
    segments: &[([u8; 16], Vec<([u8; 16], u64, Vec<u8>)>)],
    tail: &[u8],
    extra: u32,
) -> Vec<u8> {
    let commands: usize =
        segments.iter().map(|(_, sections)| 72 + 80 * sections.len()).sum::<usize>() + tail.len();
    let mut out = Vec::new();
    word(&mut out, 0xfeed_facf);
    word(&mut out, 0x0100_000c);
    word(&mut out, 0);
    word(&mut out, 2);
    word(&mut out, segments.len() as u32 + extra);
    word(&mut out, commands as u32);
    word(&mut out, 0);
    word(&mut out, 0);
    let mut content: Vec<u8> = Vec::new();
    let start = 32 + commands;
    for (name, sections) in segments {
        word(&mut out, 0x19);
        word(&mut out, (72 + 80 * sections.len()) as u32);
        out.extend_from_slice(name);
        long(&mut out, 0);
        long(&mut out, 0);
        long(&mut out, 0);
        long(&mut out, 0);
        word(&mut out, 7);
        word(&mut out, 5);
        word(&mut out, sections.len() as u32);
        word(&mut out, 0);
        for (section, address, bytes) in sections {
            out.extend_from_slice(section);
            out.extend_from_slice(name);
            long(&mut out, *address);
            long(&mut out, bytes.len() as u64);
            word(&mut out, (start + content.len()) as u32);
            word(&mut out, 0);
            word(&mut out, 0);
            word(&mut out, 0);
            word(&mut out, 0);
            word(&mut out, 0);
            word(&mut out, 0);
            word(&mut out, 0);
            content.extend_from_slice(bytes);
        }
    }
    out.extend_from_slice(tail);
    out.extend_from_slice(&content);
    out
}

fn be(out: &mut Vec<u8>, value: u32) {
    out.extend_from_slice(&value.to_be_bytes());
}

/// A big-endian 32-bit Mach-O image with one segment that has one section.
fn narrow_image(segment: &[u8], section: &[u8], address: u32, code: &[u8]) -> Vec<u8> {
    let mut out = Vec::new();
    be(&mut out, 0xfeed_face);
    be(&mut out, 18);
    be(&mut out, 0);
    be(&mut out, 2);
    be(&mut out, 1);
    be(&mut out, 124);
    be(&mut out, 0);
    be(&mut out, 1);
    be(&mut out, 124);
    out.extend_from_slice(&padded(segment));
    be(&mut out, 0);
    be(&mut out, 0);
    be(&mut out, 0);
    be(&mut out, 0);
    be(&mut out, 7);
    be(&mut out, 5);
    be(&mut out, 1);
    be(&mut out, 0);
    out.extend_from_slice(&padded(section));
    out.extend_from_slice(&padded(segment));
    be(&mut out, address);
    be(&mut out, code.len() as u32);
    be(&mut out, 152);
    for _ in 0..6 {
        be(&mut out, 0);
    }
    out.extend_from_slice(code);
    out
}

fn starting_with(magic: [u8; 4]) -> Vec<u8> {
    let mut buffer = magic.to_vec();
    buffer.extend_from_slice(&[0u8; 28]);
    buffer
}

#[test]
fn kind_is_told_from_the_magic_number() {
    assert_eq!(classify(&starting_with([0xca, 0xfe, 0xba, 0xbe])), Some(Kind::MultiArch));
    assert_eq!(
        classify(&starting_with([0xfe, 0xed, 0xfa, 0xce])),
        Some(Kind::Mach(Layout { little_endian: false, wide: false }))
    );
    assert_eq!(
        classify(&starting_with([0xce, 0xfa, 0xed, 0xfe])),
        Some(Kind::Mach(Layout { little_endian: true, wide: false }))
    );
    assert_eq!(
        classify(&starting_with([0xfe, 0xed, 0xfa, 0xcf])),
        Some(Kind::Mach(Layout { little_endian: false, wide: true }))
    );
    assert_eq!(
        classify(&starting_with([0xcf, 0xfa, 0xed, 0xfe])),
        Some(Kind::Mach(Layout { little_endian: true, wide: true }))
    );
    assert_eq!(classify(&starting_with([0x7f, b'E', b'L', b'F'])), Some(Kind::Foreign));
    assert_eq!(classify(&starting_with([b'M', b'Z', 0x90, 0])), Some(Kind::Foreign));
    assert_eq!(classify(&starting_with([0xbe, 0xba, 0xfe, 0xca])), Some(Kind::Foreign));
    assert_eq!(classify(&[0u8; 16]), Some(Kind::Foreign));
}

#[test]
fn buffer_under_sixteen_bytes_has_no_kind() {
    assert_eq!(classify(&[]), None);
    assert_eq!(classify(&[0xca, 0xfe, 0xba, 0xbe]), None);
    assert_eq!(classify(&[0xcf, 0xfa, 0xed, 0xfe, 0, 0, 0, 0, 0, 0, 0, 0, 0, 0, 0]), None);
    assert!(classify(&[0xcf, 0xfa, 0xed, 0xfe, 0, 0, 0, 0, 0, 0, 0, 0, 0, 0, 0, 0]).is_some());
}

#[test]
fn classification_agrees_with_the_parser() {
    let mut buffers = vec![
        starting_with([0xca, 0xfe, 0xba, 0xbe]),
        starting_with([0x7f, b'E', b'L', b'F']),
        starting_with([b'M', b'Z', 0, 0]),
        starting_with([0x11, 0x22, 0x33, 0x44]),
        image(&[(padded(b"__TEXT"), vec![])]),
        narrow_image(b"__TEXT", b"__text", 0, &[]),
    ];
    buffers.push(b"!<arch>\n        ".to_vec());
    for buffer in &buffers {
        let mut first = [0u8; 16];
        first.copy_from_slice(&buffer[..16]);
        let expected = match goblin::peek_bytes(&first).unwrap() {
            goblin::Hint::Mach(data) => Kind::Mach(Layout {
                little_endian: data.is_lsb,
                wide: data.is_64 == Some(true),
            }),
            goblin::Hint::MachFat(_) => Kind::MultiArch,
            _ => Kind::Foreign,
        };
        assert_eq!(classify(buffer), Some(expected));
    }
}

#[test]
fn big_endian_narrow_image_is_read() {
    let code = vec![0x60, 0x00, 0x00, 0x00, 0x4e, 0x80, 0x00, 0x20];
    let buffer = narrow_image(b"__TEXT", b"__text", 0x1f00, &code);
    let region = fetch_instructions(&buffer).unwrap();
    assert_eq!(region.bytes, code);
    assert_eq!(region.address, 0x1f00);
    let buffer = narrow_image(b"__TEXT", b"__data", 0x1f00, &code);
    assert_eq!(fetch_instructions(&buffer).unwrap_err(), InspectError::SectionNotFound);
}

#[test]
fn region_agrees_with_the_whole_parser() {
    let code = vec![0x1f, 0x20, 0x03, 0xd5, 0xc0, 0x03, 0x5f, 0xd6];
    let buffer = image(&[
        (padded(b"__PAGEZERO"), vec![]),
        (padded(b"__TEXT"), vec![(padded(b"__text"), 0x1_0000_1000, code.clone())]),
    ]);
    let region = fetch_instructions(&buffer).unwrap();
    let parsed = match goblin::Object::parse(&buffer).unwrap() {
        goblin::Object::Mach(goblin::mach::Mach::Binary(parsed)) => parsed,
        _ => panic!("not a single-architecture image"),
    };
    let segment = parsed.segments.iter().find(|s| s.segname == padded(b"__TEXT")).unwrap();
    let sections = segment.sections().unwrap();
    let (section, data) = sections.iter().find(|(s, _)| s.sectname == padded(b"__text")).unwrap();
    assert_eq!(region.bytes, data.to_vec());
    assert_eq!(region.address, section.addr);
}

#[test]
fn entry_point_is_not_worked_out() {
    let mut entry = Vec::new();
    word(&mut entry, 0x8000_0028);
    word(&mut entry, 24);
    long(&mut entry, u64::MAX);
    long(&mut entry, 0);
    let mut buffer = image_with(
        &[(padded(b"__TEXT"), vec![(padded(b"__text"), 0x1000, vec![1, 2, 3, 4])])],
        &entry,
        1,
    );
    buffer[72] = 1;
    let region = fetch_instructions(&buffer).unwrap();
    assert_eq!(region.bytes, vec![1, 2, 3, 4]);
    assert_eq!(region.address, 0x1000);
}

#[test]
fn entry_point_without_code_segment_is_segment_not_found() {
    let mut entry = Vec::new();
    word(&mut entry, 0x8000_0028);
    word(&mut entry, 24);
    long(&mut entry, 0);
    long(&mut entry, 0);
    let buffer = image_with(&[(padded(b"__DATA"), vec![])], &entry, 1);
    assert_eq!(fetch_instructions(&buffer).unwrap_err(), InspectError::SegmentNotFound);
}

#[test]
fn unreadable_load_command_behind_the_code_segment_is_malformed() {
    let mut broken = Vec::new();
    word(&mut broken, 0x8000_0028);
    word(&mut broken, 4000);
    long(&mut broken, 0);
    long(&mut broken, 0);
    let buffer = image_with(
        &[(padded(b"__TEXT"), vec![(padded(b"__text"), 0x1000, vec![1, 2, 3, 4])])],
        &broken,
        1,
    );
    assert_eq!(fetch_instructions(&buffer).unwrap_err(), InspectError::Malformed);
}

#[test]
fn header_that_overstates_its_commands_is_malformed() {
    let mut buffer = image(&[(padded(b"__TEXT"), vec![(padded(b"__text"), 0x1000, vec![1, 2, 3, 4])])]);
    buffer[16] = 200;
    assert_eq!(fetch_instructions(&buffer).unwrap_err(), InspectError::Malformed);
}

#[test]
fn foreign_formats_are_not_read() {
    let mut elf = starting_with([0x7f, b'E', b'L', b'F']);
    elf.extend_from_slice(&[0xff; 64]);
    assert_eq!(
        fetch_instructions(&elf).unwrap_err(),
        InspectError::UnsupportedContainer(ContainerKind::Foreign)
    );
    let pe = starting_with([b'M', b'Z', 0xff, 0xff]);
    assert_eq!(
        fetch_instructions(&pe).unwrap_err(),
        InspectError::UnsupportedContainer(ContainerKind::Foreign)
    );
}

#[test]
fn unique_code_section_is_returned_with_its_address() {
    let code = vec![0x1f, 0x20, 0x03, 0xd5, 0xc0, 0x03, 0x5f, 0xd6];
    let buffer = image(&[
        (padded(b"__PAGEZERO"), vec![]),
        (
            padded(b"__TEXT"),
            vec![
                (padded(b"__stubs"), 0x1_0000_0f00, vec![1, 2, 3]),
                (padded(b"__text"), 0x1_0000_1000, code.clone()),
                (padded(b"__cstring"), 0x1_0000_2000, vec![b'h', b'i', 0]),
            ],
        ),
        (padded(b"__DATA"), vec![(padded(b"__data"), 0x1_0000_8000, vec![7; 16])]),
    ]);
    let region = fetch_instructions(&buffer).unwrap();
    assert_eq!(region.bytes, code);
    assert_eq!(region.address, 0x1_0000_1000);
    assert!(buffer.windows(code.len()).any(|part| part == region.bytes.as_slice()));
}

#[test]
fn section_that_reaches_past_the_end_is_empty() {
    let mut buffer = image(&[(padded(b"__TEXT"), vec![(padded(b"__text"), 0x1000, vec![1, 2, 3, 4])])]);
    buffer.truncate(buffer.len() - 1);
    let region = fetch_instructions(&buffer).unwrap();
    assert!(region.bytes.is_empty());
    assert_eq!(region.address, 0x1000);
}

#[test]
fn region_is_a_copy_of_the_section() {
    let code = vec![0xaa, 0xbb, 0xcc, 0xdd];
    let mut buffer = image(&[(padded(b"__TEXT"), vec![(padded(b"__text"), 0x40, code.clone())])]);
    let region = fetch_instructions(&buffer).unwrap();
    for byte in buffer.iter_mut() {
        *byte = 0;
    }
    drop(buffer);
    assert_eq!(region.bytes, code);
    assert_eq!(region.address, 0x40);
}

#[test]
fn missing_code_segment_is_segment_not_found() {
    let buffer = image(&[
        (padded(b"__PAGEZERO"), vec![]),
        (padded(b"__DATA"), vec![(padded(b"__text"), 0x1000, vec![1, 2, 3, 4])]),
    ]);
    assert_eq!(fetch_instructions(&buffer).unwrap_err(), InspectError::SegmentNotFound);
    let buffer = image(&[]);
    assert_eq!(fetch_instructions(&buffer).unwrap_err(), InspectError::SegmentNotFound);
}

#[test]
fn missing_code_section_is_section_not_found() {
    let buffer = image(&[
        (padded(b"__TEXT"), vec![(padded(b"__stubs"), 0x1000, vec![1, 2, 3, 4])]),
        (padded(b"__DATA"), vec![(padded(b"__text"), 0x2000, vec![5, 6, 7, 8])]),
    ]);
    assert_eq!(fetch_instructions(&buffer).unwrap_err(), InspectError::SectionNotFound);
    let buffer = image(&[(padded(b"__TEXT"), vec![])]);
    assert_eq!(fetch_instructions(&buffer).unwrap_err(), InspectError::SectionNotFound);
}

#[test]
fn only_the_first_code_segment_is_searched() {
    let buffer = image(&[
        (padded(b"__TEXT"), vec![(padded(b"__const"), 0x1000, vec![1])]),
        (padded(b"__TEXT"), vec![(padded(b"__text"), 0x2000, vec![2])]),
    ]);
    assert_eq!(fetch_instructions(&buffer).unwrap_err(), InspectError::SectionNotFound);
}

#[test]
fn first_of_equally_named_sections_wins() {
    let buffer = image(&[
        (
            padded(b"__TEXT"),
            vec![
                (padded(b"__text"), 0x1000, vec![1, 1, 1, 1]),
                (padded(b"__text"), 0x2000, vec![2, 2, 2, 2]),
            ],
        ),
        (padded(b"__TEXT"), vec![(padded(b"__text"), 0x3000, vec![3, 3, 3, 3])]),
    ]);
    let region = fetch_instructions(&buffer).unwrap();
    assert_eq!(region.bytes, vec![1, 1, 1, 1]);
    assert_eq!(region.address, 0x1000);
}

#[test]
fn names_with_bytes_in_the_padding_do_not_match() {
    let mut section = padded(b"__text");
    section[15] = b'!';
    let buffer = image(&[(padded(b"__TEXT"), vec![(section, 0x1000, vec![1, 2, 3, 4])])]);
    assert_eq!(fetch_instructions(&buffer).unwrap_err(), InspectError::SectionNotFound);
    let mut segment = padded(b"__TEXT");
    segment[6] = b'2';
    let buffer = image(&[(segment, vec![(padded(b"__text"), 0x1000, vec![1, 2, 3, 4])])]);
    assert_eq!(fetch_instructions(&buffer).unwrap_err(), InspectError::SegmentNotFound);
}

#[test]
fn names_are_case_sensitive() {
    let buffer = image(&[(padded(b"__text"), vec![(padded(b"__text"), 0x1000, vec![1])])]);
    assert_eq!(fetch_instructions(&buffer).unwrap_err(), InspectError::SegmentNotFound);
    let buffer = image(&[(padded(b"__TEXT"), vec![(padded(b"__TEXT"), 0x1000, vec![1])])]);
    assert_eq!(fetch_instructions(&buffer).unwrap_err(), InspectError::SectionNotFound);
}

#[test]
fn empty_code_section_is_an_empty_region() {
    let buffer = image(&[(padded(b"__TEXT"), vec![(padded(b"__text"), 0x7000, vec![])])]);
    let region = fetch_instructions(&buffer).unwrap();
    assert!(region.bytes.is_empty());
    assert_eq!(region.address, 0x7000);
}

#[test]
fn multi_architecture_container_is_unsupported() {
    let mut buffer = vec![0xca, 0xfe, 0xba, 0xbe, 0, 0, 0, 2];
    buffer.extend_from_slice(&[0u8; 56]);
    assert_eq!(
        fetch_instructions(&buffer).unwrap_err(),
        InspectError::UnsupportedContainer(ContainerKind::MultiArch)
    );
}

#[test]
fn unknown_format_is_unsupported() {
    let buffer = vec![0x11u8; 64];
    assert_eq!(
        fetch_instructions(&buffer).unwrap_err(),
        InspectError::UnsupportedContainer(ContainerKind::Foreign)
    );
}

#[test]
fn unix_archive_is_unsupported() {
    let mut buffer = b"!<arch>\n".to_vec();
    buffer.extend_from_slice(&[b' '; 8]);
    let outcome = fetch_instructions(&buffer).unwrap_err();
    assert!(matches!(
        outcome,
        InspectError::UnsupportedContainer(ContainerKind::Foreign) | InspectError::Malformed
    ));
}

#[test]
fn short_buffer_is_malformed() {
    assert_eq!(fetch_instructions(&[]).unwrap_err(), InspectError::Malformed);
    assert_eq!(fetch_instructions(&[0xcf, 0xfa, 0xed, 0xfe]).unwrap_err(), InspectError::Malformed);
}

#[test]
fn truncated_load_commands_are_malformed() {
    let buffer = image(&[(padded(b"__TEXT"), vec![(padded(b"__text"), 0x1000, vec![1, 2, 3, 4])])]);
    assert_eq!(fetch_instructions(&buffer[..40]).unwrap_err(), InspectError::Malformed);
}

#[test]
fn fetching_twice_gives_the_same_region() {
    let buffer = image(&[(padded(b"__TEXT"), vec![(padded(b"__text"), 0x1000, vec![9, 8, 7, 6])])]);
    let first = fetch_instructions(&buffer).unwrap();
    let second = fetch_instructions(&buffer.clone()).unwrap();
    assert_eq!(first.bytes, second.bytes);
    assert_eq!(first.address, second.address);
}

#[test]
fn unreadable_section_table_of_the_code_segment_is_malformed() {
    let mut buffer = image(&[(padded(b"__TEXT"), vec![])]);
    assert_eq!(buffer.len(), 104);
    buffer[96] = 1;
    assert_eq!(fetch_instructions(&buffer).unwrap_err(), InspectError::Malformed);
}

#[test]
fn unreadable_section_table_of_another_segment_does_not_matter() {
    let mut buffer = image(&[
        (padded(b"__DATA"), vec![]),
        (padded(b"__TEXT"), vec![(padded(b"__text"), 0x1000, vec![1, 2, 3, 4])]),
    ]);
    buffer[96] = 200;
    let region = fetch_instructions(&buffer).unwrap();
    assert_eq!(region.bytes, vec![1, 2, 3, 4]);
    assert_eq!(region.address, 0x1000);
}
