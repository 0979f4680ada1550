//! Reading a container with the `goblin` parser.
//!
//! The kind of container is told from its magic number. Of a Mach-O image
//! the parser reads the header, each load command and the section table of a
//! segment; the walk over the load commands and the choice of the segment and
//! the section that hold the code are made here. Nothing else of the image is
//! read: no symbol, no library name, no entry point.

use vstd::prelude::*;
use scroll::ctx::SizeWith;
use scroll::Pread;
use crate::error::{ContainerKind, InspectError};
use crate::names::{CODE_SECTION_NAME, CODE_SEGMENT_NAME};
use crate::region::{
    find_name, lemma_first_match, lies_within, locate_in_sections, name_views, region_of,
    section_names, section_views, sections_lie_within, segment_names, CodeRegion, CodeRegionView,
    ImageView, Section, SectionView, SegmentView,
};

verus! {

/// A segment of a Mach-O image, `goblin::mach::segment::Segment`.
#[verifier::external_type_specification]
#[verifier::external_body]
pub struct ExSegment<'a>(goblin::mach::segment::Segment<'a>);

/// The parser's error, `goblin::error::Error`.
#[verifier::external_type_specification]
#[verifier::external_body]
pub struct ExParseError(goblin::error::Error);

/// Number of leading bytes that a buffer must have to be classified.
pub const MIN_CONTAINER_LEN: usize = 16;

/// Magic number of a multi-architecture container.
pub const FAT_MAGIC: u32 = 0xcafe_babe;

/// Magic number of a 32-bit Mach-O image in big-endian byte order.
pub const MH_MAGIC: u32 = 0xfeed_face;

/// Magic number of a 32-bit Mach-O image in little-endian byte order.
pub const MH_CIGAM: u32 = 0xcefa_edfe;

/// Magic number of a 64-bit Mach-O image in big-endian byte order.
pub const MH_MAGIC_64: u32 = 0xfeed_facf;

/// Magic number of a 64-bit Mach-O image in little-endian byte order.
pub const MH_CIGAM_64: u32 = 0xcffa_edfe;

/// Byte order and word size of a Mach-O image.
#[derive(Clone, Copy, Debug, PartialEq, Eq, Structural)]
pub struct Layout {
    pub little_endian: bool,
    pub wide: bool,
}

/// The kind of a container, told from its magic number.
#[derive(Clone, Copy, Debug, PartialEq, Eq, Structural)]
pub enum Kind {
    /// A single-architecture Mach-O image.
    Mach(Layout),
    /// A multi-architecture container.
    MultiArch,
    /// Anything else.
    Foreign,
}

/// What the header of a Mach-O image says of its load commands, and its own
/// size, which is where the first load command stands.
#[derive(Clone, Copy, Debug, PartialEq, Eq, Structural)]
pub struct MachHeader {
    pub command_count: usize,
    pub commands_size: u32,
    pub size: usize,
}

/// A segment of an image as the parser holds it, with its name.
struct LoadedSegment<'a> {
    name: [u8; 16],
    handle: goblin::mach::segment::Segment<'a>,
}

/// What is kept of a load command: where the next one stands and, of a
/// segment command, the segment.
struct Command<'a> {
    next: usize,
    segment: Option<LoadedSegment<'a>>,
}

/// What a load command is, as plain values: where the next one stands and,
/// for a segment command, the segment.
pub ghost struct CommandView {
    pub next: usize,
    pub segment: Option<SegmentView>,
}

/// The header that the parser reads at the start of a Mach-O image of the
/// given layout; `None` where it reports an error.
pub uninterp spec fn parsed_header(bytes: Seq<u8>, layout: Layout) -> Option<MachHeader>;

/// The load command that `LoadCommand::parse` reads at `offset`: where the
/// next one stands and, for a segment command, the segment that
/// `Segment::from_32` or `Segment::from_64` makes of it, with its name and
/// its sections; `None` where either reports an error.
pub uninterp spec fn parsed_command(bytes: Seq<u8>, offset: usize, layout: Layout) -> Option<
    CommandView,
>;

/// What a segment holds: the sections that `Segment::sections` reads for it,
/// in file order.
pub uninterp spec fn held_sections(segment: &goblin::mach::segment::Segment) -> Seq<SectionView>;

/// Whether `Segment::sections` can read the sections of a segment: it
/// reports an error where it cannot.
pub uninterp spec fn sections_readable(segment: &goblin::mach::segment::Segment) -> bool;

impl<'a> View for LoadedSegment<'a> {
    type V = SegmentView;

    closed spec fn view(&self) -> SegmentView {
        SegmentView {
            name: self.name@,
            sections: if sections_readable(&self.handle) {
                Some(held_sections(&self.handle))
            } else {
                None
            },
        }
    }
}

impl<'a> View for Command<'a> {
    type V = CommandView;

    closed spec fn view(&self) -> CommandView {
        CommandView {
            next: self.next,
            segment: match self.segment {
                Some(segment) => Some(segment@),
                None => None,
            },
        }
    }
}

/// Reads the header with `Pread::pread_with` and its size with
/// `SizeWith::size_with`, and keeps `ncmds`, `sizeofcmds` and the size.
/// Trusted: this is the header that `parsed_header` names.
#[verifier::external_body]
fn read_header(bytes: &[u8], layout: Layout) -> (header: Result<MachHeader, goblin::error::Error>)
    ensures
        match header {
            Ok(read) => parsed_header(bytes@, layout) == Some(read),
            Err(_) => parsed_header(bytes@, layout) is None,
        },
{
    let width = if layout.wide { goblin::container::Container::Big } else { goblin::container::Container::Little };
    let ctx = goblin::container::Ctx::new(width, goblin::container::Endian::from(layout.little_endian));
    let header: goblin::mach::header::Header = bytes.pread_with(0, ctx)?;
    Ok(MachHeader {
        command_count: header.ncmds,
        commands_size: header.sizeofcmds,
        size: goblin::mach::header::Header::size_with(&ctx),
    })
}

/// Calls `LoadCommand::parse` at `offset` and, for a segment command,
/// `Segment::from_32` or `Segment::from_64`; keeps the offset behind the
/// command and the segment with its `segname`. Trusted: this is the command
/// that `parsed_command` names, and the segment borrows from `bytes`: the
/// data of each section that `Segment::sections` reads for it is a slice of
/// them (an empty one where the section's range is not in them, or is filled
/// with zeros on loading).
#[verifier::external_body]
fn read_command<'a>(bytes: &'a [u8], offset: usize, layout: Layout) -> (command: Result<
    Command<'a>,
    goblin::error::Error,
>)
    ensures
        match command {
            Ok(read) => {
                &&& parsed_command(bytes@, offset, layout) == Some(read@)
                &&& read@.segment matches Some(segment) ==> (segment.sections matches Some(
                    sections,
                ) ==> sections_lie_within(sections, bytes@))
            },
            Err(_) => parsed_command(bytes@, offset, layout) is None,
        },
{
    let width = if layout.wide { goblin::container::Container::Big } else { goblin::container::Container::Little };
    let ctx = goblin::container::Ctx::new(width, goblin::container::Endian::from(layout.little_endian));
    let mut next = offset;
    let handle = match goblin::mach::load_command::LoadCommand::parse(bytes, &mut next, ctx.le)?.command {
        goblin::mach::load_command::CommandVariant::Segment32(c) => Some(goblin::mach::segment::Segment::from_32(bytes, &c, offset, ctx)?),
        goblin::mach::load_command::CommandVariant::Segment64(c) => Some(goblin::mach::segment::Segment::from_64(bytes, &c, offset, ctx)?),
        _ => None,
    };
    Ok(Command { next, segment: handle.map(|handle| LoadedSegment { name: handle.segname, handle }) })
}

/// Calls `Segment::sections` and keeps of each section its `sectname`, its
/// `addr` and its data. Trusted: these are the sections that the segment
/// holds, and the call fails exactly where they cannot be read.
#[verifier::external_body]
fn read_sections<'a>(segment: &LoadedSegment<'a>) -> (sections: Result<
    Vec<Section<'a>>,
    goblin::error::Error,
>)
    ensures
        match sections {
            Ok(list) => sections_readable(&segment.handle) && held_sections(&segment.handle)
                == section_views(list@),
            Err(_) => !sections_readable(&segment.handle),
        },
{
    let sections = segment.handle.sections()?;
    Ok(
        sections.into_iter().map(
            |(header, data)| Section { name: header.sectname, address: header.addr, data },
        ).collect(),
    )
}

/// The magic number of a buffer: its first four bytes, the first of them
/// the most significant.
pub open spec fn magic_of(bytes: Seq<u8>) -> u32 {
    (bytes[0] * 0x100_0000 + bytes[1] * 0x1_0000 + bytes[2] * 0x100 + bytes[3]) as u32
}

/// The layout that a magic number stands for, if it is that of a Mach-O
/// image.
pub open spec fn layout_of(magic: u32) -> Option<Layout> {
    if magic == MH_MAGIC {
        Some(Layout { little_endian: false, wide: false })
    } else if magic == MH_CIGAM {
        Some(Layout { little_endian: true, wide: false })
    } else if magic == MH_MAGIC_64 {
        Some(Layout { little_endian: false, wide: true })
    } else if magic == MH_CIGAM_64 {
        Some(Layout { little_endian: true, wide: true })
    } else {
        None
    }
}

/// The kind of a buffer; `None` where it is too short to have one.
pub open spec fn kind_of(bytes: Seq<u8>) -> Option<Kind> {
    if bytes.len() < MIN_CONTAINER_LEN {
        None
    } else if magic_of(bytes) == FAT_MAGIC {
        Some(Kind::MultiArch)
    } else {
        match layout_of(magic_of(bytes)) {
            Some(layout) => Some(Kind::Mach(layout)),
            None => Some(Kind::Foreign),
        }
    }
}

/// The segments that one load command makes: one for a segment command,
/// none for any other.
pub open spec fn segment_of(command: CommandView) -> Seq<SegmentView> {
    match command.segment {
        Some(segment) => seq![segment],
        None => Seq::empty(),
    }
}

/// The segments found so far followed by those of the load commands that
/// remain; `None` where one of these cannot be read.
pub open spec fn after(found: Seq<SegmentView>, rest: Option<Seq<SegmentView>>) -> Option<
    Seq<SegmentView>,
> {
    match rest {
        Some(segments) => Some(found + segments),
        None => None,
    }
}

/// The segments among the `count` load commands that stand one after the
/// other from `offset`, in file order; `None` where one of these load
/// commands cannot be read.
pub open spec fn segments_from(bytes: Seq<u8>, layout: Layout, offset: usize, count: nat) -> Option<
    Seq<SegmentView>,
>
    decreases count,
{
    if count == 0 {
        Some(Seq::empty())
    } else {
        match parsed_command(bytes, offset, layout) {
            None => None,
            Some(command) => after(
                segment_of(command),
                segments_from(bytes, layout, command.next, (count - 1) as nat),
            ),
        }
    }
}

/// Whether a header promises more load commands than the bytes that it
/// gives them, or the buffer, can hold.
pub open spec fn overstates(header: MachHeader, len: nat) -> bool {
    header.command_count > header.commands_size / 8 || header.commands_size > len
}

/// The segments of a Mach-O image of the given layout, in file order;
/// `None` where the header or a load command cannot be read, or the header
/// overstates the load commands.
pub open spec fn segments_of(bytes: Seq<u8>, layout: Layout) -> Option<Seq<SegmentView>> {
    match parsed_header(bytes, layout) {
        None => None,
        Some(header) => if overstates(header, bytes.len()) {
            None
        } else {
            segments_from(bytes, layout, header.size, header.command_count as nat)
        },
    }
}

/// What a buffer holds: its kind and, for a single-architecture Mach-O
/// image, its segments in file order; `None` where it is too short to be
/// classified or the image cannot be read.
pub open spec fn image_of(bytes: Seq<u8>) -> Option<ImageView> {
    match kind_of(bytes) {
        None => None,
        Some(Kind::MultiArch) => Some(ImageView::MultiArch),
        Some(Kind::Foreign) => Some(ImageView::Foreign),
        Some(Kind::Mach(layout)) => match segments_of(bytes, layout) {
            Some(segments) => Some(ImageView::Single(segments)),
            None => None,
        },
    }
}

/// A buffer that begins with the magic number of a multi-architecture
/// container is one, whatever follows, and none of its content is read.
pub proof fn lemma_fat_magic_is_multi_arch(bytes: Seq<u8>)
    requires
        bytes.len() >= MIN_CONTAINER_LEN,
        bytes[0] == 0xca,
        bytes[1] == 0xfe,
        bytes[2] == 0xba,
        bytes[3] == 0xbe,
    ensures
        image_of(bytes) == Some(ImageView::MultiArch),
{
}

/// Reads the magic number of a buffer.
fn read_magic(buffer: &[u8]) -> (magic: u32)
    requires
        buffer@.len() >= 4,
    ensures
        magic == magic_of(buffer@),
{
    let first: u32 = buffer[0] as u32;
    let second: u32 = buffer[1] as u32;
    let third: u32 = buffer[2] as u32;
    let fourth: u32 = buffer[3] as u32;
    first * 0x100_0000 + second * 0x1_0000 + third * 0x100 + fourth
}

/// Tells the kind of a container from its magic number; `None` where the
/// buffer has fewer than sixteen bytes.
pub fn classify(buffer: &[u8]) -> (kind: Option<Kind>)
    ensures
        kind == kind_of(buffer@),
{
    if buffer.len() < MIN_CONTAINER_LEN {
        return None;
    }
    let magic = read_magic(buffer);
    if magic == FAT_MAGIC {
        Some(Kind::MultiArch)
    } else if magic == MH_MAGIC {
        Some(Kind::Mach(Layout { little_endian: false, wide: false }))
    } else if magic == MH_CIGAM {
        Some(Kind::Mach(Layout { little_endian: true, wide: false }))
    } else if magic == MH_MAGIC_64 {
        Some(Kind::Mach(Layout { little_endian: false, wide: true }))
    } else if magic == MH_CIGAM_64 {
        Some(Kind::Mach(Layout { little_endian: true, wide: true }))
    } else {
        Some(Kind::Foreign)
    }
}

/// The views of a list of segments.
spec fn loaded_views(segments: Seq<LoadedSegment>) -> Seq<SegmentView> {
    segments.map_values(|segment: LoadedSegment| segment@)
}

/// Walks the load commands of a Mach-O image and lists its segments in
/// file order, and their names beside them. Every load command is read; one
/// that cannot be read ends the walk with `Malformed`, also behind the
/// segment that holds the code.
fn read_segments<'a>(buffer: &'a [u8], layout: Layout) -> (segments: Result<
    (Vec<[u8; 16]>, Vec<LoadedSegment<'a>>),
    InspectError,
>)
    ensures
        match segments {
            Ok((names, list)) => {
                &&& segments_of(buffer@, layout) == Some(loaded_views(list@))
                &&& name_views(names@) == segment_names(loaded_views(list@))
                &&& forall|i: int|
                    0 <= i < list@.len() ==> ((#[trigger] list@[i])@.sections matches Some(
                        sections,
                    ) ==> sections_lie_within(sections, buffer@))
            },
            Err(e) => e == InspectError::Malformed && segments_of(buffer@, layout) is None,
        },
{
    let header = match read_header(buffer, layout) {
        Ok(header) => header,
        Err(_) => {
            return Err(InspectError::Malformed);
        },
    };
    if header.command_count > (header.commands_size / 8) as usize || header.commands_size as usize
        > buffer.len() {
        return Err(InspectError::Malformed);
    }
    let ghost all = segments_from(buffer@, layout, header.size, header.command_count as nat);
    let mut names: Vec<[u8; 16]> = Vec::new();
    let mut list: Vec<LoadedSegment<'a>> = Vec::new();
    let mut offset: usize = header.size;
    let mut done: usize = 0;
    proof {
        assert(loaded_views(list@) =~= Seq::empty());
        assert(name_views(names@) =~= segment_names(loaded_views(list@)));
        let rest = segments_from(buffer@, layout, offset, (header.command_count - done) as nat);
        if rest is Some {
            assert(Seq::<SegmentView>::empty() + rest->0 =~= rest->0);
        }
    }
    while done < header.command_count
        invariant
            done <= header.command_count,
            parsed_header(buffer@, layout) == Some(header),
            !overstates(header, buffer@.len()),
            name_views(names@) == segment_names(loaded_views(list@)),
            forall|i: int|
                0 <= i < list@.len() ==> ((#[trigger] list@[i])@.sections matches Some(sections)
                    ==> sections_lie_within(sections, buffer@)),
            all == segments_from(buffer@, layout, header.size, header.command_count as nat),
            all == after(
                loaded_views(list@),
                segments_from(buffer@, layout, offset, (header.command_count - done) as nat),
            ),
        decreases header.command_count - done,
    {
        let ghost found = loaded_views(list@);
        let ghost names_before = names@;
        let ghost list_before = list@;
        let command = match read_command(buffer, offset, layout) {
            Ok(command) => command,
            Err(_) => {
                return Err(InspectError::Malformed);
            },
        };
        let ghost made = segment_of(command@);
        let ghost rest = segments_from(
            buffer@,
            layout,
            command.next,
            (header.command_count - done - 1) as nat,
        );
        let next = command.next;
        match command.segment {
            Some(segment) => {
                names.push(segment.name);
                list.push(segment);
            },
            None => {},
        }
        proof {
            assert(loaded_views(list@) =~= found + made);
            assert(names@.len() == list@.len()) by {
                assert(name_views(names_before).len() == segment_names(found).len());
            }
            assert forall|k: int| 0 <= k < names@.len() implies name_views(names@)[k]
                == segment_names(loaded_views(list@))[k] by {
                if k < names_before.len() {
                    assert(name_views(names_before)[k] == segment_names(found)[k]);
                    assert(names@[k] == names_before[k]);
                    assert(list@[k] == list_before[k]);
                }
            }
            assert(name_views(names@) =~= segment_names(loaded_views(list@)));
            if rest is Some {
                assert(found + (made + rest->0) =~= (found + made) + rest->0);
            }
        }
        offset = next;
        done += 1;
    }
    proof {
        assert(loaded_views(list@) + Seq::<SegmentView>::empty() =~= loaded_views(list@));
    }
    Ok((names, list))
}

/// Finds the code region of the image in `buffer`: the bytes and the load
/// address of the first `__text` section of the first `__TEXT` segment.
///
/// Fails with `Malformed` where the buffer is too short to be classified or
/// the parser rejects the header, a load command or the section table of
/// that segment; with `UnsupportedContainer` for anything but a
/// single-architecture Mach-O image; and with `SegmentNotFound` or
/// `SectionNotFound` where no name matches.
pub fn fetch_instructions(buffer: &[u8]) -> (region: Result<CodeRegion, InspectError>)
    ensures
        match region {
            Ok(found) => region_of(image_of(buffer@)) == Ok::<CodeRegionView, InspectError>(
                found@,
            ),
            Err(e) => region_of(image_of(buffer@)) == Err::<CodeRegionView, InspectError>(e),
        },
        region matches Ok(found) ==> lies_within(found@.bytes, buffer@),
{
    let layout = match classify(buffer) {
        None => {
            return Err(InspectError::Malformed);
        },
        Some(Kind::MultiArch) => {
            return Err(InspectError::UnsupportedContainer(ContainerKind::MultiArch));
        },
        Some(Kind::Foreign) => {
            return Err(InspectError::UnsupportedContainer(ContainerKind::Foreign));
        },
        Some(Kind::Mach(layout)) => layout,
    };
    let (names, segments) = match read_segments(buffer, layout) {
        Ok(segments) => segments,
        Err(e) => {
            return Err(e);
        },
    };
    match find_name(&names, &CODE_SEGMENT_NAME) {
        None => Err(InspectError::SegmentNotFound),
        Some(i) => {
            proof {
                lemma_first_match(name_views(names@), CODE_SEGMENT_NAME@);
                assert(loaded_views(segments@).len() == names@.len());
                assert(loaded_views(segments@)[i as int] == segments@[i as int]@);
            }
            match read_sections(&segments[i]) {
                Err(_) => Err(InspectError::Malformed),
                Ok(sections) => {
                    let region = locate_in_sections(sections.as_slice());
                    proof {
                        if region is Ok {
                            lemma_first_match(
                                section_names(section_views(sections@)),
                                CODE_SECTION_NAME@,
                            );
                        }
                    }
                    region
                },
            }
        },
    }
}

} // verus!
