//! The code region of an image and how it is found.
//!
//! An image is a list of named segments in file order; a segment has a list
//! of named sections in file order. The code region is the content and the
//! load address of the first section named `__text` within the first segment
//! named `__TEXT`.

use vstd::prelude::*;
use vstd::slice::slice_to_vec;
use crate::error::{ContainerKind, InspectError};
use crate::names::{name_matches, CODE_SECTION_NAME, CODE_SEGMENT_NAME};

verus! {

/// A section of a segment: its name, its load address and its content, which
/// is borrowed from the image.
pub struct Section<'a> {
    pub name: [u8; 16],
    pub address: u64,
    pub data: &'a [u8],
}

/// What a section is, as plain values.
pub ghost struct SectionView {
    pub name: Seq<u8>,
    pub address: u64,
    pub data: Seq<u8>,
}

impl<'a> View for Section<'a> {
    type V = SectionView;

    open spec fn view(&self) -> SectionView {
        SectionView { name: self.name@, address: self.address, data: self.data@ }
    }
}

/// What a segment is: its name and its sections in file order, or `None`
/// where its section table cannot be read.
pub ghost struct SegmentView {
    pub name: Seq<u8>,
    pub sections: Option<Seq<SectionView>>,
}

/// What a container is once it has been classified.
pub ghost enum ImageView {
    /// A single-architecture Mach-O image with its segments in file order.
    Single(Seq<SegmentView>),
    /// A multi-architecture container.
    MultiArch,
    /// A container of another format.
    Foreign,
}

/// The code to decode: a copy of the code section's bytes and the address at
/// which the first of them is loaded.
#[derive(Debug)]
pub struct CodeRegion {
    pub bytes: Vec<u8>,
    pub address: u64,
}

/// What a code region is, as plain values.
pub ghost struct CodeRegionView {
    pub bytes: Seq<u8>,
    pub address: u64,
}

impl View for CodeRegion {
    type V = CodeRegionView;

    open spec fn view(&self) -> CodeRegionView {
        CodeRegionView { bytes: self.bytes@, address: self.address }
    }
}

/// The views of a list of sections.
pub open spec fn section_views(sections: Seq<Section>) -> Seq<SectionView> {
    sections.map_values(|s: Section| s@)
}

/// The views of a list of names.
pub open spec fn name_views(names: Seq<[u8; 16]>) -> Seq<Seq<u8>> {
    names.map_values(|n: [u8; 16]| n@)
}

/// The names of a list of segments, in the same order.
pub open spec fn segment_names(segments: Seq<SegmentView>) -> Seq<Seq<u8>> {
    segments.map_values(|s: SegmentView| s.name)
}

/// The names of a list of sections, in the same order.
pub open spec fn section_names(sections: Seq<SectionView>) -> Seq<Seq<u8>> {
    sections.map_values(|s: SectionView| s.name)
}

/// `index` is the position of the first name equal to `target`.
pub open spec fn is_first_match(names: Seq<Seq<u8>>, target: Seq<u8>, index: int) -> bool {
    &&& 0 <= index < names.len()
    &&& names[index] == target
    &&& forall|j: int| 0 <= j < index ==> names[j] != target
}

/// The position of the first name equal to `target`, if there is one.
pub open spec fn first_match(names: Seq<Seq<u8>>, target: Seq<u8>) -> Option<int> {
    if exists|i: int| is_first_match(names, target, i) {
        Some(choose|i: int| is_first_match(names, target, i))
    } else {
        None
    }
}

/// The code region among the sections of the code segment.
pub open spec fn located_in_sections(sections: Seq<SectionView>) -> Result<
    CodeRegionView,
    InspectError,
> {
    match first_match(section_names(sections), CODE_SECTION_NAME@) {
        Some(j) => Ok(CodeRegionView { bytes: sections[j].data, address: sections[j].address }),
        None => Err(InspectError::SectionNotFound),
    }
}

/// The code region among the segments of an image. Only the section table of
/// the first segment named `__TEXT` is looked at.
pub open spec fn located_in_segments(segments: Seq<SegmentView>) -> Result<
    CodeRegionView,
    InspectError,
> {
    match first_match(segment_names(segments), CODE_SEGMENT_NAME@) {
        Some(i) => match segments[i].sections {
            Some(sections) => located_in_sections(sections),
            None => Err(InspectError::Malformed),
        },
        None => Err(InspectError::SegmentNotFound),
    }
}

/// The code region of a classified container. Only a single-architecture
/// image has one; for any other kind no segment is looked at.
pub open spec fn located(image: ImageView) -> Result<CodeRegionView, InspectError> {
    match image {
        ImageView::Single(segments) => located_in_segments(segments),
        ImageView::MultiArch => Err(InspectError::UnsupportedContainer(ContainerKind::MultiArch)),
        ImageView::Foreign => Err(InspectError::UnsupportedContainer(ContainerKind::Foreign)),
    }
}

/// The code region of a byte buffer, from what the container parser made of
/// it (`None`: it could not be read as any container).
pub open spec fn region_of(parsed: Option<ImageView>) -> Result<CodeRegionView, InspectError> {
    match parsed {
        Some(image) => located(image),
        None => Err(InspectError::Malformed),
    }
}

/// Whether `part` stands somewhere in `whole`, byte for byte.
pub open spec fn lies_within(part: Seq<u8>, whole: Seq<u8>) -> bool {
    exists|start: int|
        0 <= start && start + part.len() <= whole.len() && part == #[trigger] whole.subrange(
            start,
            start + part.len(),
        )
}

/// Whether the content of every section stands somewhere in `whole`.
pub open spec fn sections_lie_within(sections: Seq<SectionView>, whole: Seq<u8>) -> bool {
    forall|j: int| 0 <= j < sections.len() ==> lies_within((#[trigger] sections[j]).data, whole)
}

/// At most one position is the first match, and `first_match` names it.
pub proof fn lemma_first_match(names: Seq<Seq<u8>>, target: Seq<u8>)
    ensures
        match first_match(names, target) {
            Some(i) => is_first_match(names, target, i),
            None => forall|j: int| 0 <= j < names.len() ==> names[j] != target,
        },
        forall|i: int| is_first_match(names, target, i) ==> first_match(names, target) == Some(i),
{
    if exists|i: int| is_first_match(names, target, i) {
        let k = choose|i: int| is_first_match(names, target, i);
        assert forall|i: int| is_first_match(names, target, i) implies i == k by {
            if i < k {
                assert(names[i] != target);
            } else if k < i {
                assert(names[k] != target);
            }
        }
    } else {
        assert forall|j: int| 0 <= j < names.len() implies names[j] != target by {
            if names[j] == target {
                lemma_some_match_has_first(names, target, j);
            }
        }
    }
}

/// Where some name equals `target`, one of them is the first.
proof fn lemma_some_match_has_first(names: Seq<Seq<u8>>, target: Seq<u8>, at: int)
    requires
        0 <= at < names.len(),
        names[at] == target,
    ensures
        exists|i: int| is_first_match(names, target, i),
    decreases at,
{
    if exists|j: int| 0 <= j < at && names[j] == target {
        let j = choose|j: int| 0 <= j < at && names[j] == target;
        lemma_some_match_has_first(names, target, j);
    } else {
        assert(is_first_match(names, target, at));
    }
}

/// An image with exactly one segment named `__TEXT`, which has exactly
/// one section named `__text`, has that section's bytes and address as its
/// code region.
pub proof fn lemma_unique_code_section(
    segments: Seq<SegmentView>,
    i: int,
    sections: Seq<SectionView>,
    j: int,
)
    requires
        0 <= i < segments.len(),
        segments[i].name == CODE_SEGMENT_NAME@,
        forall|k: int| 0 <= k < segments.len() && k != i ==> segments[k].name != CODE_SEGMENT_NAME@,
        segments[i].sections == Some(sections),
        0 <= j < sections.len(),
        sections[j].name == CODE_SECTION_NAME@,
        forall|k: int| 0 <= k < sections.len() && k != j ==> sections[k].name != CODE_SECTION_NAME@,
    ensures
        located(ImageView::Single(segments)) == Ok::<CodeRegionView, InspectError>(
            CodeRegionView { bytes: sections[j].data, address: sections[j].address },
        ),
{
    assert(is_first_match(segment_names(segments), CODE_SEGMENT_NAME@, i));
    lemma_first_match(segment_names(segments), CODE_SEGMENT_NAME@);
    assert(is_first_match(section_names(sections), CODE_SECTION_NAME@, j));
    lemma_first_match(section_names(sections), CODE_SECTION_NAME@);
}

/// The first match wins: where several segments or sections carry the
/// wanted name, the code region is that of the first `__text` section of the
/// first `__TEXT` segment, whatever follows them.
pub proof fn lemma_first_match_wins(
    segments: Seq<SegmentView>,
    i: int,
    sections: Seq<SectionView>,
    j: int,
)
    requires
        is_first_match(segment_names(segments), CODE_SEGMENT_NAME@, i),
        segments[i].sections == Some(sections),
        is_first_match(section_names(sections), CODE_SECTION_NAME@, j),
    ensures
        located(ImageView::Single(segments)) == Ok::<CodeRegionView, InspectError>(
            CodeRegionView { bytes: sections[j].data, address: sections[j].address },
        ),
{
    lemma_first_match(segment_names(segments), CODE_SEGMENT_NAME@);
    lemma_first_match(section_names(sections), CODE_SECTION_NAME@);
}

/// An image without a segment named `__TEXT` has no code region: the search
/// ends with `SegmentNotFound`.
pub proof fn lemma_missing_segment(segments: Seq<SegmentView>)
    requires
        forall|k: int| 0 <= k < segments.len() ==> segments[k].name != CODE_SEGMENT_NAME@,
    ensures
        located(ImageView::Single(segments)) == Err::<CodeRegionView, InspectError>(
            InspectError::SegmentNotFound,
        ),
{
    lemma_first_match(segment_names(segments), CODE_SEGMENT_NAME@);
    if first_match(segment_names(segments), CODE_SEGMENT_NAME@) is Some {
        let i = first_match(segment_names(segments), CODE_SEGMENT_NAME@)->0;
        assert(segments[i].name == CODE_SEGMENT_NAME@);
    }
}

/// An image whose first segment named `__TEXT` has no section named
/// `__text` has no code region: the search ends with `SectionNotFound`,
/// whatever the other segments hold.
pub proof fn lemma_missing_section(segments: Seq<SegmentView>, i: int, sections: Seq<SectionView>)
    requires
        is_first_match(segment_names(segments), CODE_SEGMENT_NAME@, i),
        segments[i].sections == Some(sections),
        forall|k: int| 0 <= k < sections.len() ==> sections[k].name != CODE_SECTION_NAME@,
    ensures
        located(ImageView::Single(segments)) == Err::<CodeRegionView, InspectError>(
            InspectError::SectionNotFound,
        ),
{
    lemma_first_match(segment_names(segments), CODE_SEGMENT_NAME@);
    lemma_first_match(section_names(sections), CODE_SECTION_NAME@);
    if first_match(section_names(sections), CODE_SECTION_NAME@) is Some {
        let j = first_match(section_names(sections), CODE_SECTION_NAME@)->0;
        assert(sections[j].name == CODE_SECTION_NAME@);
    }
}

/// A container that is not a single-architecture image has no code region:
/// the search ends with `UnsupportedContainer` and looks at no segment.
pub proof fn lemma_other_kinds_are_unsupported()
    ensures
        located(ImageView::MultiArch) == Err::<CodeRegionView, InspectError>(
            InspectError::UnsupportedContainer(ContainerKind::MultiArch),
        ),
        located(ImageView::Foreign) == Err::<CodeRegionView, InspectError>(
            InspectError::UnsupportedContainer(ContainerKind::Foreign),
        ),
{
}

/// The position of the first name in `names` that equals `target`.
pub fn find_name(names: &Vec<[u8; 16]>, target: &[u8; 16]) -> (found: Option<usize>)
    ensures
        match found {
            Some(i) => is_first_match(name_views(names@), target@, i as int),
            None => forall|j: int| 0 <= j < names@.len() ==> names@[j]@ != target@,
        },
        match found {
            Some(i) => first_match(name_views(names@), target@) == Some(i as int),
            None => first_match(name_views(names@), target@) is None,
        },
{
    let ghost views = name_views(names@);
    let mut i: usize = 0;
    while i < names.len()
        invariant
            i <= names.len(),
            views == name_views(names@),
            forall|j: int| 0 <= j < i ==> views[j] != target@,
        decreases names.len() - i,
    {
        if name_matches(&names[i], target) {
            proof {
                assert(is_first_match(views, target@, i as int));
                lemma_first_match(views, target@);
            }
            return Some(i);
        }
        i += 1;
    }
    proof {
        lemma_first_match(views, target@);
        assert forall|j: int| 0 <= j < names@.len() implies names@[j]@ != target@ by {
            assert(views[j] == names@[j]@);
        }
    }
    None
}

/// The position of the first section named `__text`.
pub fn find_code_section(sections: &[Section]) -> (found: Option<usize>)
    ensures
        match found {
            Some(j) => is_first_match(
                section_names(section_views(sections@)),
                CODE_SECTION_NAME@,
                j as int,
            ),
            None => forall|k: int|
                0 <= k < sections@.len() ==> sections@[k].name@ != CODE_SECTION_NAME@,
        },
        match found {
            Some(j) => first_match(section_names(section_views(sections@)), CODE_SECTION_NAME@)
                == Some(j as int),
            None => first_match(section_names(section_views(sections@)), CODE_SECTION_NAME@)
                is None,
        },
{
    let ghost names = section_names(section_views(sections@));
    let mut j: usize = 0;
    while j < sections.len()
        invariant
            j <= sections.len(),
            names == section_names(section_views(sections@)),
            forall|k: int| 0 <= k < j ==> names[k] != CODE_SECTION_NAME@,
        decreases sections.len() - j,
    {
        if name_matches(&sections[j].name, &CODE_SECTION_NAME) {
            proof {
                assert(is_first_match(names, CODE_SECTION_NAME@, j as int));
                lemma_first_match(names, CODE_SECTION_NAME@);
            }
            return Some(j);
        }
        j += 1;
    }
    proof {
        lemma_first_match(names, CODE_SECTION_NAME@);
        assert forall|k: int| 0 <= k < sections@.len() implies sections@[k].name@
            != CODE_SECTION_NAME@ by {
            assert(names[k] == sections@[k].name@);
        }
    }
    None
}

/// Copies a section's content out of the image, with its load address.
pub fn extract(section: &Section) -> (region: CodeRegion)
    ensures
        region@.bytes == section@.data,
        region@.address == section@.address,
{
    CodeRegion { bytes: slice_to_vec(section.data), address: section.address }
}

/// The code region among the sections of the code segment: the first section
/// named `__text`, copied out. Sections of the same name further on are not
/// an error; they are not looked at.
pub fn locate_in_sections(sections: &[Section]) -> (region: Result<CodeRegion, InspectError>)
    ensures
        match region {
            Ok(found) => exists|j: int|
                {
                    &&& is_first_match(
                        section_names(section_views(sections@)),
                        CODE_SECTION_NAME@,
                        j,
                    )
                    &&& found@.bytes == sections@[j].data@
                    &&& found@.address == sections@[j].address
                },
            Err(e) => e == InspectError::SectionNotFound && forall|k: int|
                0 <= k < sections@.len() ==> sections@[k].name@ != CODE_SECTION_NAME@,
        },
        match region {
            Ok(found) => located_in_sections(section_views(sections@)) == Ok::<
                CodeRegionView,
                InspectError,
            >(found@),
            Err(e) => located_in_sections(section_views(sections@)) == Err::<
                CodeRegionView,
                InspectError,
            >(e),
        },
{
    match find_code_section(sections) {
        Some(j) => Ok(extract(&sections[j])),
        None => Err(InspectError::SectionNotFound),
    }
}

} // verus!
