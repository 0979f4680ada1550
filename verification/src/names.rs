//! Fixed-width names of segments and sections.
//!
//! A name occupies exactly sixteen bytes; shorter names are padded with zero
//! bytes. Two names are the same only if all sixteen bytes agree.

use vstd::prelude::*;

verus! {

/// Width in bytes of a segment or section name field.
pub const NAME_WIDTH: usize = 16;

/// `__TEXT`, zero-padded: the segment that holds executable code.
pub const CODE_SEGMENT_NAME: [u8; 16] = [95, 95, 84, 69, 88, 84, 0, 0, 0, 0, 0, 0, 0, 0, 0, 0];

/// `__text`, zero-padded: the section that holds executable code.
pub const CODE_SECTION_NAME: [u8; 16] = [95, 95, 116, 101, 120, 116, 0, 0, 0, 0, 0, 0, 0, 0, 0, 0];

/// Length of the text in each of the two well-known names; the bytes from this
/// position on are padding.
pub const CODE_NAME_TEXT_LEN: usize = 6;

/// Whether two name fields hold the same sixteen bytes.
pub fn name_matches(name: &[u8; 16], target: &[u8; 16]) -> (same: bool)
    ensures
        same == (name@ == target@),
{
    let mut i: usize = 0;
    while i < NAME_WIDTH
        invariant
            i <= NAME_WIDTH,
            forall|j: int| 0 <= j < i ==> name@[j] == target@[j],
        decreases NAME_WIDTH - i,
    {
        if name[i] != target[i] {
            return false;
        }
        i += 1;
    }
    assert(name@ =~= target@);
    true
}

/// Names are matched byte for byte: two names of full width are the same
/// exactly if they agree at every position.
pub proof fn lemma_match_is_bytewise(name: Seq<u8>, target: Seq<u8>)
    requires
        name.len() == NAME_WIDTH,
        target.len() == NAME_WIDTH,
    ensures
        name == target <==> forall|i: int| 0 <= i < NAME_WIDTH ==> name[i] == target[i],
{
    if forall|i: int| 0 <= i < NAME_WIDTH ==> name[i] == target[i] {
        assert(name =~= target);
    }
}

/// Padding counts: a name that carries a non-zero byte anywhere after the
/// six bytes of text is neither the code segment's name nor the code
/// section's, whatever its first six bytes are.
pub proof fn lemma_padding_is_significant(name: Seq<u8>, position: int)
    requires
        name.len() == NAME_WIDTH,
        CODE_NAME_TEXT_LEN <= position < NAME_WIDTH,
        name[position] != 0,
    ensures
        name != CODE_SEGMENT_NAME@,
        name != CODE_SECTION_NAME@,
{
    assert(CODE_SEGMENT_NAME@[position] == 0);
    assert(CODE_SECTION_NAME@[position] == 0);
}

/// Case counts: the two well-known names differ from each other.
pub proof fn lemma_segment_and_section_names_differ()
    ensures
        CODE_SEGMENT_NAME@ != CODE_SECTION_NAME@,
{
    assert(CODE_SEGMENT_NAME@[2] == 84);
    assert(CODE_SECTION_NAME@[2] == 116);
}

} // verus!
