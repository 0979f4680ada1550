//! The whole run: from the bytes of an image to the text of its report.

use vstd::prelude::*;
use crate::container::{fetch_instructions, image_of};
use crate::decoder::{decoded_records, disassemble, reports_of, Decoder};
use crate::error::{ContainerKind, InspectError};
use crate::region::{region_of, CodeRegionView, ImageView};
use crate::report::{render, rendered};

verus! {

/// The text of the report on a code region: the reports on the instructions
/// that the decoder yields for it, in its order.
pub open spec fn text_of(region: CodeRegionView) -> Result<Seq<char>, InspectError> {
    match reports_of(decoded_records(region.bytes, region.address)) {
        Ok(reports) => Ok(rendered(reports)),
        Err(e) => Err(e),
    }
}

/// The text of the report on an image: that of its code region. Where the
/// image has no code region, nothing is decoded.
pub open spec fn inspection_of(buffer: Seq<u8>) -> Result<Seq<char>, InspectError> {
    match region_of(image_of(buffer)) {
        Ok(region) => text_of(region),
        Err(e) => Err(e),
    }
}

/// The outcomes that a run on `buffer` can have: the text of its report, or
/// the failure that stands in its way; or else, where the image has a code
/// region, `DecodeFailure`, with which the decoder gives up on it.
pub open spec fn outcome_allowed(buffer: Seq<u8>, outcome: Result<Seq<char>, InspectError>) -> bool {
    match outcome {
        Ok(text) => inspection_of(buffer) == Ok::<Seq<char>, InspectError>(text),
        Err(e) => {
            ||| e == InspectError::DecodeFailure && region_of(image_of(buffer)) is Ok
            ||| inspection_of(buffer) == Err::<Seq<char>, InspectError>(e)
        },
    }
}

/// The text of an outcome.
pub open spec fn outcome_view(outcome: Result<String, InspectError>) -> Result<
    Seq<char>,
    InspectError,
> {
    match outcome {
        Ok(text) => Ok(text@),
        Err(e) => Err(e),
    }
}

/// Inspects the image in `buffer`: finds the code region, decodes it and
/// writes the report on every instruction, in the decoder's order.
///
/// The first failure ends the run, and no text is returned then.
pub fn inspect(decoder: &Decoder, buffer: &[u8]) -> (text: Result<String, InspectError>)
    ensures
        outcome_allowed(buffer@, outcome_view(text)),
{
    let region = match fetch_instructions(buffer) {
        Ok(region) => region,
        Err(e) => {
            return Err(e);
        },
    };
    match disassemble(decoder, region.bytes.as_slice(), region.address) {
        Ok(reports) => Ok(render(&reports)),
        Err(e) => Err(e),
    }
}

/// A run on a multi-architecture container fails with
/// `UnsupportedContainer`, and so does a run on a container of another
/// format; neither decodes anything.
pub proof fn lemma_unsupported_containers(buffer: Seq<u8>)
    ensures
        image_of(buffer) == Some(ImageView::MultiArch) ==> inspection_of(buffer) == Err::<
            Seq<char>,
            InspectError,
        >(InspectError::UnsupportedContainer(ContainerKind::MultiArch)),
        image_of(buffer) == Some(ImageView::Foreign) ==> inspection_of(buffer) == Err::<
            Seq<char>,
            InspectError,
        >(InspectError::UnsupportedContainer(ContainerKind::Foreign)),
{
}

/// A run on an image without a code region fails as the search for the
/// region does; it never fails in decoding, for nothing is decoded.
pub proof fn lemma_no_region_no_decoding(buffer: Seq<u8>, outcome: Result<Seq<char>, InspectError>)
    requires
        outcome_allowed(buffer, outcome),
    ensures
        region_of(image_of(buffer)) matches Err(e) ==> outcome == Err::<
            Seq<char>,
            InspectError,
        >(e),
{
}

/// Two runs on the same bytes end alike, unless the decoder gives up in one
/// of them: both return the same text or both fail in the same way.
pub proof fn lemma_runs_agree(
    buffer: Seq<u8>,
    first: Result<Seq<char>, InspectError>,
    second: Result<Seq<char>, InspectError>,
)
    requires
        outcome_allowed(buffer, first),
        outcome_allowed(buffer, second),
        first != Err::<Seq<char>, InspectError>(InspectError::DecodeFailure),
        second != Err::<Seq<char>, InspectError>(InspectError::DecodeFailure),
    ensures
        first == second,
{
}

} // verus!
