//! The ways in which an inspection run can fail.

use vstd::prelude::*;

verus! {

/// Why a recognised container is not inspected.
#[derive(Clone, Copy, Debug, PartialEq, Eq, Structural)]
pub enum ContainerKind {
    /// A multi-architecture ("fat") container.
    MultiArch,
    /// Any other format than Mach-O.
    Foreign,
}

/// A failed inspection. Every failure ends the run; nothing is retried.
#[derive(Clone, Copy, Debug, PartialEq, Eq, Structural)]
pub enum InspectError {
    /// No path was given on the command line.
    MissingArgument,
    /// The bytes could not be read as a container of any known format, or the
    /// section table of the code segment could not be read.
    Malformed,
    /// The container was recognised but is not a single-architecture Mach-O
    /// image.
    UnsupportedContainer(ContainerKind),
    /// No segment carries the code segment's name.
    SegmentNotFound,
    /// The code segment has no section that carries the code section's name.
    SectionNotFound,
    /// The decoder could not be set up for the target architecture.
    DecoderInitFailure,
    /// The decoder gave up on the code region as a whole.
    DecodeFailure,
    /// The decoder offered no register and group detail for an instruction.
    DetailUnavailable,
    /// The decoder knows no name for a register or group id that it reported.
    NameResolutionFailure,
}

impl InspectError {
    /// The diagnostic text of this failure.
    pub open spec fn message_text(self) -> Seq<char> {
        match self {
            InspectError::MissingArgument => "missing argument: path of the image to inspect"@,
            InspectError::Malformed => "malformed container"@,
            InspectError::UnsupportedContainer(ContainerKind::MultiArch) =>
                "multi-architecture containers are not supported"@,
            InspectError::UnsupportedContainer(ContainerKind::Foreign) =>
                "container format is not supported"@,
            InspectError::SegmentNotFound => "could not find __TEXT segment"@,
            InspectError::SectionNotFound => "could not find __text section"@,
            InspectError::DecoderInitFailure => "failed to set up the instruction decoder"@,
            InspectError::DecodeFailure => "failed to disassemble instructions"@,
            InspectError::DetailUnavailable => "failed to get instruction detail"@,
            InspectError::NameResolutionFailure => "no name for a register or group id"@,
        }
    }

    /// The diagnostic text of this failure.
    pub fn message(&self) -> (text: &'static str)
        ensures
            text@ == self.message_text(),
    {
        match self {
            InspectError::MissingArgument => "missing argument: path of the image to inspect",
            InspectError::Malformed => "malformed container",
            InspectError::UnsupportedContainer(ContainerKind::MultiArch) =>
                "multi-architecture containers are not supported",
            InspectError::UnsupportedContainer(ContainerKind::Foreign) =>
                "container format is not supported",
            InspectError::SegmentNotFound => "could not find __TEXT segment",
            InspectError::SectionNotFound => "could not find __text section",
            InspectError::DecoderInitFailure => "failed to set up the instruction decoder",
            InspectError::DecodeFailure => "failed to disassemble instructions",
            InspectError::DetailUnavailable => "failed to get instruction detail",
            InspectError::NameResolutionFailure => "no name for a register or group id",
        }
    }
}

/// The path argument of a command line: the word after the program's name.
pub fn path_argument(args: &Vec<String>) -> (path: Result<&String, InspectError>)
    ensures
        args@.len() >= 2 ==> path == Ok::<&String, InspectError>(&args@[1]),
        args@.len() < 2 ==> path == Err::<&String, InspectError>(InspectError::MissingArgument),
{
    if args.len() >= 2 {
        Ok(&args[1])
    } else {
        Err(InspectError::MissingArgument)
    }
}

} // verus!
