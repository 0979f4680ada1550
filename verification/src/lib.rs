//! Read-only inspection of the executable code of a single-architecture
//! Mach-O image: locate the code section, decode it as AArch64 and report each
//! instruction with its register effects and groups.

pub mod names;
pub mod error;
pub mod region;
pub mod container;
pub mod text;
pub mod report;
pub mod decoder;
pub mod pipeline;
