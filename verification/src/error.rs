//! The error taxonomy of the codec and its caller-facing boundary.

use vstd::prelude::*;

verus! {

/// An error raised while building or encoding an icon.
///
/// The variants carrying a path string are raised at the boundary with the
/// orchestration layer and are passed through the codec unmodified.
#[derive(Debug, PartialEq, Eq)]
pub enum Error {
    /// A PNG input could not be decoded; holds the path and the cause.
    Decode(String, crate::image::decode::Error),

    /// The ICO output file already exists and overwriting was not requested.
    OutputExists(String),

    /// No PNG input file paths were found.
    NoInputPaths,

    /// A PNG input file does not exist.
    InputMissing(String),

    /// More than 65535 images were requested in one container.
    TooManyEntries,

    /// A directory entry field cannot be represented in its fixed-width slot.
    EncodeFailed,
}

} // verus!
