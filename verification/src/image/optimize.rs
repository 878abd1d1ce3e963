//! Optimizing images through the external recompression collaborator.
//!
//! The collaborator may return a smaller, semantically equivalent PNG
//! stream; its output is re-validated by the library's own reader before
//! it is accepted, since the chunk structure may have changed.

use vstd::prelude::*;

use crate::config::OptLevel;
use crate::image::{decode, parse_spec, Image, ImageModel};

verus! {

/// An error raised while optimizing an image.
#[derive(Debug, PartialEq, Eq)]
pub enum OptimizeError {
    /// The recompression collaborator failed; holds its message unchanged.
    Optimizer(String),

    /// The collaborator's output failed re-validation by the reader.
    Decode(decode::Error),
}

/// Relies on oxipng::optimize_from_memory: recompresses a PNG stream into
/// a semantically equivalent PNG stream, or reports why it could not.
/// Nothing is promised of the output bytes; callers re-validate them.
///
/// The zopfli flag selects the slower Zopfli deflater with its default
/// settings; fast evaluation trades output size for speed. The options
/// always start from maximum compression, optimize alpha values, and
/// strip all ancillary chunks.
#[verifier::external_body]
fn optimize_from_memory(data: &Vec<u8>, zopfli: bool, fast_evaluation: bool) -> (r: Result<
    Vec<u8>,
    String,
>) {
    let mut options = oxipng::Options::max_compression();
    options.optimize_alpha = true;
    options.strip = oxipng::StripChunks::All;
    if zopfli {
        options.deflater = oxipng::Deflater::Zopfli(oxipng::ZopfliOptions::default());
    }
    options.fast_evaluation = fast_evaluation;
    match oxipng::optimize_from_memory(data.as_slice(), &options) {
        Ok(optimized) => Ok(optimized),
        Err(error) => Err(error.to_string()),
    }
}

/// The deflater and evaluation settings a PNG optimization level selects:
/// whether to use the Zopfli deflater, and whether to evaluate filters
/// the fast way.
pub open spec fn spec_level_settings(level: OptLevel) -> (bool, bool) {
    match level {
        OptLevel::Low => (false, false),
        OptLevel::Medium => (true, true),
        OptLevel::High => (true, false),
    }
}

/// Returns the deflater and evaluation settings of a level.
fn level_settings(level: &OptLevel) -> (r: (bool, bool))
    ensures
        r == spec_level_settings(*level),
{
    match level {
        OptLevel::Low => (false, false),
        OptLevel::Medium => (true, true),
        OptLevel::High => (true, false),
    }
}

impl Image {
    /// Creates an optimized copy of the image using a PNG optimization
    /// level.
    ///
    /// The collaborator's output is accepted only after the reader
    /// re-validates it: a returned image always carries the metadata its
    /// own bytes parse to. A collaborator failure is surfaced unchanged;
    /// an output that fails re-validation is reported as such, never
    /// silently replaced by the unoptimized bytes.
    pub fn optimize(&self, opt_level: &OptLevel) -> (r: Result<Image, OptimizeError>)
        ensures
            match r {
                Ok(image) => parse_spec(image.data@) == Ok::<ImageModel, decode::Error>(image@),
                Err(_) => true,
            },
    {
        let (zopfli, fast_evaluation) = level_settings(opt_level);
        match optimize_from_memory(&self.data, zopfli, fast_evaluation) {
            Ok(optimized) => match Image::from_data(optimized) {
                Ok(image) => Ok(image),
                Err(error) => Err(OptimizeError::Decode(error)),
            },
            Err(message) => Err(OptimizeError::Optimizer(message)),
        }
    }
}

} // verus!
