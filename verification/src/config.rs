//! Configuration data for Pico.

use vstd::prelude::*;

verus! {

/// Configuration data for Pico.
///
/// The orchestration layer parses command line arguments outside the
/// library and hands the result over as plain values; paths travel as
/// strings.
pub struct Config {
    /// The paths to the PNG input files and directories.
    pub input_paths: Vec<String>,

    /// The path to the ICO output file.
    pub output_path: String,

    /// Whether to sort ICO entries by descending resolution.
    pub sort_entries: bool,

    /// Whether to overwrite an existing ICO output file.
    pub overwrite_output: bool,
}

/// A PNG optimization level.
#[derive(Debug, Clone, Copy, PartialEq, Eq, Structural)]
pub enum OptLevel {
    /// Fast recompression: the standard deflater, no extra evaluation.
    Low,

    /// Thorough recompression with fast filter evaluation.
    Medium,

    /// Thorough recompression with full filter evaluation.
    High,
}

} // verus!
