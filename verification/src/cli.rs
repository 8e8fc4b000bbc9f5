//! The configuration surface the pipeline consumes. Parsing and validating
//! command-line input happens outside the library; these types carry the
//! parsed values.

use vstd::prelude::*;

verus! {

/// The file output formats a run can be asked to write.
#[derive(Clone, Copy, Debug, PartialEq, Eq, Structural)]
pub enum OutputFormat {
    Txt,
    Html,
    Ansi,
}

/// A run's settings: the input path, the character grid dimensions, and
/// the rendering options.
#[derive(Clone, Debug)]
pub struct Args {
    /// Path to the input image file.
    pub image: String,
    /// Output width in characters.
    pub width: u32,
    /// Output height in characters; overrides the aspect-corrected value.
    pub height: Option<u32>,
    /// Enable colored output.
    pub color: bool,
    /// File format to write in addition to the terminal output.
    pub output: Option<OutputFormat>,
    /// Apply Sobel edge detection before conversion.
    pub edges: bool,
    /// Edge detection threshold.
    pub edge_threshold: u8,
}

} // verus!
