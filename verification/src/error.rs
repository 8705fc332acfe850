//! Typed errors for terminal rendering.
//!
//! Every fallible operation of the library returns [`Result`]. Outside failures keep their own
//! error values; bounded allocations and layout failures carry the context that was
//! exceeded.

use vstd::prelude::*;

verus! {

#[verifier::external_type_specification]
#[verifier::external_body]
pub struct ExMermanCoreError(merman_core::Error);

#[verifier::external_type_specification]
#[verifier::external_body]
pub struct ExSerdeJsonError(serde_json::Error);

#[verifier::external_type_specification]
#[verifier::external_body]
pub struct ExAsciiError(merman_ascii::AsciiError);

/// Every error that rendering can report.
#[non_exhaustive]
#[derive(Debug)]
#[allow(inconsistent_fields)]
pub enum MermansiError {
    /// A Mermaid parse error reported by the parser.
    Parse(merman_core::Error),
    /// A source recognized as raw JSON could not be decoded.
    JsonSource { source: serde_json::Error },
    /// A render error reported by the terminal renderer of the parser family.
    AsciiRender(merman_ascii::AsciiError),
    /// A typed semantic model could not be encoded for structured terminal output.
    StructuredSerialization(serde_json::Error),
    /// The diagram family is not supported.
    UnsupportedFamily { family: String },
    /// A source, canvas, or output allocation exceeded its bounded limit.
    RenderLimit { context: &'static str, requested: usize, limit: usize },
    /// A canvas dimension overflowed.
    CanvasOverflow { requested: usize, max: usize },
    /// A parsed semantic model could not be arranged as terminal geometry.
    GeometryLayout { family: &'static str, message: String },
    /// A zero-width grapheme could not be attached to a preceding canvas grapheme.
    CanvasGrapheme { message: &'static str },
    /// An invalid option was supplied.
    InvalidOption { field: &'static str, message: &'static str },
}

/// The result type of every fallible operation of the library.
pub type Result<T> = std::result::Result<T, MermansiError>;

} // verus!
