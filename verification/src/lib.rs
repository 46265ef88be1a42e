//! Build-time code-generation core: a token model with a cursor, an
//! enum/section extractor, an identifier case transformer, a deterministic
//! height allocator and structured definition builders for the generated
//! source fragments.

pub mod arrays;
pub mod case;
pub mod color;
pub mod emit;
pub mod enums;
pub mod extract;
pub mod height;
pub mod sections;
pub mod text;
pub mod token;
pub mod tools;

use vstd::prelude::*;

verus! {

/// The error taxonomy of the generation pass.
///
/// Every structural error aborts the whole pass; `OutOfRangeIndex` is the one
/// kind that also describes the runtime behaviour of a generated conversion.
#[derive(Clone, Copy, Debug, PartialEq, Eq, Structural)]
pub enum GenError {
    /// A token did not match the expected shape or kind.
    UnexpectedToken,
    /// A required section keyword or the `enum` keyword never appeared.
    MissingKeyword,
    /// A bracketed group was expected but something else was found.
    MissingGroup,
    /// An index-to-variant conversion was given an index outside `[0, count)`.
    OutOfRangeIndex,
    /// A companion documentation file or asset directory is absent.
    ExternalResourceMissing,
}

/// One generated match arm: a variant identifier mapped to the literal
/// text computed for it.
#[derive(Debug)]
pub struct Arm {
    pub ident: String,
    pub text: String,
}

} // verus!
