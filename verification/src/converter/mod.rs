//! Converters between platform formats and the universal document model.
use crate::ir::{Platform, UniversalDocument};
use vstd::prelude::*;

pub mod github_markdown;
pub mod lark_sheets;
pub mod markdown;
pub mod markdown_frontmatter;
pub mod notion;

verus! {

/// Error of a conversion between a platform format and the universal model.
#[derive(Debug)]
pub enum ConverterError {
    UnsupportedPlatform(String),
    MissingField(String),
    InvalidData(String),
    ConversionFailed(String),
    IoError(String),
}

/// Conversion from a platform's format to the universal document model.
pub trait FromPlatform {
    /// The platform this converter reads.
    const PLATFORM: Platform;

    /// What the platform hands over (a page with its blocks, Markdown text,
    /// CSV text).
    type Input;

    /// Whether reading `input` succeeds.
    spec fn reads(input: Self::Input) -> bool;

    /// Whether `doc` is a document that `input` may be read as.
    spec fn reads_as(input: Self::Input, doc: UniversalDocument) -> bool;

    /// Converts platform input to a universal document.
    fn from_platform(input: Self::Input) -> (r: Result<UniversalDocument, ConverterError>)
        ensures
            r is Ok <==> Self::reads(input),
            r matches Ok(doc) ==> Self::reads_as(input, doc),
    ;
}

/// Conversion from the universal document model to a platform's format.
pub trait ToPlatform {
    /// The platform this converter writes.
    const PLATFORM: Platform;

    /// What the platform takes (a page-creation request, Markdown text, CSV
    /// text).
    type Output;

    /// Whether the converter is defined on `doc` at all.
    spec fn takes(doc: UniversalDocument) -> bool;

    /// Whether writing `doc` succeeds.
    spec fn writes(doc: UniversalDocument) -> bool;

    /// Converts a universal document to the platform's format.
    fn to_platform(doc: &UniversalDocument) -> (r: Result<Self::Output, ConverterError>)
        requires
            Self::takes(*doc),
        ensures
            r is Ok <==> Self::writes(*doc),
    ;
}

/// Reads `input` with `F` and writes the document with `T`, keeping
/// nothing: succeeds exactly when both conversions do.
pub fn roundtrip<F: FromPlatform, T: ToPlatform>(input: F::Input) -> (r: Result<(), ConverterError>)
    requires
        forall|d: UniversalDocument| #[trigger] F::reads_as(input, d) ==> T::takes(d),
    ensures
        r is Ok ==> F::reads(input),
        r is Ok ==> exists|d: UniversalDocument| #[trigger] F::reads_as(input, d) && T::writes(d),
        F::reads(input) && (forall|d: UniversalDocument| #[trigger] F::reads_as(input, d) ==> T::writes(d))
            ==> r is Ok,
{
    let ghost i = input;
    match F::from_platform(input) {
        Ok(ir) => {
            assert(F::reads_as(i, ir));
            match T::to_platform(&ir) {
                Ok(_) => Ok(()),
                Err(e) => Err(e),
            }
        },
        Err(e) => Err(e),
    }
}

/// [`roundtrip`], for tests that compare the two sides.
pub fn roundtrip_compare<F: FromPlatform, T: ToPlatform>(input: F::Input) -> (r: Result<(), ConverterError>)
    requires
        forall|d: UniversalDocument| #[trigger] F::reads_as(input, d) ==> T::takes(d),
    ensures
        r is Ok ==> F::reads(input),
        r is Ok ==> exists|d: UniversalDocument| #[trigger] F::reads_as(input, d) && T::writes(d),
        F::reads(input) && (forall|d: UniversalDocument| #[trigger] F::reads_as(input, d) ==> T::writes(d))
            ==> r is Ok,
{
    roundtrip::<F, T>(input)
}

} // verus!
