//! The errors of the library.

use vstd::prelude::*;

verus! {

/// What can go wrong while loading a model or a dictionary.
#[derive(Debug, Clone, PartialEq, Eq)]
#[non_exhaustive]
pub enum Error {
    /// The model file could not be opened or read.
    ModelIo { path: String },
    /// The model file does not start with the magic bytes "MOMO".
    InvalidMagic { path: String },
    /// The model file has a version this library does not read.
    UnsupportedVersion { version: u8 },
    /// A feature type byte of the model file names no feature type.
    InvalidFeatureType { value: u8 },
    /// A character class byte of the model file names no class.
    InvalidCharType { value: u8 },
    /// A string of the model file is not valid UTF-8.
    InvalidLabelUtf8,
    /// The model file is malformed (truncated, inconsistent counts, ...).
    CorruptModel { reason: String },
    /// The kanji dictionary file could not be opened or read.
    DictIo { path: String },
    /// Prediction failed.
    Prediction { reason: String },
    /// The custom dictionary file could not be opened or read.
    CustomDictIo { path: String },
    /// The custom dictionary is malformed (boundary markers at an edge,
    /// unit count mismatch, ...).
    InvalidCustomDict { reason: String },
}

/// A `Result` whose error is [`Error`].
pub type Result<T> = core::result::Result<T, Error>;

/// `e` is the error of a malformed model, for the reason `r`.
pub open spec fn spec_corrupt_with(e: Error, r: Seq<char>) -> bool {
    e matches Error::CorruptModel { reason } && reason@ == r
}

/// The error of a malformed model, with the reason given.
pub fn corrupt(reason: &str) -> (e: Error)
    ensures
        spec_corrupt_with(e, reason@),
{
    Error::CorruptModel { reason: reason.to_owned() }
}

/// The error of a malformed custom dictionary, with the reason given.
pub fn invalid_custom_dict(reason: &str) -> (e: Error)
    ensures
        e matches Error::InvalidCustomDict { reason: r } && r@ == reason@,
{
    Error::InvalidCustomDict { reason: reason.to_owned() }
}

} // verus!
