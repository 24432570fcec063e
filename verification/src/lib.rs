//! Reading of Japanese text (kanji and kana) as katakana with word
//! boundaries, as braille transcription needs it.
//!
//! The library cuts the text into units, computes the feature keys of each
//! unit, looks them up in the model's vocabulary, and turns the model's
//! answers into readings by a set of rules (numerals, counters, kana, name
//! and custom dictionaries, brackets).

use vstd::prelude::*;

pub mod error;
pub mod text;
pub mod bytes;
pub mod loader;
pub mod boundary;
pub mod ensemble;
pub mod model;
pub mod float_model;
pub mod kanji_dict;
pub mod char_type;
pub mod bracket;
pub mod feature;
pub mod featurize;
pub mod numeric;
pub mod counter;
pub mod normalize;
pub mod name_dict;
pub mod custom_dict;
pub mod vocab;
pub mod reading;
pub mod decode;
pub mod prediction;
pub mod brackets;
pub mod segments;
pub mod phase;
pub mod diag;

pub use error::{Error, Result};

verus! {

} // verus!
