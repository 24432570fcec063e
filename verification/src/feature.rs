//! Feature types and feature keys of the reading and boundary models.
//!
//! The byte value of a [`FeatureType`] is a bit field that tells how its
//! payload is read:
//!
//! - bits 7–6: payload kind — `00` none, `01` `CharType` × N, `10` code point
//!   × N, `11` one byte;
//! - bits 5–4: N, the number of payload items (for the first two kinds).
//!
//! [`lemma_counts_are_bit_fields`] proves that the counts below agree with it.

use vstd::prelude::*;

use crate::char_type::CharType;

verus! {

/// Kind of a feature. The byte values are those of model files and must not
/// change.
#[derive(Debug, Clone, Copy, PartialEq, Eq, Structural, PartialOrd, Ord, Hash)]
pub enum FeatureType {
    /// No payload.
    Bias,
    /// First kanji of a kanji run.
    KanjiPosFirst,
    TypeSelf,
    TypePrev1,
    TypePrev2,
    TypeNext1,
    TypeNext2,
    TypePrev3,
    TypeNext3,
    TypeTransition,
    TypeTriPrev2Prev1Self,
    TypeTriPrev1SelfNext1,
    TypeTriSelfNext1Next2,
    TypeTriPrev3Prev2Prev1,
    TypeTriNext1Next2Next3,
    CharSelf,
    CharPrev1,
    CharPrev2,
    CharNext1,
    CharNext2,
    CharPrev3,
    CharNext3,
    BigramPrev1Self,
    BigramPrev2Prev1,
    BigramSelfNext1,
    BigramNext1Next2,
    BigramPrev3Prev2,
    BigramNext2Next3,
    /// Char_s of a two-character unit.
    CharSelfCompound2,
    TrigramPrev2Prev1Self,
    TrigramPrev1SelfNext1,
    TrigramSelfNext1Next2,
    TrigramPrev3Prev2Prev1,
    TrigramNext1Next2Next3,
    /// Char_s of a three-character unit.
    CharSelfCompound3,
    KanjiRunLen,
    JapaneseNumericRunLen,
    PrevJapaneseNumericRunLen,
    /// Name dictionary flag of the unit itself (1 = begin, 2 = inside).
    NameFlagSelf,
    /// Name dictionary flag of the previous unit.
    NameFlagPrev1,
    /// Name dictionary flag of the next unit.
    NameFlagNext1,
}

impl FeatureType {
    /// The byte value of the type in model files.
    pub open spec fn spec_value(self) -> u8 {
        match self {
            FeatureType::Bias => 0x00,
            FeatureType::KanjiPosFirst => 0x01,
            FeatureType::TypeSelf => 0x50,
            FeatureType::TypePrev1 => 0x51,
            FeatureType::TypePrev2 => 0x52,
            FeatureType::TypeNext1 => 0x53,
            FeatureType::TypeNext2 => 0x54,
            FeatureType::TypePrev3 => 0x55,
            FeatureType::TypeNext3 => 0x56,
            FeatureType::TypeTransition => 0x60,
            FeatureType::TypeTriPrev2Prev1Self => 0x70,
            FeatureType::TypeTriPrev1SelfNext1 => 0x71,
            FeatureType::TypeTriSelfNext1Next2 => 0x72,
            FeatureType::TypeTriPrev3Prev2Prev1 => 0x73,
            FeatureType::TypeTriNext1Next2Next3 => 0x74,
            FeatureType::CharSelf => 0x90,
            FeatureType::CharPrev1 => 0x91,
            FeatureType::CharPrev2 => 0x92,
            FeatureType::CharNext1 => 0x93,
            FeatureType::CharNext2 => 0x94,
            FeatureType::CharPrev3 => 0x95,
            FeatureType::CharNext3 => 0x96,
            FeatureType::BigramPrev1Self => 0xA0,
            FeatureType::BigramPrev2Prev1 => 0xA1,
            FeatureType::BigramSelfNext1 => 0xA2,
            FeatureType::BigramNext1Next2 => 0xA3,
            FeatureType::BigramPrev3Prev2 => 0xA4,
            FeatureType::BigramNext2Next3 => 0xA5,
            FeatureType::CharSelfCompound2 => 0xA6,
            FeatureType::TrigramPrev2Prev1Self => 0xB0,
            FeatureType::TrigramPrev1SelfNext1 => 0xB1,
            FeatureType::TrigramSelfNext1Next2 => 0xB2,
            FeatureType::TrigramPrev3Prev2Prev1 => 0xB3,
            FeatureType::TrigramNext1Next2Next3 => 0xB4,
            FeatureType::CharSelfCompound3 => 0xB5,
            FeatureType::KanjiRunLen => 0xC0,
            FeatureType::JapaneseNumericRunLen => 0xC1,
            FeatureType::PrevJapaneseNumericRunLen => 0xC2,
            FeatureType::NameFlagSelf => 0xC3,
            FeatureType::NameFlagPrev1 => 0xC4,
            FeatureType::NameFlagNext1 => 0xC5,
        }
    }

    /// Number of `CharType` values in the payload.
    pub open spec fn spec_chartype_count(self) -> nat {
        match self {
            FeatureType::TypeSelf => 1,
            FeatureType::TypePrev1 => 1,
            FeatureType::TypePrev2 => 1,
            FeatureType::TypeNext1 => 1,
            FeatureType::TypeNext2 => 1,
            FeatureType::TypePrev3 => 1,
            FeatureType::TypeNext3 => 1,
            FeatureType::TypeTransition => 2,
            FeatureType::TypeTriPrev2Prev1Self => 3,
            FeatureType::TypeTriPrev1SelfNext1 => 3,
            FeatureType::TypeTriSelfNext1Next2 => 3,
            FeatureType::TypeTriPrev3Prev2Prev1 => 3,
            FeatureType::TypeTriNext1Next2Next3 => 3,
            _ => 0,
        }
    }

    /// Number of code points in the payload.
    pub open spec fn spec_char32_count(self) -> nat {
        match self {
            FeatureType::CharSelf => 1,
            FeatureType::CharPrev1 => 1,
            FeatureType::CharPrev2 => 1,
            FeatureType::CharNext1 => 1,
            FeatureType::CharNext2 => 1,
            FeatureType::CharPrev3 => 1,
            FeatureType::CharNext3 => 1,
            FeatureType::BigramPrev1Self => 2,
            FeatureType::BigramPrev2Prev1 => 2,
            FeatureType::BigramSelfNext1 => 2,
            FeatureType::BigramNext1Next2 => 2,
            FeatureType::BigramPrev3Prev2 => 2,
            FeatureType::BigramNext2Next3 => 2,
            FeatureType::CharSelfCompound2 => 2,
            FeatureType::TrigramPrev2Prev1Self => 3,
            FeatureType::TrigramPrev1SelfNext1 => 3,
            FeatureType::TrigramSelfNext1Next2 => 3,
            FeatureType::TrigramPrev3Prev2Prev1 => 3,
            FeatureType::TrigramNext1Next2Next3 => 3,
            FeatureType::CharSelfCompound3 => 3,
            _ => 0,
        }
    }

    /// Whether the payload is one byte.
    pub open spec fn spec_is_uint8_payload(self) -> bool {
        match self {
            FeatureType::KanjiRunLen | FeatureType::JapaneseNumericRunLen | FeatureType::PrevJapaneseNumericRunLen | FeatureType::NameFlagSelf | FeatureType::NameFlagPrev1 | FeatureType::NameFlagNext1 => true,
            _ => false,
        }
    }

    /// The byte value of the type in model files.
    pub fn to_u8(self) -> (v: u8)
        ensures
            v == self.spec_value(),
    {
        match self {
            FeatureType::Bias => 0x00,
            FeatureType::KanjiPosFirst => 0x01,
            FeatureType::TypeSelf => 0x50,
            FeatureType::TypePrev1 => 0x51,
            FeatureType::TypePrev2 => 0x52,
            FeatureType::TypeNext1 => 0x53,
            FeatureType::TypeNext2 => 0x54,
            FeatureType::TypePrev3 => 0x55,
            FeatureType::TypeNext3 => 0x56,
            FeatureType::TypeTransition => 0x60,
            FeatureType::TypeTriPrev2Prev1Self => 0x70,
            FeatureType::TypeTriPrev1SelfNext1 => 0x71,
            FeatureType::TypeTriSelfNext1Next2 => 0x72,
            FeatureType::TypeTriPrev3Prev2Prev1 => 0x73,
            FeatureType::TypeTriNext1Next2Next3 => 0x74,
            FeatureType::CharSelf => 0x90,
            FeatureType::CharPrev1 => 0x91,
            FeatureType::CharPrev2 => 0x92,
            FeatureType::CharNext1 => 0x93,
            FeatureType::CharNext2 => 0x94,
            FeatureType::CharPrev3 => 0x95,
            FeatureType::CharNext3 => 0x96,
            FeatureType::BigramPrev1Self => 0xA0,
            FeatureType::BigramPrev2Prev1 => 0xA1,
            FeatureType::BigramSelfNext1 => 0xA2,
            FeatureType::BigramNext1Next2 => 0xA3,
            FeatureType::BigramPrev3Prev2 => 0xA4,
            FeatureType::BigramNext2Next3 => 0xA5,
            FeatureType::CharSelfCompound2 => 0xA6,
            FeatureType::TrigramPrev2Prev1Self => 0xB0,
            FeatureType::TrigramPrev1SelfNext1 => 0xB1,
            FeatureType::TrigramSelfNext1Next2 => 0xB2,
            FeatureType::TrigramPrev3Prev2Prev1 => 0xB3,
            FeatureType::TrigramNext1Next2Next3 => 0xB4,
            FeatureType::CharSelfCompound3 => 0xB5,
            FeatureType::KanjiRunLen => 0xC0,
            FeatureType::JapaneseNumericRunLen => 0xC1,
            FeatureType::PrevJapaneseNumericRunLen => 0xC2,
            FeatureType::NameFlagSelf => 0xC3,
            FeatureType::NameFlagPrev1 => 0xC4,
            FeatureType::NameFlagNext1 => 0xC5,
        }
    }

    /// Number of `CharType` values in the payload (`0x4_`–`0x7_` types only).
    pub fn chartype_count(self) -> (n: usize)
        ensures
            n == self.spec_chartype_count(),
    {
        match self {
            FeatureType::TypeSelf => 1,
            FeatureType::TypePrev1 => 1,
            FeatureType::TypePrev2 => 1,
            FeatureType::TypeNext1 => 1,
            FeatureType::TypeNext2 => 1,
            FeatureType::TypePrev3 => 1,
            FeatureType::TypeNext3 => 1,
            FeatureType::TypeTransition => 2,
            FeatureType::TypeTriPrev2Prev1Self => 3,
            FeatureType::TypeTriPrev1SelfNext1 => 3,
            FeatureType::TypeTriSelfNext1Next2 => 3,
            FeatureType::TypeTriPrev3Prev2Prev1 => 3,
            FeatureType::TypeTriNext1Next2Next3 => 3,
            _ => 0,
        }
    }

    /// Number of code points in the payload (`0x8_`–`0xB_` types only).
    pub fn char32_count(self) -> (n: usize)
        ensures
            n == self.spec_char32_count(),
    {
        match self {
            FeatureType::CharSelf => 1,
            FeatureType::CharPrev1 => 1,
            FeatureType::CharPrev2 => 1,
            FeatureType::CharNext1 => 1,
            FeatureType::CharNext2 => 1,
            FeatureType::CharPrev3 => 1,
            FeatureType::CharNext3 => 1,
            FeatureType::BigramPrev1Self => 2,
            FeatureType::BigramPrev2Prev1 => 2,
            FeatureType::BigramSelfNext1 => 2,
            FeatureType::BigramNext1Next2 => 2,
            FeatureType::BigramPrev3Prev2 => 2,
            FeatureType::BigramNext2Next3 => 2,
            FeatureType::CharSelfCompound2 => 2,
            FeatureType::TrigramPrev2Prev1Self => 3,
            FeatureType::TrigramPrev1SelfNext1 => 3,
            FeatureType::TrigramSelfNext1Next2 => 3,
            FeatureType::TrigramPrev3Prev2Prev1 => 3,
            FeatureType::TrigramNext1Next2Next3 => 3,
            FeatureType::CharSelfCompound3 => 3,
            _ => 0,
        }
    }

    /// Whether the payload is one byte (`0xC_` types).
    pub fn is_uint8_payload(self) -> (b: bool)
        ensures
            b == self.spec_is_uint8_payload(),
    {
        match self {
            FeatureType::KanjiRunLen | FeatureType::JapaneseNumericRunLen | FeatureType::PrevJapaneseNumericRunLen | FeatureType::NameFlagSelf | FeatureType::NameFlagPrev1 | FeatureType::NameFlagNext1 => true,
            _ => false,
        }
    }

    /// The type whose byte value is `v`; `None` for a value no type has.
    pub fn from_u8(v: u8) -> (r: Option<FeatureType>)
        ensures
            match r {
                Some(t) => t.spec_value() == v,
                None => forall|t: FeatureType| #[trigger] t.spec_value() != v,
            },
    {
        match v {
            0x00 => Some(FeatureType::Bias),
            0x01 => Some(FeatureType::KanjiPosFirst),
            0x50 => Some(FeatureType::TypeSelf),
            0x51 => Some(FeatureType::TypePrev1),
            0x52 => Some(FeatureType::TypePrev2),
            0x53 => Some(FeatureType::TypeNext1),
            0x54 => Some(FeatureType::TypeNext2),
            0x55 => Some(FeatureType::TypePrev3),
            0x56 => Some(FeatureType::TypeNext3),
            0x60 => Some(FeatureType::TypeTransition),
            0x70 => Some(FeatureType::TypeTriPrev2Prev1Self),
            0x71 => Some(FeatureType::TypeTriPrev1SelfNext1),
            0x72 => Some(FeatureType::TypeTriSelfNext1Next2),
            0x73 => Some(FeatureType::TypeTriPrev3Prev2Prev1),
            0x74 => Some(FeatureType::TypeTriNext1Next2Next3),
            0x90 => Some(FeatureType::CharSelf),
            0x91 => Some(FeatureType::CharPrev1),
            0x92 => Some(FeatureType::CharPrev2),
            0x93 => Some(FeatureType::CharNext1),
            0x94 => Some(FeatureType::CharNext2),
            0x95 => Some(FeatureType::CharPrev3),
            0x96 => Some(FeatureType::CharNext3),
            0xA0 => Some(FeatureType::BigramPrev1Self),
            0xA1 => Some(FeatureType::BigramPrev2Prev1),
            0xA2 => Some(FeatureType::BigramSelfNext1),
            0xA3 => Some(FeatureType::BigramNext1Next2),
            0xA4 => Some(FeatureType::BigramPrev3Prev2),
            0xA5 => Some(FeatureType::BigramNext2Next3),
            0xA6 => Some(FeatureType::CharSelfCompound2),
            0xB0 => Some(FeatureType::TrigramPrev2Prev1Self),
            0xB1 => Some(FeatureType::TrigramPrev1SelfNext1),
            0xB2 => Some(FeatureType::TrigramSelfNext1Next2),
            0xB3 => Some(FeatureType::TrigramPrev3Prev2Prev1),
            0xB4 => Some(FeatureType::TrigramNext1Next2Next3),
            0xB5 => Some(FeatureType::CharSelfCompound3),
            0xC0 => Some(FeatureType::KanjiRunLen),
            0xC1 => Some(FeatureType::JapaneseNumericRunLen),
            0xC2 => Some(FeatureType::PrevJapaneseNumericRunLen),
            0xC3 => Some(FeatureType::NameFlagSelf),
            0xC4 => Some(FeatureType::NameFlagPrev1),
            0xC5 => Some(FeatureType::NameFlagNext1),
            _ => None,
        }
    }

}

proof fn lemma_payload_bits(v: u8)
    by (bit_vector)
    ensures
        v == 0x00 ==> (v & 0xC0 == 0x40 ==> (v >> 4) & 3 == 0) && (v & 0xC0 == 0x80 ==> (v >> 4) & 3 == 0) && ((v & 0xC0 == 0x40) == false) && ((v & 0xC0 == 0x80) == false) && ((v & 0xC0 == 0xC0) == false),
        v == 0x01 ==> (v & 0xC0 == 0x40 ==> (v >> 4) & 3 == 0) && (v & 0xC0 == 0x80 ==> (v >> 4) & 3 == 0) && ((v & 0xC0 == 0x40) == false) && ((v & 0xC0 == 0x80) == false) && ((v & 0xC0 == 0xC0) == false),
        v == 0x50 ==> (v & 0xC0 == 0x40 ==> (v >> 4) & 3 == 1) && (v & 0xC0 == 0x80 ==> (v >> 4) & 3 == 0) && ((v & 0xC0 == 0x40) == true) && ((v & 0xC0 == 0x80) == false) && ((v & 0xC0 == 0xC0) == false),
        v == 0x51 ==> (v & 0xC0 == 0x40 ==> (v >> 4) & 3 == 1) && (v & 0xC0 == 0x80 ==> (v >> 4) & 3 == 0) && ((v & 0xC0 == 0x40) == true) && ((v & 0xC0 == 0x80) == false) && ((v & 0xC0 == 0xC0) == false),
        v == 0x52 ==> (v & 0xC0 == 0x40 ==> (v >> 4) & 3 == 1) && (v & 0xC0 == 0x80 ==> (v >> 4) & 3 == 0) && ((v & 0xC0 == 0x40) == true) && ((v & 0xC0 == 0x80) == false) && ((v & 0xC0 == 0xC0) == false),
        v == 0x53 ==> (v & 0xC0 == 0x40 ==> (v >> 4) & 3 == 1) && (v & 0xC0 == 0x80 ==> (v >> 4) & 3 == 0) && ((v & 0xC0 == 0x40) == true) && ((v & 0xC0 == 0x80) == false) && ((v & 0xC0 == 0xC0) == false),
        v == 0x54 ==> (v & 0xC0 == 0x40 ==> (v >> 4) & 3 == 1) && (v & 0xC0 == 0x80 ==> (v >> 4) & 3 == 0) && ((v & 0xC0 == 0x40) == true) && ((v & 0xC0 == 0x80) == false) && ((v & 0xC0 == 0xC0) == false),
        v == 0x55 ==> (v & 0xC0 == 0x40 ==> (v >> 4) & 3 == 1) && (v & 0xC0 == 0x80 ==> (v >> 4) & 3 == 0) && ((v & 0xC0 == 0x40) == true) && ((v & 0xC0 == 0x80) == false) && ((v & 0xC0 == 0xC0) == false),
        v == 0x56 ==> (v & 0xC0 == 0x40 ==> (v >> 4) & 3 == 1) && (v & 0xC0 == 0x80 ==> (v >> 4) & 3 == 0) && ((v & 0xC0 == 0x40) == true) && ((v & 0xC0 == 0x80) == false) && ((v & 0xC0 == 0xC0) == false),
        v == 0x60 ==> (v & 0xC0 == 0x40 ==> (v >> 4) & 3 == 2) && (v & 0xC0 == 0x80 ==> (v >> 4) & 3 == 0) && ((v & 0xC0 == 0x40) == true) && ((v & 0xC0 == 0x80) == false) && ((v & 0xC0 == 0xC0) == false),
        v == 0x70 ==> (v & 0xC0 == 0x40 ==> (v >> 4) & 3 == 3) && (v & 0xC0 == 0x80 ==> (v >> 4) & 3 == 0) && ((v & 0xC0 == 0x40) == true) && ((v & 0xC0 == 0x80) == false) && ((v & 0xC0 == 0xC0) == false),
        v == 0x71 ==> (v & 0xC0 == 0x40 ==> (v >> 4) & 3 == 3) && (v & 0xC0 == 0x80 ==> (v >> 4) & 3 == 0) && ((v & 0xC0 == 0x40) == true) && ((v & 0xC0 == 0x80) == false) && ((v & 0xC0 == 0xC0) == false),
        v == 0x72 ==> (v & 0xC0 == 0x40 ==> (v >> 4) & 3 == 3) && (v & 0xC0 == 0x80 ==> (v >> 4) & 3 == 0) && ((v & 0xC0 == 0x40) == true) && ((v & 0xC0 == 0x80) == false) && ((v & 0xC0 == 0xC0) == false),
        v == 0x73 ==> (v & 0xC0 == 0x40 ==> (v >> 4) & 3 == 3) && (v & 0xC0 == 0x80 ==> (v >> 4) & 3 == 0) && ((v & 0xC0 == 0x40) == true) && ((v & 0xC0 == 0x80) == false) && ((v & 0xC0 == 0xC0) == false),
        v == 0x74 ==> (v & 0xC0 == 0x40 ==> (v >> 4) & 3 == 3) && (v & 0xC0 == 0x80 ==> (v >> 4) & 3 == 0) && ((v & 0xC0 == 0x40) == true) && ((v & 0xC0 == 0x80) == false) && ((v & 0xC0 == 0xC0) == false),
        v == 0x90 ==> (v & 0xC0 == 0x40 ==> (v >> 4) & 3 == 0) && (v & 0xC0 == 0x80 ==> (v >> 4) & 3 == 1) && ((v & 0xC0 == 0x40) == false) && ((v & 0xC0 == 0x80) == true) && ((v & 0xC0 == 0xC0) == false),
        v == 0x91 ==> (v & 0xC0 == 0x40 ==> (v >> 4) & 3 == 0) && (v & 0xC0 == 0x80 ==> (v >> 4) & 3 == 1) && ((v & 0xC0 == 0x40) == false) && ((v & 0xC0 == 0x80) == true) && ((v & 0xC0 == 0xC0) == false),
        v == 0x92 ==> (v & 0xC0 == 0x40 ==> (v >> 4) & 3 == 0) && (v & 0xC0 == 0x80 ==> (v >> 4) & 3 == 1) && ((v & 0xC0 == 0x40) == false) && ((v & 0xC0 == 0x80) == true) && ((v & 0xC0 == 0xC0) == false),
        v == 0x93 ==> (v & 0xC0 == 0x40 ==> (v >> 4) & 3 == 0) && (v & 0xC0 == 0x80 ==> (v >> 4) & 3 == 1) && ((v & 0xC0 == 0x40) == false) && ((v & 0xC0 == 0x80) == true) && ((v & 0xC0 == 0xC0) == false),
        v == 0x94 ==> (v & 0xC0 == 0x40 ==> (v >> 4) & 3 == 0) && (v & 0xC0 == 0x80 ==> (v >> 4) & 3 == 1) && ((v & 0xC0 == 0x40) == false) && ((v & 0xC0 == 0x80) == true) && ((v & 0xC0 == 0xC0) == false),
        v == 0x95 ==> (v & 0xC0 == 0x40 ==> (v >> 4) & 3 == 0) && (v & 0xC0 == 0x80 ==> (v >> 4) & 3 == 1) && ((v & 0xC0 == 0x40) == false) && ((v & 0xC0 == 0x80) == true) && ((v & 0xC0 == 0xC0) == false),
        v == 0x96 ==> (v & 0xC0 == 0x40 ==> (v >> 4) & 3 == 0) && (v & 0xC0 == 0x80 ==> (v >> 4) & 3 == 1) && ((v & 0xC0 == 0x40) == false) && ((v & 0xC0 == 0x80) == true) && ((v & 0xC0 == 0xC0) == false),
        v == 0xA0 ==> (v & 0xC0 == 0x40 ==> (v >> 4) & 3 == 0) && (v & 0xC0 == 0x80 ==> (v >> 4) & 3 == 2) && ((v & 0xC0 == 0x40) == false) && ((v & 0xC0 == 0x80) == true) && ((v & 0xC0 == 0xC0) == false),
        v == 0xA1 ==> (v & 0xC0 == 0x40 ==> (v >> 4) & 3 == 0) && (v & 0xC0 == 0x80 ==> (v >> 4) & 3 == 2) && ((v & 0xC0 == 0x40) == false) && ((v & 0xC0 == 0x80) == true) && ((v & 0xC0 == 0xC0) == false),
        v == 0xA2 ==> (v & 0xC0 == 0x40 ==> (v >> 4) & 3 == 0) && (v & 0xC0 == 0x80 ==> (v >> 4) & 3 == 2) && ((v & 0xC0 == 0x40) == false) && ((v & 0xC0 == 0x80) == true) && ((v & 0xC0 == 0xC0) == false),
        v == 0xA3 ==> (v & 0xC0 == 0x40 ==> (v >> 4) & 3 == 0) && (v & 0xC0 == 0x80 ==> (v >> 4) & 3 == 2) && ((v & 0xC0 == 0x40) == false) && ((v & 0xC0 == 0x80) == true) && ((v & 0xC0 == 0xC0) == false),
        v == 0xA4 ==> (v & 0xC0 == 0x40 ==> (v >> 4) & 3 == 0) && (v & 0xC0 == 0x80 ==> (v >> 4) & 3 == 2) && ((v & 0xC0 == 0x40) == false) && ((v & 0xC0 == 0x80) == true) && ((v & 0xC0 == 0xC0) == false),
        v == 0xA5 ==> (v & 0xC0 == 0x40 ==> (v >> 4) & 3 == 0) && (v & 0xC0 == 0x80 ==> (v >> 4) & 3 == 2) && ((v & 0xC0 == 0x40) == false) && ((v & 0xC0 == 0x80) == true) && ((v & 0xC0 == 0xC0) == false),
        v == 0xA6 ==> (v & 0xC0 == 0x40 ==> (v >> 4) & 3 == 0) && (v & 0xC0 == 0x80 ==> (v >> 4) & 3 == 2) && ((v & 0xC0 == 0x40) == false) && ((v & 0xC0 == 0x80) == true) && ((v & 0xC0 == 0xC0) == false),
        v == 0xB0 ==> (v & 0xC0 == 0x40 ==> (v >> 4) & 3 == 0) && (v & 0xC0 == 0x80 ==> (v >> 4) & 3 == 3) && ((v & 0xC0 == 0x40) == false) && ((v & 0xC0 == 0x80) == true) && ((v & 0xC0 == 0xC0) == false),
        v == 0xB1 ==> (v & 0xC0 == 0x40 ==> (v >> 4) & 3 == 0) && (v & 0xC0 == 0x80 ==> (v >> 4) & 3 == 3) && ((v & 0xC0 == 0x40) == false) && ((v & 0xC0 == 0x80) == true) && ((v & 0xC0 == 0xC0) == false),
        v == 0xB2 ==> (v & 0xC0 == 0x40 ==> (v >> 4) & 3 == 0) && (v & 0xC0 == 0x80 ==> (v >> 4) & 3 == 3) && ((v & 0xC0 == 0x40) == false) && ((v & 0xC0 == 0x80) == true) && ((v & 0xC0 == 0xC0) == false),
        v == 0xB3 ==> (v & 0xC0 == 0x40 ==> (v >> 4) & 3 == 0) && (v & 0xC0 == 0x80 ==> (v >> 4) & 3 == 3) && ((v & 0xC0 == 0x40) == false) && ((v & 0xC0 == 0x80) == true) && ((v & 0xC0 == 0xC0) == false),
        v == 0xB4 ==> (v & 0xC0 == 0x40 ==> (v >> 4) & 3 == 0) && (v & 0xC0 == 0x80 ==> (v >> 4) & 3 == 3) && ((v & 0xC0 == 0x40) == false) && ((v & 0xC0 == 0x80) == true) && ((v & 0xC0 == 0xC0) == false),
        v == 0xB5 ==> (v & 0xC0 == 0x40 ==> (v >> 4) & 3 == 0) && (v & 0xC0 == 0x80 ==> (v >> 4) & 3 == 3) && ((v & 0xC0 == 0x40) == false) && ((v & 0xC0 == 0x80) == true) && ((v & 0xC0 == 0xC0) == false),
        v == 0xC0 ==> (v & 0xC0 == 0x40 ==> (v >> 4) & 3 == 0) && (v & 0xC0 == 0x80 ==> (v >> 4) & 3 == 0) && ((v & 0xC0 == 0x40) == false) && ((v & 0xC0 == 0x80) == false) && ((v & 0xC0 == 0xC0) == true),
        v == 0xC1 ==> (v & 0xC0 == 0x40 ==> (v >> 4) & 3 == 0) && (v & 0xC0 == 0x80 ==> (v >> 4) & 3 == 0) && ((v & 0xC0 == 0x40) == false) && ((v & 0xC0 == 0x80) == false) && ((v & 0xC0 == 0xC0) == true),
        v == 0xC2 ==> (v & 0xC0 == 0x40 ==> (v >> 4) & 3 == 0) && (v & 0xC0 == 0x80 ==> (v >> 4) & 3 == 0) && ((v & 0xC0 == 0x40) == false) && ((v & 0xC0 == 0x80) == false) && ((v & 0xC0 == 0xC0) == true),
        v == 0xC3 ==> (v & 0xC0 == 0x40 ==> (v >> 4) & 3 == 0) && (v & 0xC0 == 0x80 ==> (v >> 4) & 3 == 0) && ((v & 0xC0 == 0x40) == false) && ((v & 0xC0 == 0x80) == false) && ((v & 0xC0 == 0xC0) == true),
        v == 0xC4 ==> (v & 0xC0 == 0x40 ==> (v >> 4) & 3 == 0) && (v & 0xC0 == 0x80 ==> (v >> 4) & 3 == 0) && ((v & 0xC0 == 0x40) == false) && ((v & 0xC0 == 0x80) == false) && ((v & 0xC0 == 0xC0) == true),
        v == 0xC5 ==> (v & 0xC0 == 0x40 ==> (v >> 4) & 3 == 0) && (v & 0xC0 == 0x80 ==> (v >> 4) & 3 == 0) && ((v & 0xC0 == 0x40) == false) && ((v & 0xC0 == 0x80) == false) && ((v & 0xC0 == 0xC0) == true),
{
}

/// The payload counts are the bit fields of the byte value: a type with
/// payload kind `01` has `(v >> 4) & 3` character classes, one with kind `10`
/// has that many code points, and kind `11` is the one-byte payload.
/// Distinct feature types have distinct byte values.
pub proof fn lemma_feature_value_injective(a: FeatureType, b: FeatureType)
    ensures
        a.spec_value() == b.spec_value() ==> a == b,
{
}

/// A feature type has one kind of payload at most, of three items at most.
pub proof fn lemma_counts_exclusive(ft: FeatureType)
    ensures
        ft.spec_char32_count() <= 3,
        ft.spec_chartype_count() <= 3,
        ft.spec_char32_count() > 0 ==> ft.spec_chartype_count() == 0
            && !ft.spec_is_uint8_payload(),
        ft.spec_chartype_count() > 0 ==> !ft.spec_is_uint8_payload(),
{
}

pub proof fn lemma_counts_are_bit_fields(ft: FeatureType)
    ensures
        ft.spec_chartype_count() == (if ft.spec_value() & 0xC0 == 0x40 {
            ((ft.spec_value() >> 4) & 3) as nat
        } else {
            0
        }),
        ft.spec_char32_count() == (if ft.spec_value() & 0xC0 == 0x80 {
            ((ft.spec_value() >> 4) & 3) as nat
        } else {
            0
        }),
        ft.spec_is_uint8_payload() == (ft.spec_value() & 0xC0 == 0xC0),
{
    lemma_payload_bits(ft.spec_value());
}

/// Lookup key of a feature: its type and its payload. Unused payload slots are
/// zero (`Space` for classes, `0` for code points and the byte).
#[derive(Debug, Clone, Copy, PartialEq, Eq, PartialOrd, Ord, Hash)]
pub struct FeatureKey {
    pub feature_type: FeatureType,
    pub u8val: u8,
    pub ct: [CharType; 3],
    pub cp: [u32; 3],
}

impl FeatureKey {
    /// The key of type `ft` whose payload is all zero.
    pub open spec fn spec_zero(ft: FeatureType) -> FeatureKey {
        FeatureKey {
            feature_type: ft,
            u8val: 0,
            ct: [CharType::Space, CharType::Space, CharType::Space],
            cp: [0, 0, 0],
        }
    }

    /// The key of type `ft` with one class.
    pub open spec fn spec_type_1(ft: FeatureType, ct: CharType) -> FeatureKey {
        FeatureKey { ct: [ct, CharType::Space, CharType::Space], ..FeatureKey::spec_zero(ft) }
    }

    /// The key of type `ft` with two classes.
    pub open spec fn spec_type_2(ft: FeatureType, ct0: CharType, ct1: CharType) -> FeatureKey {
        FeatureKey { ct: [ct0, ct1, CharType::Space], ..FeatureKey::spec_zero(ft) }
    }

    /// The key of type `ft` with three classes.
    pub open spec fn spec_type_3(ft: FeatureType, ct0: CharType, ct1: CharType, ct2: CharType) -> FeatureKey {
        FeatureKey { ct: [ct0, ct1, ct2], ..FeatureKey::spec_zero(ft) }
    }

    /// The key of type `ft` with one code point.
    pub open spec fn spec_char_1(ft: FeatureType, cp: u32) -> FeatureKey {
        FeatureKey { cp: [cp, 0, 0], ..FeatureKey::spec_zero(ft) }
    }

    /// The key of type `ft` with two code points.
    pub open spec fn spec_char_2(ft: FeatureType, cp0: u32, cp1: u32) -> FeatureKey {
        FeatureKey { cp: [cp0, cp1, 0], ..FeatureKey::spec_zero(ft) }
    }

    /// The key of type `ft` with three code points.
    pub open spec fn spec_char_3(ft: FeatureType, cp0: u32, cp1: u32, cp2: u32) -> FeatureKey {
        FeatureKey { cp: [cp0, cp1, cp2], ..FeatureKey::spec_zero(ft) }
    }

    /// The key of type `ft` with a one-byte payload.
    pub open spec fn spec_u8(ft: FeatureType, val: u8) -> FeatureKey {
        FeatureKey { u8val: val, ..FeatureKey::spec_zero(ft) }
    }

    /// A key without payload (`Bias`, `KanjiPosFirst`).
    pub fn no_payload(feature_type: FeatureType) -> (k: FeatureKey)
        requires
            feature_type.spec_chartype_count() == 0,
            feature_type.spec_char32_count() == 0,
            !feature_type.spec_is_uint8_payload(),
        ensures
            k == FeatureKey::spec_zero(feature_type),
    {
        FeatureKey {
            feature_type,
            u8val: 0,
            ct: [CharType::Space, CharType::Space, CharType::Space],
            cp: [0, 0, 0],
        }
    }

    /// The key of type `ft` whose payload is all zero, for any type.
    pub fn no_payload_of(ft: FeatureType) -> (k: FeatureKey)
        ensures
            k == FeatureKey::spec_zero(ft),
    {
        FeatureKey {
            feature_type: ft,
            u8val: 0,
            ct: [CharType::Space, CharType::Space, CharType::Space],
            cp: [0, 0, 0],
        }
    }

    /// A key with one character class (`TypeSelf`, ...).
    pub fn type_1(feature_type: FeatureType, ct: CharType) -> (k: FeatureKey)
        requires
            feature_type.spec_chartype_count() == 1,
        ensures
            k == FeatureKey::spec_type_1(feature_type, ct),
    {
        FeatureKey {
            feature_type,
            u8val: 0,
            ct: [ct, CharType::Space, CharType::Space],
            cp: [0, 0, 0],
        }
    }

    /// A key with two character classes (`TypeTransition`).
    pub fn type_2(feature_type: FeatureType, ct0: CharType, ct1: CharType) -> (k: FeatureKey)
        requires
            feature_type.spec_chartype_count() == 2,
        ensures
            k == FeatureKey::spec_type_2(feature_type, ct0, ct1),
    {
        FeatureKey {
            feature_type,
            u8val: 0,
            ct: [ct0, ct1, CharType::Space],
            cp: [0, 0, 0],
        }
    }

    /// A key with three character classes (`TypeTri*`).
    pub fn type_3(feature_type: FeatureType, ct0: CharType, ct1: CharType, ct2: CharType) -> (k:
        FeatureKey)
        requires
            feature_type.spec_chartype_count() == 3,
        ensures
            k == FeatureKey::spec_type_3(feature_type, ct0, ct1, ct2),
    {
        FeatureKey { feature_type, u8val: 0, ct: [ct0, ct1, ct2], cp: [0, 0, 0] }
    }

    /// A key with one code point (`CharSelf`, ...).
    pub fn char_1(feature_type: FeatureType, cp: u32) -> (k: FeatureKey)
        requires
            feature_type.spec_char32_count() == 1,
        ensures
            k == FeatureKey::spec_char_1(feature_type, cp),
    {
        FeatureKey {
            feature_type,
            u8val: 0,
            ct: [CharType::Space, CharType::Space, CharType::Space],
            cp: [cp, 0, 0],
        }
    }

    /// A key with two code points (bigrams, two-character units).
    pub fn char_2(feature_type: FeatureType, cp0: u32, cp1: u32) -> (k: FeatureKey)
        requires
            feature_type.spec_char32_count() == 2,
        ensures
            k == FeatureKey::spec_char_2(feature_type, cp0, cp1),
    {
        FeatureKey {
            feature_type,
            u8val: 0,
            ct: [CharType::Space, CharType::Space, CharType::Space],
            cp: [cp0, cp1, 0],
        }
    }

    /// A key with three code points (trigrams, three-character units).
    pub fn char_3(feature_type: FeatureType, cp0: u32, cp1: u32, cp2: u32) -> (k: FeatureKey)
        requires
            feature_type.spec_char32_count() == 3,
        ensures
            k == FeatureKey::spec_char_3(feature_type, cp0, cp1, cp2),
    {
        FeatureKey {
            feature_type,
            u8val: 0,
            ct: [CharType::Space, CharType::Space, CharType::Space],
            cp: [cp0, cp1, cp2],
        }
    }

    /// A key with a one-byte payload (run lengths, name flags).
    pub fn u8_payload(feature_type: FeatureType, val: u8) -> (k: FeatureKey)
        requires
            feature_type.spec_is_uint8_payload(),
        ensures
            k == FeatureKey::spec_u8(feature_type, val),
    {
        FeatureKey {
            feature_type,
            u8val: val,
            ct: [CharType::Space, CharType::Space, CharType::Space],
            cp: [0, 0, 0],
        }
    }
}

impl Default for FeatureType {
    /// `Bias`, the type whose byte value is zero.
    fn default() -> (t: FeatureType)
        ensures
            t == FeatureType::Bias,
    {
        FeatureType::Bias
    }
}

impl Default for FeatureKey {
    /// The zero key: `Bias` with an all-zero payload.
    fn default() -> (k: FeatureKey)
        ensures
            k == FeatureKey::spec_zero(FeatureType::Bias),
    {
        FeatureKey {
            feature_type: FeatureType::Bias,
            u8val: 0,
            ct: [CharType::Space, CharType::Space, CharType::Space],
            cp: [0, 0, 0],
        }
    }
}

} // verus!
