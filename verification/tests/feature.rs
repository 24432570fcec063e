use momors_core::char_type::CharType;
use momors_core::feature::{FeatureKey, FeatureType};

#[test]
fn feature_type_repr_values() {
    assert_eq!(FeatureType::Bias.to_u8(), 0x00);
    assert_eq!(FeatureType::KanjiPosFirst.to_u8(), 0x01);
    assert_eq!(FeatureType::TypeSelf.to_u8(), 0x50);
    assert_eq!(FeatureType::TypeTransition.to_u8(), 0x60);
    assert_eq!(FeatureType::TypeTriPrev2Prev1Self.to_u8(), 0x70);
    assert_eq!(FeatureType::CharSelf.to_u8(), 0x90);
    assert_eq!(FeatureType::BigramPrev1Self.to_u8(), 0xA0);
    assert_eq!(FeatureType::TrigramPrev2Prev1Self.to_u8(), 0xB0);
    assert_eq!(FeatureType::KanjiRunLen.to_u8(), 0xC0);
    assert_eq!(FeatureType::PrevJapaneseNumericRunLen.to_u8(), 0xC2);
}

#[test]
fn from_u8_known_values() {
    assert_eq!(FeatureType::from_u8(0x00), Some(FeatureType::Bias));
    assert_eq!(FeatureType::from_u8(0x50), Some(FeatureType::TypeSelf));
    assert_eq!(FeatureType::from_u8(0xC2), Some(FeatureType::PrevJapaneseNumericRunLen));
}

#[test]
fn from_u8_compound_values() {
    assert_eq!(FeatureType::from_u8(0xA6), Some(FeatureType::CharSelfCompound2));
    assert_eq!(FeatureType::from_u8(0xB5), Some(FeatureType::CharSelfCompound3));
}

#[test]
fn from_u8_unknown_values() {
    assert_eq!(FeatureType::from_u8(0x02), None);
    assert_eq!(FeatureType::from_u8(0x57), None);
    assert_eq!(FeatureType::from_u8(0xFF), None);
    assert_eq!(FeatureType::from_u8(0xC6), None);
    assert_eq!(FeatureType::from_u8(0xB6), None);
}

#[test]
fn from_u8_name_flag_values() {
    assert_eq!(FeatureType::from_u8(0xC3), Some(FeatureType::NameFlagSelf));
    assert_eq!(FeatureType::from_u8(0xC4), Some(FeatureType::NameFlagPrev1));
    assert_eq!(FeatureType::from_u8(0xC5), Some(FeatureType::NameFlagNext1));
    assert!(FeatureType::NameFlagSelf.is_uint8_payload());
    assert!(FeatureType::NameFlagPrev1.is_uint8_payload());
    assert!(FeatureType::NameFlagNext1.is_uint8_payload());
}

#[test]
fn payload_counts() {
    assert_eq!(FeatureType::TypeSelf.chartype_count(), 1);
    assert_eq!(FeatureType::TypeTransition.chartype_count(), 2);
    assert_eq!(FeatureType::TypeTriPrev2Prev1Self.chartype_count(), 3);

    assert_eq!(FeatureType::CharSelf.char32_count(), 1);
    assert_eq!(FeatureType::BigramPrev1Self.char32_count(), 2);
    assert_eq!(FeatureType::CharSelfCompound2.char32_count(), 2);
    assert_eq!(FeatureType::TrigramPrev2Prev1Self.char32_count(), 3);
    assert_eq!(FeatureType::CharSelfCompound3.char32_count(), 3);

    assert!(FeatureType::KanjiRunLen.is_uint8_payload());
    assert!(FeatureType::JapaneseNumericRunLen.is_uint8_payload());
    assert!(!FeatureType::Bias.is_uint8_payload());

    assert_eq!(FeatureType::Bias.chartype_count(), 0);
    assert_eq!(FeatureType::Bias.char32_count(), 0);
    assert!(!FeatureType::Bias.is_uint8_payload());

    assert_eq!(FeatureType::TypeSelf.char32_count(), 0);
    assert_eq!(FeatureType::CharSelf.chartype_count(), 0);
}

#[test]
fn feature_key_default_is_bias_zero() {
    let k = FeatureKey::default();
    assert_eq!(k.feature_type, FeatureType::Bias);
    assert_eq!(k.u8val, 0);
    assert_eq!(k.ct, [CharType::Space, CharType::Space, CharType::Space]);
    assert_eq!(k.cp, [0, 0, 0]);
}

#[test]
fn feature_key_constructors() {
    let k = FeatureKey::no_payload(FeatureType::Bias);
    assert_eq!(k.feature_type, FeatureType::Bias);

    let k = FeatureKey::type_1(FeatureType::TypeSelf, CharType::Kanji);
    assert_eq!(k.ct[0], CharType::Kanji);
    assert_eq!(k.ct[1], CharType::Space);

    let k = FeatureKey::char_1(FeatureType::CharSelf, 0x4E00);
    assert_eq!(k.cp[0], 0x4E00);

    let k = FeatureKey::char_2(FeatureType::BigramPrev1Self, 0x4E00, 0x4E01);
    assert_eq!(k.cp, [0x4E00, 0x4E01, 0]);

    let k = FeatureKey::u8_payload(FeatureType::KanjiRunLen, 3);
    assert_eq!(k.u8val, 3);
}

#[test]
fn feature_key_equality() {
    let a = FeatureKey::char_1(FeatureType::CharSelf, 0x4E00);
    let b = FeatureKey::char_1(FeatureType::CharSelf, 0x4E00);
    let c = FeatureKey::char_1(FeatureType::CharSelf, 0x4E01);
    assert_eq!(a, b);
    assert_ne!(a, c);
}

#[test]
fn feature_key_ordering() {
    let a = FeatureKey::no_payload(FeatureType::Bias);
    let b = FeatureKey::type_1(FeatureType::TypeSelf, CharType::Kanji);
    assert!(a < b);

    let a = FeatureKey::char_1(FeatureType::CharSelf, 0x4E00);
    let b = FeatureKey::char_1(FeatureType::CharSelf, 0x4E01);
    assert!(a < b);
}

#[test]
fn type_and_char_constructors_fill_all_slots() {
    let k = FeatureKey::type_3(
        FeatureType::TypeTriPrev1SelfNext1,
        CharType::Kanji,
        CharType::Hiragana,
        CharType::Katakana,
    );
    assert_eq!(k.ct, [CharType::Kanji, CharType::Hiragana, CharType::Katakana]);
    let k = FeatureKey::char_3(FeatureType::TrigramPrev1SelfNext1, 1, 2, 3);
    assert_eq!(k.cp, [1, 2, 3]);
    let k = FeatureKey::type_2(FeatureType::TypeTransition, CharType::Alpha, CharType::Numeric);
    assert_eq!(k.ct, [CharType::Alpha, CharType::Numeric, CharType::Space]);
}
