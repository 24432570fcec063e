use momors_core::bracket::{ASIDE_TOKEN, INLINE_CLOSE_TOKEN, INLINE_OPEN_TOKEN};
use momors_core::char_type::{get_char_type, CharType};

#[test]
fn repr_values_match_cpp() {
    assert_eq!(CharType::Space.to_u8(), 0x00);
    assert_eq!(CharType::Alpha.to_u8(), 0x10);
    assert_eq!(CharType::Numeric.to_u8(), 0x11);
    assert_eq!(CharType::Symbol.to_u8(), 0x30);
    assert_eq!(CharType::SymbolClose.to_u8(), 0x31);
    assert_eq!(CharType::SymbolOpen.to_u8(), 0x32);
    assert_eq!(CharType::SymbolStop.to_u8(), 0x33);
    assert_eq!(CharType::SymbolPause.to_u8(), 0x34);
    assert_eq!(CharType::Hiragana.to_u8(), 0x40);
    assert_eq!(CharType::Katakana.to_u8(), 0x41);
    assert_eq!(CharType::Kanji.to_u8(), 0x42);
    assert_eq!(CharType::JapaneseNumeric.to_u8(), 0x43);
    assert_eq!(CharType::Other.to_u8(), 0xFF);
}

#[test]
fn category_helpers() {
    assert!(CharType::Hiragana.is_japanese());
    assert!(CharType::Kanji.is_japanese());
    assert!(!CharType::Alpha.is_japanese());

    assert!(CharType::SymbolStop.is_symbol());
    assert!(!CharType::Hiragana.is_symbol());

    assert!(CharType::Alpha.is_latin());
    assert!(CharType::Numeric.is_latin());
    assert!(!CharType::Symbol.is_latin());
}

#[test]
fn space_is_bypass() {
    assert!(CharType::Space.is_bypass());
    assert!(!CharType::Numeric.is_bypass());
    assert!(!CharType::Hiragana.is_bypass());
}

#[test]
fn other_is_bypass() {
    assert!(CharType::Other.is_bypass());
}

#[test]
fn stop_and_pause_skip_boundary_check() {
    assert!(CharType::SymbolStop.skips_boundary_check());
    assert!(CharType::SymbolPause.skips_boundary_check());
}

#[test]
fn space_and_other_skip_boundary_check() {
    assert!(CharType::Space.skips_boundary_check());
    assert!(CharType::Other.skips_boundary_check());
}

#[test]
fn symbol_and_brackets_do_not_skip_boundary_check() {
    assert!(!CharType::Symbol.skips_boundary_check());
    assert!(!CharType::SymbolOpen.skips_boundary_check());
    assert!(!CharType::SymbolClose.skips_boundary_check());
}

#[test]
fn non_bypass_types_do_not_skip_boundary_check() {
    assert!(!CharType::Hiragana.skips_boundary_check());
    assert!(!CharType::Kanji.skips_boundary_check());
    assert!(!CharType::Alpha.skips_boundary_check());
}

#[test]
fn skip_chars() {
    assert_eq!(get_char_type('\u{200B}'), CharType::Skip);
    assert_eq!(get_char_type('\u{200D}'), CharType::Skip);
    assert_eq!(get_char_type('\u{2060}'), CharType::Skip);
    assert_eq!(get_char_type('\u{FEFF}'), CharType::Skip);
    assert!(CharType::Skip.is_skip());
    assert!(!CharType::Space.is_skip());
    assert!(!CharType::Other.is_skip());
}

#[test]
fn space_chars() {
    assert_eq!(get_char_type(' '), CharType::Space);
    assert_eq!(get_char_type('\t'), CharType::Space);
    assert_eq!(get_char_type('\n'), CharType::Space);
    assert_eq!(get_char_type('\u{00A0}'), CharType::Space);
    assert_eq!(get_char_type('\u{2003}'), CharType::Space);
    assert_eq!(get_char_type('\u{202F}'), CharType::Space);
    assert_eq!(get_char_type('\u{205F}'), CharType::Space);
    assert_eq!(get_char_type('\u{3000}'), CharType::Space);
}

#[test]
fn numeric_chars() {
    assert_eq!(get_char_type('0'), CharType::Numeric);
    assert_eq!(get_char_type('5'), CharType::Numeric);
    assert_eq!(get_char_type('9'), CharType::Numeric);
    assert_eq!(get_char_type('０'), CharType::Numeric);
    assert_eq!(get_char_type('９'), CharType::Numeric);
}

#[test]
fn alpha_chars() {
    assert_eq!(get_char_type('a'), CharType::Alpha);
    assert_eq!(get_char_type('Z'), CharType::Alpha);
    assert_eq!(get_char_type('Ａ'), CharType::Alpha);
    assert_eq!(get_char_type('ｚ'), CharType::Alpha);
}

#[test]
fn hiragana_katakana() {
    assert_eq!(get_char_type('あ'), CharType::Hiragana);
    assert_eq!(get_char_type('ん'), CharType::Hiragana);
    assert_eq!(get_char_type('ア'), CharType::Katakana);
    assert_eq!(get_char_type('ン'), CharType::Katakana);
    assert_eq!(get_char_type('ー'), CharType::Katakana);
}

#[test]
fn kanji_basic() {
    assert_eq!(get_char_type('漢'), CharType::Kanji);
    assert_eq!(get_char_type('字'), CharType::Kanji);
    assert_eq!(get_char_type('百'), CharType::Kanji);
    assert_eq!(get_char_type('花'), CharType::Kanji);
}

#[test]
fn japanese_numeric() {
    for c in "〇一二三四五六七八九".chars() {
        assert_eq!(get_char_type(c), CharType::JapaneseNumeric, "char: {c}");
    }
}

#[test]
fn symbol_subcategories() {
    assert_eq!(get_char_type('。'), CharType::SymbolStop);
    assert_eq!(get_char_type('！'), CharType::SymbolStop);
    assert_eq!(get_char_type('?'), CharType::SymbolStop);
    assert_eq!(get_char_type('.'), CharType::SymbolStop);

    assert_eq!(get_char_type('、'), CharType::SymbolPause);
    assert_eq!(get_char_type('・'), CharType::SymbolPause);
    assert_eq!(get_char_type(','), CharType::SymbolPause);

    assert_eq!(get_char_type('「'), CharType::SymbolOpen);
    assert_eq!(get_char_type('('), CharType::SymbolOpen);
    assert_eq!(get_char_type('（'), CharType::SymbolOpen);

    assert_eq!(get_char_type('」'), CharType::SymbolClose);
    assert_eq!(get_char_type(')'), CharType::SymbolClose);
    assert_eq!(get_char_type('）'), CharType::SymbolClose);

    assert_eq!(get_char_type('+'), CharType::Symbol);
    assert_eq!(get_char_type('='), CharType::Symbol);
}

#[test]
fn bracket_identity_tokens_classify_as_symbol_open_close() {
    assert_eq!(get_char_type(INLINE_OPEN_TOKEN), CharType::SymbolOpen);
    assert_eq!(get_char_type(INLINE_CLOSE_TOKEN), CharType::SymbolClose);
    assert_eq!(get_char_type(ASIDE_TOKEN), CharType::SymbolOpen);
}

#[test]
fn kanji_iteration_marks() {
    assert_eq!(get_char_type('々'), CharType::Kanji);
    assert_eq!(get_char_type('〻'), CharType::Kanji);
}

#[test]
fn other() {
    assert_eq!(get_char_type('🐕'), CharType::Other);
}

#[test]
fn kanji_extension_b() {
    assert_eq!(get_char_type('\u{20B9F}'), CharType::Kanji);
}

#[test]
fn kanji_extension_g_h() {
    assert_eq!(get_char_type('\u{30000}'), CharType::Kanji);
    assert_eq!(get_char_type('\u{323AF}'), CharType::Kanji);
}

#[test]
fn kanji_extension_gap_is_other() {
    assert_eq!(get_char_type('\u{2EE60}'), CharType::Other);
    assert_eq!(get_char_type('\u{2FFFF}'), CharType::Other);
}

#[test]
fn char_type_names_round_trip() {
    for t in [CharType::Space, CharType::Kanji, CharType::SymbolOpen, CharType::Other] {
        assert_eq!(CharType::from_name(t.as_str()), Some(t));
        assert_eq!(CharType::from_u8(t.to_u8()), Some(t));
    }
    assert_eq!(CharType::from_u8(0x77), None);
}
