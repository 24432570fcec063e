use momors_core::char_type::CharType;
use momors_core::featurize::SourceEntry;
use momors_core::reading::{
    hiragana_direct, is_counter_small_kana, is_small_kana, is_valid_kana_prediction,
    is_valid_repeat, katakana_passthrough, small_kana_to_kana, DecisionSource,
};

#[test]
fn is_small_kana_works() {
    for c in "ぁぃぅぇぉっゃゅょゎ".chars() {
        assert!(is_small_kana(c as u32), "{c}");
    }
    for c in "ァィゥェォッャュョヮ".chars() {
        assert!(is_small_kana(c as u32), "{c}");
    }
    for c in "あいうえおかきくけこアイウエオ".chars() {
        assert!(!is_small_kana(c as u32), "{c}");
    }
    for c in "漢ヵヶ".chars() {
        assert!(!is_small_kana(c as u32), "{c}");
    }
}

#[test]
fn small_kana_to_kana_converts() {
    assert_eq!(small_kana_to_kana('ゃ' as u32), 'ャ' as u32);
    assert_eq!(small_kana_to_kana('っ' as u32), 'ッ' as u32);
    assert_eq!(small_kana_to_kana('ぁ' as u32), 'ァ' as u32);
    assert_eq!(small_kana_to_kana('ャ' as u32), 'ャ' as u32);
    assert_eq!(small_kana_to_kana('A' as u32), 'A' as u32);
}

fn unit(cp: char, cp2: Option<char>) -> SourceEntry {
    SourceEntry {
        cp: cp as u32,
        cp2: cp2.map_or(0, |c| c as u32),
        cp3: 0,
        orig_idx: 0,
        ctype: CharType::Hiragana,
        compound_len: if cp2.is_some() { 2 } else { 1 },
    }
}

#[test]
fn direct_readings_of_kana_units() {
    assert_eq!(hiragana_direct(&unit('き', Some('ょ'))), "キョ");
    assert_eq!(hiragana_direct(&unit('は', None)), "ハ");
    assert_eq!(katakana_passthrough(&unit('キ', Some('ャ'))), "キャ");
}

#[test]
fn kana_prediction_checks() {
    assert!(is_valid_kana_prediction(&unit('は', None), "ワ", "ハ"));
    assert!(is_valid_kana_prediction(&unit('へ', None), "エ", "ヘ"));
    assert!(is_valid_kana_prediction(&unit('う', None), "ー", "ウ"));
    assert!(is_valid_kana_prediction(&unit('か', None), "カ", "カ"));
    assert!(!is_valid_kana_prediction(&unit('か', None), "ガ", "カ"));
}

#[test]
fn repeat_checks_follow_lymans_law() {
    assert!(is_valid_repeat("ヒト", "ヒト"));
    assert!(is_valid_repeat("ビト", "ヒト"));
    assert!(!is_valid_repeat("ビト", "ヒド"));
    assert!(!is_valid_repeat("ジン", "ヒト"));
    assert!(!is_valid_repeat("ア", ""));
}

#[test]
fn counter_small_kana_and_tags() {
    assert!(is_counter_small_kana(0x30F5));
    assert!(is_counter_small_kana(0x30F6));
    assert!(!is_counter_small_kana(0x30F3));
    assert_eq!(DecisionSource::LrLow.as_str(), "LR_LOW");
    assert_eq!(DecisionSource::FallbackRepeat.as_str(), "FALLBACK_々");
    assert_eq!(DecisionSource::Bypass.as_str(), "BYPASS");
}
