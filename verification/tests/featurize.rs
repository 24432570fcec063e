use momors_core::char_type::CharType;
use momors_core::feature::{FeatureKey, FeatureType};
use momors_core::featurize::{clamp_run, compute_source_features, is_kurai_char, to_source_seq, SourceEntry};

fn features(seq: &[SourceEntry]) -> Vec<Vec<FeatureKey>> {
    let flags = vec![0u8; seq.len()];
    compute_source_features(seq, &flags)
}

#[test]
fn to_source_seq_basic() {
    let seq = to_source_seq("漢字");
    assert_eq!(seq.len(), 2);
    assert_eq!(seq[0].cp, 0x6F22);
    assert_eq!(seq[0].orig_idx, 0);
    assert_eq!(seq[0].ctype, CharType::Kanji);
    assert_eq!(seq[1].cp, 0x5B57);
    assert_eq!(seq[1].orig_idx, 3);
    assert_eq!(seq[1].ctype, CharType::Kanji);
}

#[test]
fn to_source_seq_empty() {
    assert!(to_source_seq("").is_empty());
}

#[test]
fn to_source_seq_ascii() {
    let seq = to_source_seq("abc");
    assert_eq!(seq.len(), 3);
    assert_eq!(seq[0].orig_idx, 0);
    assert_eq!(seq[1].orig_idx, 1);
    assert_eq!(seq[2].orig_idx, 2);
    assert!(seq.iter().all(|s| s.ctype == CharType::Alpha));
}

#[test]
fn kurai_promotion_san_man() {
    let seq = to_source_seq("三万");
    assert_eq!(seq[0].ctype, CharType::JapaneseNumeric);
    assert_eq!(seq[1].ctype, CharType::JapaneseNumeric);
}

#[test]
fn kurai_no_promotion_man_zen() {
    let seq = to_source_seq("万全");
    assert_eq!(seq[0].ctype, CharType::Kanji);
    assert_eq!(seq[1].ctype, CharType::Kanji);
}

#[test]
fn kurai_promotion_juuichi() {
    let seq = to_source_seq("十一");
    assert_eq!(seq[0].ctype, CharType::JapaneseNumeric);
    assert_eq!(seq[1].ctype, CharType::JapaneseNumeric);
}

#[test]
fn kurai_chain_promotion() {
    let seq = to_source_seq("三千百二十一");
    for s in &seq {
        assert_eq!(s.ctype, CharType::JapaneseNumeric);
    }
}

#[test]
fn features_length_matches() {
    let seq = to_source_seq("あいう");
    let feats = features(&seq);
    assert_eq!(feats.len(), 3);
}

#[test]
fn features_empty_input() {
    let feats = features(&[]);
    assert!(feats.is_empty());
}

#[test]
fn features_bias_present() {
    let seq = to_source_seq("あ");
    let feats = features(&seq);
    let bias = FeatureKey::no_payload(FeatureType::Bias);
    assert!(feats[0].contains(&bias));
}

#[test]
fn features_char_self_present() {
    let seq = to_source_seq("あ");
    let feats = features(&seq);
    let key = FeatureKey::char_1(FeatureType::CharSelf, 'あ' as u32);
    assert!(feats[0].contains(&key));
}

#[test]
fn features_type_self_present() {
    let seq = to_source_seq("あ");
    let feats = features(&seq);
    let key = FeatureKey::type_1(FeatureType::TypeSelf, CharType::Hiragana);
    assert!(feats[0].contains(&key));
}

#[test]
fn features_bigram_in_middle() {
    let seq = to_source_seq("あいう");
    let feats = features(&seq);
    let key1 = FeatureKey::char_2(FeatureType::BigramPrev1Self, 'あ' as u32, 'い' as u32);
    let key2 = FeatureKey::char_2(FeatureType::BigramSelfNext1, 'い' as u32, 'う' as u32);
    assert!(feats[1].contains(&key1));
    assert!(feats[1].contains(&key2));
}

#[test]
fn features_kanji_run_len() {
    let seq = to_source_seq("漢字");
    let feats = features(&seq);
    let key = FeatureKey::u8_payload(FeatureType::KanjiRunLen, 2);
    assert!(feats[0].contains(&key));
    assert!(feats[1].contains(&key));
}

#[test]
fn features_kanji_run_clamp() {
    let seq = to_source_seq("漢字漢字漢字漢字");
    let feats = features(&seq);
    let key5 = FeatureKey::u8_payload(FeatureType::KanjiRunLen, 5);
    for f in &feats {
        assert!(f.contains(&key5));
    }
}

#[test]
fn features_kanji_pos_first() {
    let seq = to_source_seq("漢字");
    let feats = features(&seq);
    let key = FeatureKey::no_payload(FeatureType::KanjiPosFirst);
    assert!(feats[0].contains(&key));
    assert!(!feats[1].contains(&key));
}

#[test]
fn features_type_transition() {
    let seq = to_source_seq("あ字");
    let feats = features(&seq);
    let key = FeatureKey::type_2(FeatureType::TypeTransition, CharType::Hiragana, CharType::Kanji);
    assert!(feats[1].contains(&key));
    assert!(!feats[0].iter().any(|k| k.feature_type == FeatureType::TypeTransition));
}

#[test]
fn features_prev_japanese_numeric_run_len() {
    let seq = to_source_seq("三万円");
    let feats = features(&seq);
    let key = FeatureKey::u8_payload(FeatureType::PrevJapaneseNumericRunLen, 2);
    assert!(feats[2].contains(&key));
}

#[test]
fn features_japanese_numeric_run_len() {
    let seq = to_source_seq("三万");
    let feats = features(&seq);
    let key = FeatureKey::u8_payload(FeatureType::JapaneseNumericRunLen, 2);
    assert!(feats[0].contains(&key));
    assert!(feats[1].contains(&key));
}

#[test]
fn clamp_run_works() {
    assert_eq!(clamp_run(1), 1);
    assert_eq!(clamp_run(4), 4);
    assert_eq!(clamp_run(5), 5);
    assert_eq!(clamp_run(10), 5);
    assert_eq!(clamp_run(100), 5);
}

#[test]
fn is_kurai_works() {
    for c in "十百千万億兆".chars() {
        assert!(is_kurai_char(c));
    }
    assert!(!is_kurai_char('一'));
    assert!(!is_kurai_char('零'));
    assert!(!is_kurai_char('あ'));
}

#[test]
fn compound_units_join_small_kana() {
    let seq = to_source_seq("きょうキャ");
    assert_eq!(seq.len(), 3);
    assert_eq!(seq[0].compound_len, 2);
    assert_eq!(seq[0].cp2, 'ょ' as u32);
    assert_eq!(seq[1].cp, 'う' as u32);
    assert_eq!(seq[1].orig_idx, 6);
    assert_eq!(seq[2].compound_len, 2);
    assert_eq!(seq[2].cp2, 'ャ' as u32);
    // っ stands alone
    let seq = to_source_seq("きっ");
    assert_eq!(seq.len(), 2);
    let feats = features(&to_source_seq("きょ"));
    let key = FeatureKey::char_2(FeatureType::CharSelfCompound2, 'き' as u32, 'ょ' as u32);
    assert!(feats[0].contains(&key));
}

#[test]
fn name_flags_become_features() {
    let seq = to_source_seq("佐藤さん");
    let flags = vec![1u8, 2, 0, 0];
    let feats = compute_source_features(&seq, &flags);
    assert!(feats[0].contains(&FeatureKey::u8_payload(FeatureType::NameFlagSelf, 1)));
    assert!(feats[0].contains(&FeatureKey::u8_payload(FeatureType::NameFlagNext1, 2)));
    assert!(feats[1].contains(&FeatureKey::u8_payload(FeatureType::NameFlagPrev1, 1)));
    assert!(!feats[2].iter().any(|k| k.feature_type == FeatureType::NameFlagSelf));
    assert!(feats[2].contains(&FeatureKey::u8_payload(FeatureType::NameFlagPrev1, 2)));
}

#[test]
fn neighbour_keys_only_where_the_neighbour_exists() {
    let seq = to_source_seq("漢字か");
    let flags = vec![0u8; seq.len()];
    let keys = compute_source_features(&seq, &flags);
    let has_type = |u: usize, ft: FeatureType| keys[u].iter().any(|k| k.feature_type == ft);
    assert!(!has_type(0, FeatureType::CharPrev1));
    assert!(keys[0].contains(&FeatureKey::char_1(FeatureType::CharNext1, '字' as u32)));
    assert!(keys[0].contains(&FeatureKey::char_1(FeatureType::CharNext2, 'か' as u32)));
    assert!(!has_type(0, FeatureType::CharNext3));
    assert!(keys[1].contains(&FeatureKey::char_1(FeatureType::CharPrev1, '漢' as u32)));
    assert!(keys[1].contains(&FeatureKey::char_3(
        FeatureType::TrigramPrev1SelfNext1,
        '漢' as u32,
        '字' as u32,
        'か' as u32
    )));
    assert!(!has_type(2, FeatureType::CharNext1));
    assert!(!has_type(2, FeatureType::TrigramPrev1SelfNext1));
}

#[test]
fn units_are_characters_without_small_kana() {
    let text = "三万a漢";
    let seq = to_source_seq(text);
    let chars: Vec<(usize, char)> = text.char_indices().collect();
    assert_eq!(seq.len(), chars.len());
    for (e, &(off, c)) in seq.iter().zip(&chars) {
        assert_eq!(e.cp, c as u32);
        assert_eq!(e.orig_idx as usize, off);
        assert_eq!(e.compound_len, 1);
    }
    assert_eq!(seq[1].ctype, CharType::JapaneseNumeric);
    assert_eq!(seq[3].ctype, CharType::Kanji);
}

#[test]
fn no_two_keys_of_a_unit_share_a_type() {
    let seq = to_source_seq("三万円の漢字きょう");
    let flags = vec![1u8, 2, 0, 0, 0, 0, 1, 2];
    assert_eq!(seq.len(), flags.len());
    let feats = compute_source_features(&seq, &flags);
    for keys in &feats {
        for (a, x) in keys.iter().enumerate() {
            for y in &keys[a + 1..] {
                assert!(x.feature_type != y.feature_type);
            }
        }
    }
}

#[test]
fn byte_payloads_run_from_one_to_five() {
    let seq = to_source_seq("一二三四五六七八漢字漢字漢字");
    let flags = vec![0u8; seq.len()];
    let feats = compute_source_features(&seq, &flags);
    let byte_types = [
        FeatureType::KanjiRunLen,
        FeatureType::JapaneseNumericRunLen,
        FeatureType::PrevJapaneseNumericRunLen,
    ];
    let mut seen = 0;
    for keys in &feats {
        for k in keys {
            if byte_types.contains(&k.feature_type) {
                assert!(1 <= k.u8val && k.u8val <= 5);
                seen += 1;
            }
        }
    }
    assert!(seen > 0);
}
