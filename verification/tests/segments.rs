use momors_core::prediction::PredictionResult;
use momors_core::reading::DecisionSource;

/// The result a text of bypassed characters gets: the reading is the text,
/// every reading byte points at the first byte of its character.
fn bypass_result(text: &str) -> PredictionResult {
    let mut k2s = Vec::new();
    let mut s2k = vec![Vec::new(); text.len()];
    for (b, ch) in text.char_indices() {
        for j in 0..ch.len_utf8() {
            s2k[b].push(b + j);
            k2s.push(b);
        }
    }
    PredictionResult {
        source_text: text.to_string(),
        kana_text: text.to_string(),
        confidences: vec![1.0f32.to_bits(); text.len()],
        decision_sources: vec![DecisionSource::Bypass; text.len()],
        kana_to_src_index: k2s,
        src_to_kana_index: s2k,
    }
}

/// A result whose reading `kana` has, per character, the source byte
/// `srcs[i]`; the source-to-reading table is its inverse.
fn result_with(text: &str, kana: &str, srcs: &[usize]) -> PredictionResult {
    let mut k2s = Vec::new();
    for (ch, &s) in kana.chars().zip(srcs) {
        for _ in 0..ch.len_utf8() {
            k2s.push(s);
        }
    }
    let mut s2k = vec![Vec::new(); text.len()];
    for (j, &s) in k2s.iter().enumerate() {
        if s < text.len() {
            s2k[s].push(j);
        }
    }
    PredictionResult {
        source_text: text.to_string(),
        kana_text: kana.to_string(),
        confidences: vec![1.0f32.to_bits(); k2s.len()],
        decision_sources: vec![DecisionSource::Lr; k2s.len()],
        kana_to_src_index: k2s,
        src_to_kana_index: s2k,
    }
}

#[test]
fn get_source_segments_no_boundary() {
    let result = bypass_result("abc");
    assert_eq!(result.get_source_segments(), vec!["abc"]);
}

#[test]
fn get_source_segments_empty() {
    let result = bypass_result("");
    assert!(result.get_source_segments().is_empty());
}

#[test]
fn format_source_segmented_no_boundary() {
    let result = bypass_result("abc");
    assert_eq!(result.format_source_segmented(), "abc");
}

#[test]
fn format_segmented_ascii() {
    let result = bypass_result("abc");
    assert_eq!(result.format_segmented(), "a/b/c");
}

#[test]
fn format_segmented_symbol() {
    let result = bypass_result("、");
    assert_eq!(result.format_segmented(), "、");
}

#[test]
fn kana_to_source_char_ascii() {
    let result = bypass_result("abc");
    assert_eq!(result.kana_to_source_char(), vec![0, 1, 2]);
}

#[test]
fn source_to_kana_char_ascii() {
    let result = bypass_result("abc");
    assert_eq!(result.source_to_kana_char(), vec![vec![0], vec![1], vec![2]]);
}

#[test]
fn kana_to_source_char_and_source_to_kana_char_roundtrip() {
    let result = bypass_result("a、b");
    let k2s = result.kana_to_source_char();
    let s2k = result.source_to_kana_char();
    assert_eq!(k2s.len(), result.kana_text().chars().count());
    assert_eq!(s2k.len(), result.source_text().chars().count());
    for (s, kana_positions) in s2k.iter().enumerate() {
        for &kana_char_idx in kana_positions {
            assert_eq!(k2s[kana_char_idx], s);
        }
    }
}

#[test]
fn source_to_braille_char_one_to_one() {
    let result = bypass_result("abc");
    let kana_to_braille = vec![0usize, 1, 2];
    let s2b = result.source_to_braille_char(&kana_to_braille);
    assert_eq!(s2b.len(), 3);
    assert_eq!(s2b[0], vec![0]);
    assert_eq!(s2b[1], vec![1]);
    assert_eq!(s2b[2], vec![2]);
}

#[test]
fn source_to_braille_char_dedup_compound() {
    let result = bypass_result("ab");
    let kana_to_braille = vec![0usize, 0];
    let s2b = result.source_to_braille_char(&kana_to_braille);
    assert_eq!(s2b.len(), 2);
    assert_eq!(s2b[0], vec![0]);
    assert_eq!(s2b[1], vec![0]);
}

#[test]
fn source_to_braille_char_empty() {
    let result = bypass_result("");
    let s2b = result.source_to_braille_char(&[]);
    assert!(s2b.is_empty());
}

#[test]
fn braille_char_to_source_empty() {
    let result = bypass_result("");
    assert!(result.braille_char_to_source(&[], 0).is_empty());
}

#[test]
fn braille_char_to_source_one_to_one() {
    let result = bypass_result("abc");
    let b2s = result.braille_char_to_source(&[0, 1, 2], 3);
    assert_eq!(b2s, vec![0, 1, 2]);
}

#[test]
fn braille_char_to_source_with_flag_cells() {
    let result = bypass_result("ab");
    let b2s = result.braille_char_to_source(&[0, 2], 4);
    assert_eq!(b2s, vec![0, 0, 1, 1]);
}

#[test]
fn braille_char_to_source_compound() {
    let result = bypass_result("abc");
    let b2s = result.braille_char_to_source(&[0, 0, 2], 3);
    assert_eq!(b2s, vec![1, 1, 2]);
}

#[test]
fn braille_char_to_source_roundtrip_consistency() {
    let result = bypass_result("abc");
    let kana_to_braille = vec![0usize, 1, 2];
    let s2b = result.source_to_braille_char(&kana_to_braille);
    let b2s = result.braille_char_to_source(&kana_to_braille, 3);
    for (s, braille_positions) in s2b.iter().enumerate() {
        for &bi in braille_positions {
            assert_eq!(b2s[bi], s);
        }
    }
}

#[test]
fn source_segments_cut_after_the_character_a_space_comes_from() {
    // 今日は晴れ: boundary spaces after は (byte 6) and at the end of 晴れ.
    let text = "今日は晴れ";
    let r = result_with(text, "キョウワ ハレ", &[0, 0, 0, 6, 6, 9, 12]);
    assert_eq!(r.get_source_segments(), vec!["今日は", "晴れ"]);
    assert_eq!(r.format_source_segmented(), "今日は/晴れ");
}

#[test]
fn format_segmented_groups_reading_by_source_character() {
    let text = "今日は晴れ";
    let r = result_with(text, "キョウワ ハレ", &[0, 0, 0, 6, 6, 9, 12]);
    assert_eq!(r.format_segmented(), "キョウ/ワ/ /ハ/レ");
    assert_eq!(r.kana_to_source_char(), vec![0, 0, 0, 2, 2, 3, 4]);
    assert_eq!(r.source_to_kana_char(), vec![vec![0, 1, 2], vec![], vec![3, 4], vec![5], vec![6]]);
}

#[test]
fn source_to_braille_char_is_ascending_without_repeats() {
    // one source character read as three characters, whose cells are 1, 0, 1
    let result = result_with("a", "abc", &[0, 0, 0]);
    assert_eq!(result.source_to_kana_char(), vec![vec![0, 1, 2]]);
    let s2b = result.source_to_braille_char(&[1, 0, 1]);
    assert_eq!(s2b, vec![vec![0, 1]]);
    // reading characters past the table have no cell
    let s2b = result.source_to_braille_char(&[2, 2]);
    assert_eq!(s2b, vec![vec![2]]);
}

#[test]
fn inverse_lists_are_ascending() {
    let inv = momors_core::prediction::invert_index(&vec![1, 0, 1, 2, 0], 3);
    assert_eq!(inv, vec![vec![1, 4], vec![0, 2], vec![3]]);
}

#[test]
fn trace_groups_collect_each_source_characters_reading() {
    // 日 reads ニ, 本 reads ホン, and the closing ! has no reading.
    let mut r = result_with("日本!", "ニホン", &[0, 3, 3]);
    r.decision_sources = vec![
        DecisionSource::Lr,
        DecisionSource::Lr,
        DecisionSource::Lr,
        DecisionSource::LrLow,
        DecisionSource::LrLow,
        DecisionSource::LrLow,
        DecisionSource::Bypass,
        DecisionSource::Bypass,
        DecisionSource::Bypass,
    ];
    let rows = r.trace_groups();
    assert_eq!(rows.len(), 3);
    assert_eq!(rows[0].source, '日');
    assert_eq!(rows[0].kana, "ニ");
    assert_eq!(rows[0].decision, Some(DecisionSource::Lr));
    assert_eq!(rows[0].kana_bytes, vec![0, 1, 2]);
    assert_eq!(rows[1].source, '本');
    assert_eq!(rows[1].kana, "ホン");
    assert_eq!(rows[1].decision, Some(DecisionSource::LrLow));
    assert_eq!(rows[1].kana_bytes, vec![3, 4, 5, 6, 7, 8]);
    assert_eq!(rows[2].source, '!');
    assert_eq!(rows[2].kana, "");
    assert_eq!(rows[2].decision, None);
    assert!(rows[2].kana_bytes.is_empty());
}
