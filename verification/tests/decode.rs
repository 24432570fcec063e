use momors_core::decode::{decide_readings, UnitScore};
use momors_core::featurize::to_source_seq;
use momors_core::reading::DecisionSource;

fn unit(label: &str, split_after: bool) -> UnitScore {
    UnitScore {
        label: label.to_string(),
        confidence_bits: 0.9f32.to_bits(),
        below_numeric_threshold: false,
        below_half: false,
        split_after,
    }
}

fn decide(text: &str, scores: Vec<UnitScore>) -> momors_core::prediction::PredictionResult {
    let seq = to_source_seq(text);
    assert_eq!(seq.len(), scores.len());
    let names = vec![None; seq.len()];
    decide_readings(text, &seq, &names, &scores)
}

#[test]
fn latin_letters_pass_through_whatever_the_label() {
    let r = decide("abc", vec![unit("カ", false), unit("キ", false), unit("ク", false)]);
    assert_eq!(r.kana_text, "abc");
    assert_eq!(r.kana_to_src_index, vec![0, 1, 2]);
    assert_eq!(r.decision_sources, vec![DecisionSource::Lr; 3]);
    assert_eq!(r.confidences, vec![1.0f32.to_bits(); 3]);
}

#[test]
fn latin_letter_takes_the_boundary_space() {
    let r = decide("ab漢", vec![unit("エー", false), unit("ビー", true), unit("カン", false)]);
    assert_eq!(r.kana_text, "ab カン");
    assert_eq!(r.kana_to_src_index, vec![0, 1, 1, 2, 2, 2, 2, 2, 2]);
}

#[test]
fn latin_letters_around_a_symbol() {
    let r = decide("a、b", vec![unit("カ", false), unit("", false), unit("キ", false)]);
    assert_eq!(r.kana_text, "a、b");
}

#[test]
fn kanji_takes_the_model_reading() {
    let r = decide("漢字", vec![unit("カン", false), unit("ジ", false)]);
    assert_eq!(r.kana_text, "カンジ");
    assert_eq!(r.decision_sources, vec![DecisionSource::Lr; 9]);
}

#[test]
fn reading_sources_never_decrease() {
    let text = "a漢 き";
    let r = decide(text, vec![unit("カ", true), unit("カン", true), unit("", false), unit("キ", false)]);
    let starts: Vec<usize> = text.char_indices().map(|(b, _)| b).collect();
    for w in r.kana_to_src_index.windows(2) {
        assert!(w[0] <= w[1]);
    }
    for s in &r.kana_to_src_index {
        assert!(starts.contains(s));
    }
}
