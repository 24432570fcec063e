use momors_core::brackets::{
    aside_atom, extract_aside_spans, remap_result_to_source, splice_atoms, strip_bracket_chars, Atom, Side,
};
use momors_core::prediction::{trim_trailing_boundary_spaces, PredictionResult};
use momors_core::reading::DecisionSource;

/// A result for `text` whose reading `kana` has, character by character, the
/// source bytes `srcs`.
fn make_result(text: &str, kana: &str, srcs: &[usize]) -> PredictionResult {
    let chars: Vec<char> = kana.chars().collect();
    assert_eq!(chars.len(), srcs.len());
    let mut kana_to_src = Vec::new();
    for (ch, &s) in chars.iter().zip(srcs) {
        for _ in 0..ch.len_utf8() {
            kana_to_src.push(s);
        }
    }
    PredictionResult {
        source_text: text.to_string(),
        kana_text: kana.to_string(),
        confidences: vec![0.9f32.to_bits(); kana_to_src.len()],
        decision_sources: vec![DecisionSource::Lr; kana_to_src.len()],
        kana_to_src_index: kana_to_src,
        src_to_kana_index: vec![Vec::new(); text.len()],
    }
}

fn content(text: &str, start: usize, end: usize) -> &str {
    &text[start..end]
}

#[test]
fn extract_aside_pulls_whole_span_out() {
    let (outer, spans) = extract_aside_spans("週末（３連休）カラオケ");
    assert_eq!(outer.text, "週末カラオケ");
    assert_eq!(spans.len(), 1);
    assert_eq!(spans[0].open, '（');
    assert_eq!(spans[0].close, '）');
    assert_eq!(
        content("週末（３連休）カラオケ", spans[0].content_start, spans[0].content_end),
        "３連休"
    );
}

#[test]
fn extract_aside_leaves_inline_brackets_in_text() {
    let (outer, spans) = extract_aside_spans("朝「おはよう」と");
    assert_eq!(outer.text, "朝「おはよう」と");
    assert!(spans.is_empty());
}

#[test]
fn extract_aside_outermost_only_when_nested() {
    let (outer, spans) = extract_aside_spans("a（b（c）d）e");
    assert_eq!(outer.text, "ae");
    assert_eq!(spans.len(), 1);
    assert_eq!(content("a（b（c）d）e", spans[0].content_start, spans[0].content_end), "b（c）d");
}

#[test]
fn extract_aside_multiple_spans() {
    let (outer, spans) = extract_aside_spans("a（b）c（d）e");
    assert_eq!(outer.text, "ace");
    assert_eq!(spans.len(), 2);
}

#[test]
fn extract_aside_unmatched_open_is_not_a_span() {
    let (outer, spans) = extract_aside_spans("a（bc");
    assert_eq!(outer.text, "a（bc");
    assert!(spans.is_empty());
}

#[test]
fn extract_aside_byte_map_points_at_source() {
    let (outer, _) = extract_aside_spans("a（b）c");
    assert_eq!(outer.text, "ac");
    assert_eq!(outer.byte_map, vec![0, 8]);
}

#[test]
fn strip_bracket_chars_keeps_content() {
    let (stripped, atoms) = strip_bracket_chars("a「b」c");
    assert_eq!(stripped.text, "abc");
    assert_eq!(stripped.byte_map, vec![0, 4, 8]);
    assert_eq!(atoms.len(), 2);
    assert_eq!(atoms[0].kana, "「");
    assert_eq!(atoms[0].pos, 1);
    assert!(atoms[0].side == Side::Right);
    assert_eq!(atoms[1].kana, "」");
    assert!(atoms[1].side == Side::Left);
}

#[test]
fn strip_bracket_chars_none_when_absent() {
    let (stripped, atoms) = strip_bracket_chars("あいう");
    assert_eq!(stripped.text, "あいう");
    assert!(atoms.is_empty());
}

#[test]
fn splice_inline_attaches_without_touching_spaces() {
    let (stripped, atoms) = strip_bracket_chars("a「b」c");
    let mut r = make_result(&stripped.text, "abc", &[0, 1, 2]);
    remap_result_to_source(&mut r, "a「b」c", &stripped.byte_map);
    splice_atoms(&mut r, "a「b」c", atoms);
    assert_eq!(r.kana_text, "a「b」c");
    assert_eq!(r.source_text, "a「b」c");
    assert_eq!(r.kana_to_src_index.len(), r.kana_text.len());
    assert_eq!(r.confidences.len(), r.kana_text.len());
    assert_eq!(r.src_to_kana_index.len(), "a「b」c".len());
}

#[test]
fn splice_inline_keeps_model_spaces() {
    let (stripped, atoms) = strip_bracket_chars("a「b」c");
    let mut r = make_result(&stripped.text, "a b c", &[0, 0, 1, 1, 2]);
    remap_result_to_source(&mut r, "a「b」c", &stripped.byte_map);
    splice_atoms(&mut r, "a「b」c", atoms);
    assert_eq!(r.kana_text, "a 「b」 c");
}

#[test]
fn splice_keeps_source_space() {
    let (stripped, atoms) = strip_bracket_chars("a 「b」");
    assert_eq!(stripped.text, "a b");
    let mut r = make_result(&stripped.text, "a b", &[0, 1, 2]);
    remap_result_to_source(&mut r, "a 「b」", &stripped.byte_map);
    splice_atoms(&mut r, "a 「b」", atoms);
    assert_eq!(r.kana_text, "a 「b」");
}

#[test]
fn splice_keeps_non_ascii_source_whitespace() {
    for ws in ['\u{3000}', '\u{00A0}', '\t'] {
        let text: String = format!("a{ws}「b」");
        let (stripped, atoms) = strip_bracket_chars(&text);
        assert_eq!(stripped.text, format!("a{ws}b"));
        let kana: String = format!("a{ws}b");
        let srcs = [0, 1, 1 + ws.len_utf8()];
        let mut r = make_result(&stripped.text, &kana, &srcs);
        remap_result_to_source(&mut r, &text, &stripped.byte_map);
        splice_atoms(&mut r, &text, atoms);
        assert_eq!(r.kana_text, text, "source white space {ws:?} stays");
    }
}

#[test]
fn splice_aside_span_hugs_left_and_keeps_outer_boundary() {
    let text = "a（b）c";
    let (outer, spans) = extract_aside_spans(text);
    assert_eq!(outer.text, "ac");
    let mut r = make_result(&outer.text, "a c", &[0, 0, 1]);
    remap_result_to_source(&mut r, text, &outer.byte_map);
    let sp = &spans[0];
    let atom = Atom {
        pos: sp.pos,
        side: Side::Left,
        kana: "（b）".to_string(),
        srcs: vec![1, 1, 1, 4, 5, 5, 5],
        confs: vec![1.0f32.to_bits(); 7],
        decs: vec![DecisionSource::Bypass; 7],
    };
    splice_atoms(&mut r, text, vec![atom]);
    assert_eq!(r.kana_text, "a（b） c");
    assert_eq!(r.format_segmented(), "a/（/b/）/ /c");
    let mut prev = 0usize;
    for &s in &r.kana_to_src_index {
        assert!(s >= prev);
        prev = s;
    }
}

#[test]
fn splice_aside_span_no_outer_boundary() {
    let text = "a（b）c";
    let (outer, spans) = extract_aside_spans(text);
    let mut r = make_result(&outer.text, "ac", &[0, 1]);
    remap_result_to_source(&mut r, text, &outer.byte_map);
    let sp = &spans[0];
    let atom = Atom {
        pos: sp.pos,
        side: Side::Left,
        kana: "（b）".to_string(),
        srcs: vec![1, 1, 1, 4, 5, 5, 5],
        confs: vec![1.0f32.to_bits(); 7],
        decs: vec![DecisionSource::Bypass; 7],
    };
    splice_atoms(&mut r, text, vec![atom]);
    assert_eq!(r.kana_text, "a（b）c");
}

#[test]
fn aside_atom_wraps_inner_reading_and_shifts_sources() {
    let text = "a（b）c";
    let (_, spans) = extract_aside_spans(text);
    let sp = &spans[0];
    let inner = make_result("b", "ビ", &[0]);
    let atom = aside_atom(sp, &inner);
    assert_eq!(atom.pos, 1);
    assert!(atom.side == Side::Left);
    assert_eq!(atom.kana, "（ビ）");
    assert_eq!(atom.srcs, vec![1, 1, 1, 4, 4, 4, 5, 5, 5]);
    assert_eq!(atom.confs[0], 1.0f32.to_bits());
    assert_eq!(atom.confs[3], 0.9f32.to_bits());
    assert_eq!(atom.decs[4], DecisionSource::Lr);
    assert_eq!(atom.decs[8], DecisionSource::Bypass);
}

#[test]
fn trim_drops_boundary_space_at_end() {
    let mut r = make_result("あ", "ア ", &[0, 0]);
    trim_trailing_boundary_spaces(&mut r, "あ");
    assert_eq!(r.kana_text, "ア");
    assert_eq!(r.kana_to_src_index.len(), r.kana_text.len());
    assert_eq!(r.confidences.len(), r.kana_text.len());
}

#[test]
fn trim_keeps_source_space_at_end() {
    let mut r = make_result("あ ", "ア ", &[0, 3]);
    trim_trailing_boundary_spaces(&mut r, "あ ");
    assert_eq!(r.kana_text, "ア ");
}

#[test]
fn trim_drops_boundary_space_before_source_space() {
    let mut r = make_result("あ ", "ア  ", &[0, 0, 3]);
    trim_trailing_boundary_spaces(&mut r, "あ ");
    assert_eq!(r.kana_text, "ア ");
    assert_eq!(r.kana_to_src_index, vec![0, 0, 0, 3]);
}

#[test]
fn trim_keeps_multiple_source_spaces() {
    let mut r = make_result("あ  ", "ア   ", &[0, 0, 3, 4]);
    trim_trailing_boundary_spaces(&mut r, "あ  ");
    assert_eq!(r.kana_text, "ア  ");
}

#[test]
fn trim_keeps_non_ascii_source_space() {
    for ws in ['\u{3000}', '\u{00A0}', '\t'] {
        let text = format!("あ{ws}");
        let kana = format!("ア {ws}");
        let mut r = make_result(&text, &kana, &[0, 0, 3]);
        trim_trailing_boundary_spaces(&mut r, &text);
        assert_eq!(r.kana_text, format!("ア{ws}"));
    }
}

#[test]
fn trim_keeps_boundary_space_in_the_middle() {
    let mut r = make_result("あい", "ア イ", &[0, 0, 3]);
    trim_trailing_boundary_spaces(&mut r, "あい");
    assert_eq!(r.kana_text, "ア イ");
}

#[test]
fn trim_noop_without_trailing_space() {
    let mut r = make_result("あい", "アイ", &[0, 3]);
    trim_trailing_boundary_spaces(&mut r, "あい");
    assert_eq!(r.kana_text, "アイ");
}

#[test]
fn trailing_space_is_the_sources_whatever_the_boundary_said() {
    // The same source line, with and without a boundary space before its
    // own two spaces: both trim to the source's two spaces.
    let text = "あ  ";
    let mut with_boundary = make_result(text, "ア   ", &[0, 0, 3, 4]);
    let mut without = make_result(text, "ア  ", &[0, 3, 4]);
    trim_trailing_boundary_spaces(&mut with_boundary, text);
    trim_trailing_boundary_spaces(&mut without, text);
    assert_eq!(with_boundary.kana_text, "ア  ");
    assert_eq!(with_boundary.kana_text, without.kana_text);
    assert_eq!(with_boundary.kana_to_src_index, without.kana_to_src_index);
}

#[test]
fn remapped_tables_stay_inverse() {
    // "ab" derived from "a「b」": byte 0 -> 0, byte 1 -> 4.
    let kana_to_src = vec![0usize, 0, 1];
    let mut src_to_kana = vec![Vec::new(); 2];
    for (j, &s) in kana_to_src.iter().enumerate() {
        src_to_kana[s].push(j);
    }
    let mut r = PredictionResult {
        source_text: "ab".to_string(),
        kana_text: "a b".to_string(),
        confidences: vec![0; 3],
        decision_sources: vec![DecisionSource::Lr; 3],
        kana_to_src_index: kana_to_src,
        src_to_kana_index: src_to_kana,
    };
    remap_result_to_source(&mut r, "a「b」", &vec![0, 4]);
    assert_eq!(r.kana_to_src_index, vec![0, 0, 4]);
    assert_eq!(r.src_to_kana_index.len(), "a「b」".len());
    for (t, list) in r.src_to_kana_index.iter().enumerate() {
        for &j in list {
            assert_eq!(r.kana_to_src_index[j], t);
        }
    }
    for (j, &t) in r.kana_to_src_index.iter().enumerate() {
        assert!(r.src_to_kana_index[t].contains(&j));
    }
}

#[test]
fn trailing_spaces_left_after_trim_point_at_source_spaces() {
    let text = "あ \u{3000}";
    let mut r = make_result(text, "ア  \u{3000}", &[0, 0, 3, 4]);
    trim_trailing_boundary_spaces(&mut r, text);
    assert_eq!(r.kana_text, "ア \u{3000}");
    for (kb, ch) in r.kana_text.char_indices().skip(1) {
        assert!(ch.is_whitespace());
        let src = r.kana_to_src_index[kb];
        assert!(text[src..].chars().next().unwrap().is_whitespace());
    }
}

#[test]
fn outer_text_is_the_text_between_the_spans() {
    let text = "x（y）z（w）";
    let (outer, spans) = extract_aside_spans(text);
    assert_eq!(outer.text, "xz");
    assert_eq!(outer.byte_map, vec![0, 8]);
    assert_eq!(spans.len(), 2);
    assert!(spans[0].close_pos < spans[1].pos);
    let mut rebuilt = String::new();
    let mut at = 0;
    for sp in &spans {
        rebuilt.push_str(&text[at..sp.pos]);
        at = sp.close_pos + sp.close.len_utf8();
    }
    rebuilt.push_str(&text[at..]);
    assert_eq!(outer.text, rebuilt);
}

#[test]
fn span_content_brackets_balance() {
    let text = "前（一（二（三）二）一）後";
    let (outer, spans) = extract_aside_spans(text);
    assert_eq!(outer.text, "前後");
    assert_eq!(spans.len(), 1);
    let inner = &text[spans[0].content_start..spans[0].content_end];
    let mut depth = 0i32;
    for c in inner.chars() {
        if c == '（' {
            depth += 1;
        } else if c == '）' {
            depth -= 1;
        }
        assert!(depth >= 0);
    }
    assert_eq!(depth, 0);
}
