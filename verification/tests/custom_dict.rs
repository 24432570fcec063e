use momors_core::custom_dict::{build_custom_dict_index, match_at, parse_custom_dict, CustomDictIndex};
use momors_core::featurize::to_source_seq;

fn idx(entries: &[(&str, &str)]) -> CustomDictIndex {
    let v: Vec<(String, String)> =
        entries.iter().map(|(s, r)| (s.to_string(), r.to_string())).collect();
    build_custom_dict_index(&v).expect("valid entries")
}

#[test]
fn single_word_no_internal_split() {
    let index = idx(&[("電子計算機", "デン/シ/ケイ/サン/キ")]);
    let seq = to_source_seq("電子計算機を使う");
    let m = match_at(&seq, &index, 0).expect("match");
    assert_eq!(m.units.len(), 5);
    assert_eq!(m.readings, vec!["デン", "シ", "ケイ", "サン", "キ"]);
    assert_eq!(m.forced_split_after, vec![false, false, false, false]);
}

#[test]
fn internal_split_at_marked_position() {
    let index = idx(&[("佐藤太郎", "サ/トー/ /タ/ロー")]);
    let seq = to_source_seq("佐藤太郎さん");
    let m = match_at(&seq, &index, 0).expect("match");
    assert_eq!(m.readings, vec!["サ", "トー", "タ", "ロー"]);
    assert_eq!(m.forced_split_after, vec![false, true, false]);
}

#[test]
fn user_examples_taharazaka_and_haebaru() {
    let index = idx(&[("田原坂", "タ/バル/ザカ"), ("南風原町", "ハ/エ/バル/ /チョー")]);

    let seq1 = to_source_seq("田原坂へ行く");
    let m1 = match_at(&seq1, &index, 0).expect("match");
    assert_eq!(m1.readings, vec!["タ", "バル", "ザカ"]);
    assert_eq!(m1.forced_split_after, vec![false, false]);

    let seq2 = to_source_seq("南風原町議会");
    let m2 = match_at(&seq2, &index, 0).expect("match");
    assert_eq!(m2.readings, vec!["ハ", "エ", "バル", "チョー"]);
    assert_eq!(m2.forced_split_after, vec![false, false, true]);
}

#[test]
fn leading_boundary_marker_is_error() {
    let err = build_custom_dict_index(&[("南風原町".to_string(), " /ハ/エ/バル/チョー".to_string())]);
    assert!(err.is_err());
}

#[test]
fn trailing_boundary_marker_is_error() {
    let err = build_custom_dict_index(&[("南風原町".to_string(), "ハ/エ/バル/チョー/ ".to_string())]);
    assert!(err.is_err());
}

#[test]
fn double_slash_is_error() {
    let err = build_custom_dict_index(&[("佐藤太郎".to_string(), "サ/トー//タ/ロー".to_string())]);
    assert!(err.is_err());
}

#[test]
fn unit_count_mismatch_is_error() {
    let err = build_custom_dict_index(&[("佐藤".to_string(), "サ/トー/ロー".to_string())]);
    assert!(err.is_err());
}

#[test]
fn custom_dict_no_match() {
    let index = idx(&[("田原坂", "タ/バル/ザカ")]);
    let seq = to_source_seq("鈴木さん");
    assert!(match_at(&seq, &index, 0).is_none());
}

#[test]
fn custom_dict_longest_match_wins() {
    let index = idx(&[("佐藤", "サ/トー"), ("佐藤原", "サ/トー/バラ")]);
    let seq = to_source_seq("佐藤原さん");
    let m = match_at(&seq, &index, 0).expect("match");
    assert_eq!(m.units.len(), 3);
    assert_eq!(m.readings, vec!["サ", "トー", "バラ"]);
}

#[test]
fn tsv_content_is_parsed_and_comments_skipped() {
    let content = "# comment\n\n佐藤\tサ/トー\r\n田原坂\tタ/バル/ザカ\n";
    let entries = parse_custom_dict(content).unwrap();
    assert_eq!(
        entries,
        vec![
            ("佐藤".to_string(), "サ/トー".to_string()),
            ("田原坂".to_string(), "タ/バル/ザカ".to_string())
        ]
    );
    assert!(parse_custom_dict("佐藤 サトー\n").is_err());
    assert_eq!(parse_custom_dict("").unwrap(), vec![]);
}

#[test]
fn empty_surface_is_error() {
    assert!(build_custom_dict_index(&[("".to_string(), "サ".to_string())]).is_err());
}
