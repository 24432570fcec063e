use momors_core::featurize::to_source_seq;
use momors_core::name_dict::{
    build_name_index, compute_name_flags, compute_name_matches, NameIndex, NAME_FLAG_OUT,
};

fn names(v: &[&str]) -> Vec<(String, Option<Vec<String>>)> {
    v.iter().map(|s| (s.to_string(), None)).collect()
}

fn with_readings(surface: &str, readings: &[&str]) -> (String, Option<Vec<String>>) {
    (surface.to_string(), Some(readings.iter().map(|r| r.to_string()).collect()))
}

#[test]
fn surname_and_given_name() {
    let index = build_name_index(&names(&["佐藤", "太郎"]));
    let seq = to_source_seq("佐藤太郎さんにあった");
    let flags = compute_name_flags(&seq, &index);
    assert_eq!(&flags[..4], &[1, 2, 1, 2]);
    assert!(flags[4..].iter().all(|&f| f == NAME_FLAG_OUT));
}

#[test]
fn name_dict_no_match() {
    let index = build_name_index(&names(&["佐藤"]));
    let seq = to_source_seq("鈴木さん");
    let flags = compute_name_flags(&seq, &index);
    assert!(flags.iter().all(|&f| f == NAME_FLAG_OUT));
}

#[test]
fn name_dict_longest_match_wins() {
    let index = build_name_index(&names(&["佐藤", "佐藤原"]));
    let seq = to_source_seq("佐藤原さん");
    let flags = compute_name_flags(&seq, &index);
    assert_eq!(&flags[..3], &[1, 2, 2]);
}

#[test]
fn compound_unit_name() {
    let index = build_name_index(&names(&["りょう"]));
    let seq = to_source_seq("りょうさん");
    assert_eq!(seq.len(), 4);
    let flags = compute_name_flags(&seq, &index);
    assert_eq!(flags, vec![1, 2, 0, 0]);
}

#[test]
fn compound_unit_must_match_whole() {
    let index = build_name_index(&names(&["りよ"]));
    let seq = to_source_seq("りょう");
    let flags = compute_name_flags(&seq, &index);
    assert!(flags.iter().all(|&f| f == NAME_FLAG_OUT));
}

#[test]
fn empty_index() {
    let seq = to_source_seq("佐藤さん");
    let flags = compute_name_flags(&seq, &NameIndex::new());
    assert!(flags.iter().all(|&f| f == NAME_FLAG_OUT));
}

#[test]
fn empty_seq() {
    let index = build_name_index(&names(&["佐藤"]));
    assert!(compute_name_flags(&[], &index).is_empty());
}

#[test]
fn readings_assigned_per_unit() {
    let entries = vec![with_readings("渡辺", &["ワタ", "ナベ"]), ("太郎".to_string(), None)];
    let index = build_name_index(&entries);
    let seq = to_source_seq("渡辺太郎さん");
    let (flags, readings) = compute_name_matches(&seq, &index);
    assert_eq!(&flags[..4], &[1, 2, 1, 2]);
    assert_eq!(readings[0].as_deref(), Some("ワタ"));
    assert_eq!(readings[1].as_deref(), Some("ナベ"));
    assert_eq!(readings[2], None);
    assert_eq!(readings[3], None);
    assert_eq!(readings[4], None);
}

#[test]
fn reading_unit_mismatch_is_dropped() {
    let entries = vec![with_readings("佐藤", &["サトー"])];
    let index = build_name_index(&entries);
    let seq = to_source_seq("佐藤さん");
    let (flags, readings) = compute_name_matches(&seq, &index);
    assert_eq!(&flags[..2], &[1, 2]);
    assert!(readings.iter().all(|r| r.is_none()));
}

#[test]
fn equal_length_names_keep_their_order_and_empty_names_are_skipped() {
    let entries = vec![
        with_readings("佐藤", &["サ", "トウ"]),
        with_readings("佐藤", &["サ", "フジ"]),
        ("".to_string(), None),
    ];
    let index = build_name_index(&entries);
    assert_eq!(index.len(), 2);
    let seq = to_source_seq("佐藤");
    let (_, readings) = compute_name_matches(&seq, &index);
    assert_eq!(readings[1].as_deref(), Some("トウ"));
}
