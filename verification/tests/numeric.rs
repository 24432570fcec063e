use momors_core::char_type::CharType;
use momors_core::featurize::{to_source_seq, SourceEntry};
use momors_core::numeric::{
    convert_japanese_numeric, digit_table, is_digit_label, is_kun_counter_signal,
    is_protected_kun_numeral, NumericFallback,
};

fn seq(text: &str) -> Vec<SourceEntry> {
    to_source_seq(text)
}

fn lone(cp: u32) -> Vec<SourceEntry> {
    vec![SourceEntry {
        cp,
        cp2: 0,
        cp3: 0,
        orig_idx: 0,
        ctype: CharType::JapaneseNumeric,
        compound_len: 1,
    }]
}

#[test]
fn digit_table_basic_kanji_numerals() {
    let chars = ['〇', '一', '二', '三', '四', '五', '六', '七', '八', '九'];
    let expected = ["0", "1", "2", "3", "4", "5", "6", "7", "8", "9"];
    for (c, e) in chars.iter().zip(expected.iter()) {
        assert_eq!(digit_table(*c as u32), Some(*e), "char: {c}");
    }
}

#[test]
fn digit_table_daiji() {
    assert_eq!(digit_table('壱' as u32), Some("1"));
    assert_eq!(digit_table('弐' as u32), Some("2"));
    assert_eq!(digit_table('参' as u32), Some("3"));
}

#[test]
fn digit_table_kurai_returns_none() {
    for c in "十百千万億兆".chars() {
        assert_eq!(digit_table(c as u32), None, "char: {c}");
    }
}

#[test]
fn digit_table_non_numeric_returns_none() {
    assert_eq!(digit_table('あ' as u32), None);
    assert_eq!(digit_table('漢' as u32), None);
    assert_eq!(digit_table(0), None);
}

#[test]
fn convert_simple_digits() {
    let s = seq("三");
    assert_eq!(convert_japanese_numeric(0, &s), NumericFallback::Output("3"));
}

#[test]
fn convert_juu_alone() {
    assert_eq!(convert_japanese_numeric(0, &lone(0x5341)), NumericFallback::Output("10"));
}

#[test]
fn convert_juu_left_numeric() {
    let s = seq("二十");
    assert_eq!(convert_japanese_numeric(1, &s), NumericFallback::Output("0"));
}

#[test]
fn convert_juu_right_numeric() {
    let s = seq("十一");
    assert_eq!(convert_japanese_numeric(0, &s), NumericFallback::Output("1"));
}

#[test]
fn convert_juu_both_numeric() {
    let s = seq("二十一");
    assert_eq!(convert_japanese_numeric(1, &s), NumericFallback::Skip);
}

#[test]
fn convert_hyaku_alone() {
    assert_eq!(convert_japanese_numeric(0, &lone(0x767E)), NumericFallback::Output("100"));
}

#[test]
fn convert_hyaku_combinations() {
    let s = seq("三百");
    assert_eq!(convert_japanese_numeric(1, &s), NumericFallback::Output("00"));
    let s = seq("百一");
    assert_eq!(convert_japanese_numeric(0, &s), NumericFallback::Output("1"));
    let s = seq("三百二");
    assert_eq!(convert_japanese_numeric(1, &s), NumericFallback::Output("0"));
}

#[test]
fn convert_sen_alone() {
    assert_eq!(convert_japanese_numeric(0, &lone(0x5343)), NumericFallback::Output("セン"));
}

#[test]
fn convert_sen_after_san() {
    let s = seq("三千");
    assert_eq!(convert_japanese_numeric(1, &s), NumericFallback::Output("ゼン"));
}

#[test]
fn convert_sen_after_other() {
    let s = seq("二千");
    assert_eq!(convert_japanese_numeric(1, &s), NumericFallback::Output("セン"));
}

#[test]
fn convert_sen_with_right_numeric() {
    let s = seq("千一");
    assert_eq!(convert_japanese_numeric(0, &s), NumericFallback::Output("0"));
}

#[test]
fn convert_man_oku_chou() {
    let s = seq("三万");
    assert_eq!(convert_japanese_numeric(1, &s), NumericFallback::Output("マン"));
    let s = seq("三億");
    assert_eq!(convert_japanese_numeric(1, &s), NumericFallback::Output("オク"));
    let s = seq("三兆");
    assert_eq!(convert_japanese_numeric(1, &s), NumericFallback::Output("チョー"));
}

#[test]
fn convert_san_sen_ni_hyaku_juu_ichi() {
    let s = seq("三千二百十一");
    assert_eq!(convert_japanese_numeric(0, &s), NumericFallback::Output("3"));
    assert_eq!(convert_japanese_numeric(1, &s), NumericFallback::Output("0"));
    assert_eq!(convert_japanese_numeric(2, &s), NumericFallback::Output("2"));
    assert_eq!(convert_japanese_numeric(3, &s), NumericFallback::Output("0"));
    assert_eq!(convert_japanese_numeric(4, &s), NumericFallback::Skip);
    assert_eq!(convert_japanese_numeric(5, &s), NumericFallback::Output("1"));
}

#[test]
fn protect_mikka_standalone() {
    let s = seq("三日");
    assert!(is_protected_kun_numeral("ミッ", 0, &s));
}

#[test]
fn protect_futari() {
    let s = seq("二人");
    assert!(is_protected_kun_numeral("フタ", 0, &s));
}

#[test]
fn no_protect_when_left_numeric() {
    let s = seq("十三日");
    assert!(!is_protected_kun_numeral("ミッ", 1, &s));
}

#[test]
fn no_protect_when_right_numeric() {
    let s = seq("三〇");
    assert!(!is_protected_kun_numeral("ミッ", 0, &s));
}

#[test]
fn no_protect_on_yomi_reading() {
    let s = seq("三日");
    assert!(!is_protected_kun_numeral("サン", 0, &s));
}

#[test]
fn digit_labels_and_counter_signals() {
    assert!(is_digit_label("3"));
    assert!(is_digit_label("120"));
    assert!(!is_digit_label(""));
    assert!(!is_digit_label("ミッ"));
    assert!(!is_digit_label("1a"));
    assert!(is_kun_counter_signal("日", "カ"));
    assert!(is_kun_counter_signal("日", "タチ"));
    assert!(is_kun_counter_signal("つ", "ツ"));
    assert!(is_kun_counter_signal("人", "リ"));
    assert!(!is_kun_counter_signal("日", "ニチ"));
    assert!(!is_kun_counter_signal("人", "ニン"));
}
