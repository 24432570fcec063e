use momors_core::normalize::{normalize_compat_ideographs, normalize_input};

#[test]
fn cjk_radicals_supplement() {
    assert_eq!(normalize_compat_ideographs("⺟"), "母");
    assert_eq!(normalize_compat_ideographs("⻳"), "龟");
}

#[test]
fn kangxi_radical() {
    assert_eq!(normalize_compat_ideographs("⼀"), "一");
}

#[test]
fn cjk_compatibility_ideograph() {
    assert_eq!(normalize_compat_ideographs("\u{F900}"), "\u{8C48}");
}

#[test]
fn cjk_compatibility_ideograph_supplement() {
    assert_eq!(normalize_compat_ideographs("\u{2F800}"), "丽");
}

#[test]
fn passthrough_normal_kanji() {
    assert_eq!(normalize_compat_ideographs("漢字"), "漢字");
}

#[test]
fn passthrough_non_kanji() {
    assert_eq!(normalize_compat_ideographs("あいうえおABC123"), "あいうえおABC123");
}

#[test]
fn compat_ideographs_does_not_expand_ligature() {
    assert_eq!(normalize_compat_ideographs("\u{FB03}"), "\u{FB03}");
}

#[test]
fn normalize_input_identity() {
    let n = normalize_input("あいうABC123");
    assert_eq!(n.text, "あいうABC123");
    assert!(n.byte_map.is_none());
}

#[test]
fn normalize_input_ligature_expansion() {
    let n = normalize_input("o\u{FB03}ce");
    assert_eq!(n.text, "office");
    assert_eq!(n.byte_map.unwrap(), vec![0, 1, 1, 1, 4, 5]);
}

#[test]
fn normalize_input_all_ligatures() {
    let n = normalize_input("\u{FB00}\u{FB01}\u{FB02}\u{FB03}\u{FB04}\u{FB05}\u{FB06}");
    assert_eq!(n.text, "fffiflffifflstst");
}

#[test]
fn normalize_input_compat_ideograph() {
    let n = normalize_input("⼀二");
    assert_eq!(n.text, "一二");
    assert_eq!(n.byte_map.unwrap(), vec![0, 0, 0, 3, 3, 3]);
}

#[test]
fn normalize_input_byte_length_change() {
    let n = normalize_input("\u{2F800}あ");
    assert_eq!(n.text, "丽あ");
    assert_eq!(n.byte_map.unwrap(), vec![0, 0, 0, 4, 4, 4]);
}

#[test]
fn normalize_input_empty() {
    let n = normalize_input("");
    assert_eq!(n.text, "");
    assert!(n.byte_map.is_none());
}

#[test]
fn byte_map_has_one_entry_per_output_byte() {
    let n = normalize_input("a\u{FB04}⼀");
    let map = n.byte_map.unwrap();
    assert_eq!(map.len(), n.text.len());
    assert_eq!(map, vec![0, 1, 1, 1, 4, 4, 4]);
}
