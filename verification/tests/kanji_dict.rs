use momors_core::kanji_dict::{lookup_kanji_dict, matching_classes, parse_kanji_dict, single_char_dict, sort_by_char};

fn strings(v: &[&str]) -> Vec<String> {
    v.iter().map(|s| s.to_string()).collect()
}

#[test]
fn dictionary_file_is_parsed_and_sorted() {
    let content = "# comment\n漢\tカン\tオトコ\n\n字\tジ\r\n山\t\n一\tイチ\t\tイツ\n";
    let dict = parse_kanji_dict(content);
    assert_eq!(dict.len(), 3);
    assert_eq!(dict[0], ('一', strings(&["イチ", "イツ"])));
    assert_eq!(dict[1], ('字', strings(&["ジ"])));
    assert_eq!(dict[2], ('漢', strings(&["カン", "オトコ"])));
}

#[test]
fn first_character_of_the_key_field_is_the_key() {
    let dict = parse_kanji_dict("漢字\tカンジ\n");
    assert_eq!(dict, vec![('漢', strings(&["カンジ"]))]);
}

#[test]
fn lookup_finds_readings() {
    let dict = parse_kanji_dict("漢\tカン\n字\tジ\tアザ\n");
    assert_eq!(lookup_kanji_dict(&dict, '字'), Some(&strings(&["ジ", "アザ"])[..]));
    assert_eq!(lookup_kanji_dict(&dict, '山'), None);
}

#[test]
fn single_char_table_keeps_one_character_surfaces_with_readings() {
    let table = vec![
        ("漢".to_string(), strings(&["カン"])),
        ("漢字".to_string(), strings(&["カンジ"])),
        ("山".to_string(), vec![]),
        ("字".to_string(), strings(&["ジ", "アザ"])),
    ];
    let dict = single_char_dict(table);
    assert_eq!(dict, vec![('字', strings(&["ジ", "アザ"])), ('漢', strings(&["カン"]))]);
}

#[test]
fn sort_keeps_order_of_equal_characters() {
    let v = vec![('b', strings(&["1"])), ('a', strings(&["2"])), ('b', strings(&["3"]))];
    let s = sort_by_char(v);
    assert_eq!(s, vec![('a', strings(&["2"])), ('b', strings(&["1"])), ('b', strings(&["3"]))]);
}

#[test]
fn matching_classes_are_the_labels_among_the_readings() {
    let labels = strings(&["カ", "キ", "ク"]);
    assert_eq!(matching_classes(&labels, &strings(&["キ", "ク"])), vec![1, 2]);
    assert!(matching_classes(&labels, &strings(&["ケ", "コ"])).is_empty());
}
