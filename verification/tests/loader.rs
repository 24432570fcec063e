use momors_core::diag::latency_rows;
use momors_core::featurize::{compute_source_features, to_source_seq};
use momors_core::ensemble::TreeEnsemble;
use momors_core::boundary::{tree_leaf_values, Boundary};
use momors_core::char_type::CharType;
use momors_core::error::Error;
use momors_core::feature::{FeatureKey, FeatureType};
use momors_core::loader::{load_from_bytes, load_from_reader, read_csc_structure, MAX_REASONABLE_COUNT, VERSION};
use momors_core::vocab::NO_CAT_COLUMN;

fn push_u16(b: &mut Vec<u8>, v: u16) {
    b.extend_from_slice(&v.to_le_bytes());
}
fn push_u32(b: &mut Vec<u8>, v: u32) {
    b.extend_from_slice(&v.to_le_bytes());
}
fn push_f32(b: &mut Vec<u8>, v: f32) {
    b.extend_from_slice(&v.to_le_bytes());
}
fn push_str(b: &mut Vec<u8>, s: &str) {
    b.push(s.len() as u8);
    b.extend_from_slice(s.as_bytes());
}
fn push_section(b: &mut Vec<u8>, ft: u8, count: u32, col: u32, base: u32) {
    b.push(ft);
    b.extend_from_slice(&[0, 0, 0]);
    push_u32(b, count);
    push_u32(b, col);
    push_u32(b, base);
}

/// The header alone (16 bytes).
fn build_header_bytes(n_classes: u32, n_features: u32) -> Vec<u8> {
    let mut bytes = Vec::new();
    bytes.extend_from_slice(b"MOMO");
    bytes.push(VERSION);
    bytes.extend_from_slice(&[0, 0, 0]);
    push_u32(&mut bytes, n_classes);
    push_u32(&mut bytes, n_features);
    bytes
}

/// The small model of the project's test data: classes カ/キ/ク, features
/// bias, type_s=KANJI, char_s=字, char_s=漢, kanji_run=2, a linear boundary
/// model, the names 佐藤 (サ/トー) and 太郎, and the single characters 漢 (カン)
/// and 字 (ジ/アザ).
fn fixture_bytes() -> Vec<u8> {
    let mut b = build_header_bytes(3, 5);
    // vocabulary: four sections in type order
    push_u32(&mut b, 4);
    push_section(&mut b, 0x00, 1, NO_CAT_COLUMN, 0);
    push_section(&mut b, 0x50, 1, NO_CAT_COLUMN, 0);
    push_section(&mut b, 0x90, 2, NO_CAT_COLUMN, 0);
    push_section(&mut b, 0xC0, 1, NO_CAT_COLUMN, 0);
    for key in [0u64, 0x42, 0x5B57, 0x6F22, 2] {
        b.extend_from_slice(&key.to_le_bytes());
    }
    // labels
    for l in ["カ", "キ", "ク"] {
        push_str(&mut b, l);
    }
    // read weights
    for s in [0.01f32, 0.02, 0.005] {
        push_f32(&mut b, s);
    }
    push_u32(&mut b, 8);
    for l in [3u16, 2, 1, 1, 1] {
        push_u16(&mut b, l);
    }
    for r in [0u16, 1, 2, 0, 1, 1, 0, 2] {
        push_u16(&mut b, r);
    }
    for d in [50i8, 40, 10, 30, 20, 70, 80, 90] {
        b.push(d as u8);
    }
    for i in [0.1f32, 0.05, -0.05] {
        push_f32(&mut b, i);
    }
    // linear boundary model
    b.push(0);
    push_f32(&mut b, 0.005);
    for d in [10i8, 15, 20, -5, -3] {
        b.push(d as u8);
    }
    push_f32(&mut b, 0.2);
    push_f32(&mut b, -0.2);
    // names
    push_u32(&mut b, 2);
    push_str(&mut b, "佐藤");
    b.push(2);
    push_str(&mut b, "サ");
    push_str(&mut b, "トー");
    push_str(&mut b, "太郎");
    b.push(0);
    // single characters
    push_u32(&mut b, 2);
    push_str(&mut b, "漢");
    b.push(1);
    push_str(&mut b, "カン");
    push_str(&mut b, "字");
    b.push(2);
    push_str(&mut b, "ジ");
    push_str(&mut b, "アザ");
    b
}

fn approx(bits: u32, v: f32) -> bool {
    (f32::from_bits(bits) - v).abs() < 1e-6
}

#[test]
fn loader_load_fixture_header() {
    let model = load_from_bytes(&fixture_bytes()).expect("the fixture loads");
    assert_eq!(model.n_classes(), 3);
    assert_eq!(model.n_features(), 5);
}

#[test]
fn loader_load_fixture_labels() {
    let model = load_from_bytes(&fixture_bytes()).unwrap();
    assert_eq!(model.read_class(0), Some("カ"));
    assert_eq!(model.read_class(1), Some("キ"));
    assert_eq!(model.read_class(2), Some("ク"));
    assert_eq!(model.read_class(3), None);
}

#[test]
fn loader_load_fixture_vocab() {
    let model = load_from_bytes(&fixture_bytes()).unwrap();
    let k = FeatureKey::no_payload(FeatureType::Bias);
    assert_eq!(model.vocab_find(&k), Some(0));
    let k = FeatureKey::type_1(FeatureType::TypeSelf, CharType::Kanji);
    assert_eq!(model.vocab_find(&k), Some(1));
    let k = FeatureKey::char_1(FeatureType::CharSelf, 0x5B57);
    assert_eq!(model.vocab_find(&k), Some(2));
    let k = FeatureKey::char_1(FeatureType::CharSelf, 0x6F22);
    assert_eq!(model.vocab_find(&k), Some(3));
    let k = FeatureKey::u8_payload(FeatureType::KanjiRunLen, 2);
    assert_eq!(model.vocab_find(&k), Some(4));
    let k = FeatureKey::char_1(FeatureType::CharSelf, 0x9999);
    assert_eq!(model.vocab_find(&k), None);
}

#[test]
fn load_fixture_read_weights() {
    let model = load_from_bytes(&fixture_bytes()).unwrap();
    assert_eq!(model.read_scale.len(), 3);
    assert!(approx(model.read_scale[0], 0.01));
    assert!(approx(model.read_scale[1], 0.02));
    assert!(approx(model.read_scale[2], 0.005));
    assert_eq!(model.csc_colptr, vec![0, 3, 5, 6, 7, 8]);
    assert_eq!(model.csc_rowind, vec![0, 1, 2, 0, 1, 1, 0, 2]);
    assert_eq!(model.csc_data, vec![50, 40, 10, 30, 20, 70, 80, 90]);
}

#[test]
fn load_fixture_intercept() {
    let model = load_from_bytes(&fixture_bytes()).unwrap();
    assert_eq!(model.intercept_read.len(), 3);
    assert!(approx(model.intercept_read[0], 0.1));
    assert!(approx(model.intercept_read[1], 0.05));
    assert!(approx(model.intercept_read[2], -0.05));
}

#[test]
fn load_fixture_boundary() {
    let model = load_from_bytes(&fixture_bytes()).unwrap();
    match &model.boundary {
        Boundary::Linear { scale, data, intercept } => {
            assert!(approx(*scale, 0.005));
            assert_eq!(data, &vec![10i8, 15, 20, -5, -3]);
            assert!(approx(intercept.0, 0.2));
            assert!(approx(intercept.1, -0.2));
        }
        Boundary::Tree(_) => panic!("the fixture's boundary model is linear"),
    }
}

#[test]
fn load_fixture_single_char_dict() {
    let model = load_from_bytes(&fixture_bytes()).unwrap();
    assert_eq!(model.single_char_dict.len(), 2);
    assert_eq!(model.single_char_dict[0].0, '字');
    assert_eq!(model.single_char_dict[0].1, vec!["ジ", "アザ"]);
    assert_eq!(model.single_char_dict[1].0, '漢');
    assert_eq!(model.single_char_dict[1].1, vec!["カン"]);
}

#[test]
fn fixture_name_dict_holds_both_names() {
    let model = load_from_bytes(&fixture_bytes()).unwrap();
    assert_eq!(model.name_dict.len(), 2);
}

/// The fixture with a tree boundary model: one tree that sends 漢 (code 1 of
/// column 0) left to 0.75 and everything else right to -0.25.
fn fixture_gbdt_bytes() -> Vec<u8> {
    let mut b = build_header_bytes(3, 5);
    b[5] = 0x01;
    push_u32(&mut b, 4);
    push_section(&mut b, 0x00, 1, NO_CAT_COLUMN, 0);
    push_section(&mut b, 0x50, 1, NO_CAT_COLUMN, 0);
    push_section(&mut b, 0x90, 2, 0, 0);
    push_section(&mut b, 0xC0, 1, NO_CAT_COLUMN, 0);
    for key in [0u64, 0x42, 0x5B57, 0x6F22, 2] {
        b.extend_from_slice(&key.to_le_bytes());
    }
    for l in ["カ", "キ", "ク"] {
        push_str(&mut b, l);
    }
    for s in [0.01f32, 0.02, 0.005] {
        push_f32(&mut b, s);
    }
    push_u32(&mut b, 0);
    for _ in 0..5 {
        push_u16(&mut b, 0);
    }
    for i in [0.1f32, 0.05, -0.05] {
        push_f32(&mut b, i);
    }
    b.push(1);
    push_u32(&mut b, 1);
    push_u32(&mut b, 1);
    b.push(1);
    push_u32(&mut b, 0);
    b.push(0);
    push_u32(&mut b, 1);
    push_u32(&mut b, 1);
    b.push(0);
    push_f32(&mut b, 0.75);
    b.push(0);
    push_f32(&mut b, -0.25);
    push_u32(&mut b, 0);
    push_u32(&mut b, 0);
    b
}

#[test]
fn load_fixture_gbdt_boundary_is_tree() {
    let model = load_from_bytes(&fixture_gbdt_bytes()).expect("the tree fixture loads");
    assert!(matches!(model.boundary, Boundary::Tree(_)));
    let trees = match &model.boundary {
        Boundary::Tree(t) => t,
        Boundary::Linear { .. } => panic!("tree expected"),
    };
    let score = |keys: &[FeatureKey]| -> f32 {
        let refs: Vec<_> = keys.iter().filter_map(|k| model.resolve(k)).collect();
        let packed = TreeEnsemble::new(trees).leaf_values(&refs);
        assert_eq!(packed, tree_leaf_values(trees, &refs));
        packed.iter().map(|&b| f32::from_bits(b)).sum()
    };
    let kanji = vec![FeatureKey::char_1(FeatureType::CharSelf, 0x6F22)];
    assert!((score(&kanji) - 0.75).abs() < 1e-6);
    let ji = vec![FeatureKey::char_1(FeatureType::CharSelf, 0x5B57)];
    assert!((score(&ji) - (-0.25)).abs() < 1e-6);
    assert!((score(&[]) - (-0.25)).abs() < 1e-6);
}

#[test]
fn tree_without_categorical_flag_is_corrupt() {
    let mut b = fixture_gbdt_bytes();
    b[5] = 0;
    // the vocabulary's column is now refused first
    assert!(matches!(load_from_bytes(&b), Err(Error::CorruptModel { .. })));
}

#[test]
fn loader_invalid_magic_returns_error() {
    let bad_data = b"XXXX\x01\x00\x00\x00\x00\x00\x00\x00\x00\x00\x00\x00";
    let result = load_from_reader(&bad_data[..], "test");
    assert!(matches!(result, Err(Error::InvalidMagic { .. })));
}

#[test]
fn loader_invalid_version_returns_error() {
    let bad_data = b"MOMO\x99\x00\x00\x00\x00\x00\x00\x00\x00\x00\x00\x00";
    let result = load_from_reader(&bad_data[..], "test");
    assert!(matches!(result, Err(Error::UnsupportedVersion { version: 0x99 })));
}

#[test]
fn loader_n_classes_over_u16_returns_error() {
    let bad_data = b"MOMO\x09\x00\x00\x00\x01\x00\x01\x00\x05\x00\x00\x00";
    let result = load_from_reader(&bad_data[..], "test");
    assert!(matches!(result, Err(Error::CorruptModel { .. })));
}

#[test]
fn old_version_v2_returns_error() {
    let bad_data = b"MOMO\x02\x00\x00\x00\x00\x00\x00\x00\x00\x00\x00\x00";
    let result = load_from_reader(&bad_data[..], "test");
    assert!(matches!(result, Err(Error::UnsupportedVersion { version: 0x02 })));
}

#[test]
fn old_version_v3_returns_error() {
    let bad_data = b"MOMO\x03\x00\x00\x00\x00\x00\x00\x00\x00\x00\x00\x00";
    let result = load_from_reader(&bad_data[..], "test");
    assert!(matches!(result, Err(Error::UnsupportedVersion { version: 0x03 })));
}

#[test]
fn old_version_v4_returns_error() {
    let bad_data = b"MOMO\x04\x00\x00\x00\x00\x00\x00\x00\x00\x00\x00\x00";
    let result = load_from_reader(&bad_data[..], "test");
    assert!(matches!(result, Err(Error::UnsupportedVersion { version: 0x04 })));
}

#[test]
fn old_version_v5_returns_error() {
    let bad_data = b"MOMO\x05\x00\x00\x00\x00\x00\x00\x00\x00\x00\x00\x00";
    let result = load_from_reader(&bad_data[..], "test");
    assert!(matches!(result, Err(Error::UnsupportedVersion { version: 0x05 })));
}

#[test]
fn old_version_v6_returns_error() {
    let bad_data = b"MOMO\x06\x00\x00\x00\x00\x00\x00\x00\x00\x00\x00\x00";
    let result = load_from_reader(&bad_data[..], "test");
    assert!(matches!(result, Err(Error::UnsupportedVersion { version: 0x06 })));
}

#[test]
fn old_version_v7_returns_error() {
    let bad_data = b"MOMO\x07\x00\x00\x00\x00\x00\x00\x00\x00\x00\x00\x00";
    let result = load_from_reader(&bad_data[..], "test");
    assert!(matches!(result, Err(Error::UnsupportedVersion { version: 0x07 })));
}

#[test]
fn unsorted_vocab_returns_corrupt_model_error() {
    let mut bytes = Vec::new();
    bytes.extend_from_slice(b"MOMO");
    bytes.push(VERSION);
    bytes.extend_from_slice(&[0, 0, 0]);
    bytes.extend_from_slice(&1u32.to_le_bytes());
    bytes.extend_from_slice(&2u32.to_le_bytes());
    bytes.extend_from_slice(&0u32.to_le_bytes());
    bytes.push(FeatureType::TypeSelf.to_u8());
    bytes.push(CharType::Kanji.to_u8());
    bytes.extend_from_slice(&1u32.to_le_bytes());
    bytes.push(FeatureType::Bias.to_u8());
    let result = load_from_reader(&bytes, "test");
    assert!(matches!(result, Err(Error::CorruptModel { .. })));
}

#[test]
fn keys_out_of_order_are_corrupt() {
    let mut b = fixture_bytes();
    // swap the keys of 字 and 漢 (the 3rd and 4th key, after 16 + 4 + 4 * 16 bytes)
    let start = 16 + 4 + 64 + 16;
    let (a, c) = (start, start + 8);
    for i in 0..8 {
        b.swap(a + i, c + i);
    }
    assert!(matches!(load_from_bytes(&b), Err(Error::CorruptModel { .. })));
}

#[test]
fn unknown_feature_type_is_reported() {
    let mut b = fixture_bytes();
    b[20] = 0x7F;
    assert_eq!(load_from_bytes(&b).err(), Some(Error::InvalidFeatureType { value: 0x7F }));
}

#[test]
fn invalid_label_utf8_is_reported() {
    let mut b = fixture_bytes();
    // the first label's first byte (after header, vocabulary and its keys)
    let first_label = 16 + 4 + 64 + 40 + 1;
    b[first_label] = 0xFF;
    assert_eq!(load_from_bytes(&b).err(), Some(Error::InvalidLabelUtf8));
}

#[test]
fn truncated_file_is_an_io_error_naming_the_file() {
    let b = fixture_bytes();
    let cut = &b[..40];
    assert_eq!(load_from_reader(cut, "model.mbm").err(), Some(Error::ModelIo { path: "model.mbm".to_string() }));
}

#[test]
fn missing_single_char_dict_section_returns_corrupt_model() {
    let b = fixture_bytes();
    // the table is the last 4 + (1+3+1+1+6) + (1+3+1+1+3+1+6) = 32 bytes
    let truncated = &b[..b.len() - 32];
    match load_from_bytes(truncated) {
        Err(Error::CorruptModel { reason }) => {
            assert!(reason.contains("再エクスポート"), "reason: {reason}");
        }
        Err(other) => panic!("CorruptModel expected: {other:?}"),
        Ok(_) => panic!("CorruptModel expected"),
    }
}

#[test]
fn corrupt_reasons_name_the_check() {
    match load_from_reader(&build_header_bytes(0, 5), "test") {
        Err(Error::CorruptModel { reason }) => assert_eq!(reason, "n_classes が 0 です（読みラベルが1つも無いモデルは不正）"),
        Err(other) => panic!("CorruptModel expected: {other:?}"),
        Ok(_) => panic!("CorruptModel expected"),
    }
    match load_from_reader(&build_header_bytes(70_000, 5), "test") {
        Err(Error::CorruptModel { reason }) => {
            assert_eq!(reason, "n_classes が上限 65536 を超えています（CSC 行インデックスが u16 のため）")
        }
        Err(other) => panic!("CorruptModel expected: {other:?}"),
        Ok(_) => panic!("CorruptModel expected"),
    }
}

#[test]
fn n_classes_zero_returns_corrupt_model_error() {
    let bytes = build_header_bytes(0, 5);
    let result = load_from_reader(&bytes, "test");
    assert!(matches!(result, Err(Error::CorruptModel { .. })));
}

#[test]
fn n_features_too_large_returns_corrupt_model_error() {
    let bytes = build_header_bytes(3, MAX_REASONABLE_COUNT + 1);
    let result = load_from_reader(&bytes, "test");
    assert!(matches!(result, Err(Error::CorruptModel { .. })));
}

#[test]
fn csc_rowind_out_of_range_returns_error() {
    let mut bytes = Vec::new();
    bytes.extend_from_slice(&1u32.to_le_bytes());
    bytes.extend_from_slice(&0u16.to_le_bytes());
    bytes.extend_from_slice(&0u16.to_le_bytes());
    bytes.extend_from_slice(&1u16.to_le_bytes());
    bytes.extend_from_slice(&5u16.to_le_bytes());
    let result = read_csc_structure(&bytes, 0, 2, 3, "test");
    assert!(matches!(result, Err(Error::CorruptModel { .. })));
}

#[test]
fn csc_col_len_sum_over_nnz_returns_error() {
    let mut bytes = Vec::new();
    bytes.extend_from_slice(&3u32.to_le_bytes());
    bytes.extend_from_slice(&3u16.to_le_bytes());
    bytes.extend_from_slice(&1u16.to_le_bytes());
    bytes.extend_from_slice(&0u16.to_le_bytes());
    let result = read_csc_structure(&bytes, 0, 2, 3, "test");
    assert!(matches!(result, Err(Error::CorruptModel { .. })));
}

#[test]
fn csc_col_len_sum_under_nnz_returns_error() {
    let mut bytes = Vec::new();
    bytes.extend_from_slice(&3u32.to_le_bytes());
    bytes.extend_from_slice(&1u16.to_le_bytes());
    bytes.extend_from_slice(&1u16.to_le_bytes());
    bytes.extend_from_slice(&0u16.to_le_bytes());
    let result = read_csc_structure(&bytes, 0, 2, 3, "test");
    assert!(matches!(result, Err(Error::CorruptModel { .. })));
}

#[test]
fn csc_colptr_last_mismatch_returns_error() {
    let mut bytes = Vec::new();
    bytes.extend_from_slice(&3u32.to_le_bytes());
    bytes.extend_from_slice(&0u32.to_le_bytes());
    bytes.extend_from_slice(&0u32.to_le_bytes());
    bytes.extend_from_slice(&0u32.to_le_bytes());
    bytes.extend_from_slice(&2u32.to_le_bytes());
    let result = read_csc_structure(&bytes, 0, 2, 3, "test");
    assert!(matches!(result, Err(Error::CorruptModel { .. })));
}

#[test]
fn csc_structure_empty_is_ok() {
    let mut bytes = Vec::new();
    bytes.extend_from_slice(&0u32.to_le_bytes());
    for _ in 0..4 {
        bytes.extend_from_slice(&0u32.to_le_bytes());
    }
    let ((colptr, rowind, n_nonzero), _) = read_csc_structure(&bytes, 0, 2, 3, "test").unwrap();
    assert_eq!(colptr, vec![0, 0, 0, 0]);
    assert!(rowind.is_empty());
    assert_eq!(n_nonzero, 0);
}

#[test]
fn latency_rows_count_keys_hits_and_nonzeros() {
    let model = match load_from_bytes(&fixture_bytes()) {
        Ok(m) => m,
        Err(e) => panic!("fixture: {e:?}"),
    };
    let seq = to_source_seq("漢x");
    let flags = vec![0u8; seq.len()];
    let keys = compute_source_features(&seq, &flags);
    let times = vec![(1u128, 2u128, 3u128), (4, 5, 6)];
    let rows = latency_rows(&model, &seq, &keys, &times);
    assert_eq!(rows.len(), 2);
    assert_eq!(rows[0].text, "漢");
    assert_eq!(rows[1].text, "x");
    for (u, row) in rows.iter().enumerate() {
        let ids: Vec<u32> = keys[u].iter().filter_map(|k| model.vocab_find(k)).collect();
        let nnz: usize = ids
            .iter()
            .map(|&id| (model.csc_colptr[id as usize + 1] - model.csc_colptr[id as usize]) as usize)
            .sum();
        assert_eq!(row.n_keys, keys[u].len());
        assert_eq!(row.n_hits, ids.len());
        assert_eq!(row.nnz, nnz);
    }
    // 漢 has bias, char_s=漢 and type_s=KANJI in the fixture's vocabulary
    assert!(rows[0].n_hits >= 3);
    assert_eq!((rows[1].lookup_ns, rows[1].read_ns, rows[1].boundary_ns), (4, 5, 6));
}
