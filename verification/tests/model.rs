use momors_core::boundary::{Boundary, F32_ONE_BITS};
use momors_core::char_type::CharType;
use momors_core::feature::{FeatureKey, FeatureType};
use momors_core::model::MomoModel;
use momors_core::vocab::{pack_key, VocabBuilder, NO_CAT_COLUMN};

#[test]
fn default_matches_cpp_initial_values() {
    let m = MomoModel::default();
    assert_eq!(m.n_classes, 0);
    assert_eq!(m.n_features, 0);
    assert!(m.read_scale.is_empty());
    match &m.boundary {
        Boundary::Linear { scale, intercept, .. } => {
            assert_eq!(f32::from_bits(*scale), 1.0);
            assert_eq!(*scale, F32_ONE_BITS);
            assert_eq!(*intercept, (0, 0));
        }
        Boundary::Tree(_) => panic!("the default is linear"),
    }
    assert_eq!(m.vocab.len(), 0);
    assert!(m.read_classes.is_empty());
}

#[test]
fn vocab_find_on_empty() {
    let m = MomoModel::default();
    let key = FeatureKey::char_1(FeatureType::CharSelf, 0x4E00);
    assert_eq!(m.vocab_find(&key), None);
}

#[test]
fn vocab_find_basic() {
    let mut m = MomoModel::default();
    let mut b = VocabBuilder::new();
    b.begin_section(FeatureType::Bias, 1, NO_CAT_COLUMN, 0).unwrap();
    b.push_key(pack_key(&FeatureKey::no_payload(FeatureType::Bias))).unwrap();
    b.begin_section(FeatureType::TypeSelf, 1, NO_CAT_COLUMN, 0).unwrap();
    b.push_key(pack_key(&FeatureKey::type_1(FeatureType::TypeSelf, CharType::Kanji))).unwrap();
    b.begin_section(FeatureType::CharSelf, 2, NO_CAT_COLUMN, 0).unwrap();
    b.push_key(pack_key(&FeatureKey::char_1(FeatureType::CharSelf, 0x4E00))).unwrap();
    b.push_key(pack_key(&FeatureKey::char_1(FeatureType::CharSelf, 0x4E01))).unwrap();
    m.vocab = b.finish(4).unwrap();
    m.n_features = 4;

    let k0 = FeatureKey::no_payload(FeatureType::Bias);
    assert_eq!(m.vocab_find(&k0), Some(0));
    let k1 = FeatureKey::char_1(FeatureType::CharSelf, 0x4E00);
    assert_eq!(m.vocab_find(&k1), Some(2));
    let k_missing = FeatureKey::char_1(FeatureType::CharSelf, 0x9999);
    assert_eq!(m.vocab_find(&k_missing), None);
}

#[test]
fn read_class_access() {
    let mut m = MomoModel::default();
    m.read_classes = vec!["カ".to_string(), "キ".to_string(), "ク".to_string()];
    m.n_classes = 3;
    assert_eq!(m.read_class(0), Some("カ"));
    assert_eq!(m.read_class(2), Some("ク"));
    assert_eq!(m.read_class(3), None);
    assert_eq!(m.read_class(100), None);
}

#[test]
fn size_accessors() {
    let mut m = MomoModel::default();
    m.n_classes = 256;
    m.n_features = 100_000;
    assert_eq!(m.n_classes(), 256);
    assert_eq!(m.n_features(), 100_000);
}

/// Three classes, five features; the columns of the project's test model.
fn weights_model() -> MomoModel {
    let mut m = MomoModel::default();
    m.n_classes = 3;
    m.n_features = 5;
    m.read_classes = vec!["カ".to_string(), "キ".to_string(), "ク".to_string()];
    m.read_scale = vec![0.01f32.to_bits(), 0.02f32.to_bits(), 0.005f32.to_bits()];
    m.intercept_read = vec![0.1f32.to_bits(), 0.05f32.to_bits(), (-0.05f32).to_bits()];
    m.csc_colptr = vec![0, 3, 5, 6, 7, 8];
    m.csc_rowind = vec![0, 1, 2, 0, 1, 1, 0, 2];
    m.csc_data = vec![50, 40, 10, 30, 20, 70, 80, 90];
    m
}

#[test]
fn read_scores_add_the_columns_of_the_active_features() {
    let m = weights_model();
    // bias + char_s=漢 (column 3: class 0, 80)
    assert_eq!(m.accumulate_read_scores(&[0, 3]), vec![130, 40, 10]);
    // a feature twice counts twice; ids past the last feature add nothing
    assert_eq!(m.accumulate_read_scores(&[2, 2, 9]), vec![0, 140, 0]);
    assert_eq!(m.accumulate_read_scores(&[]), vec![0, 0, 0]);
}

#[test]
fn feature_column_lists_class_and_weight() {
    let m = weights_model();
    assert_eq!(m.read_feature_column(1), vec![(0, 30), (1, 20)]);
    assert!(m.read_feature_column(5).is_empty());
}

#[test]
fn csc_stats_counts_dense_columns() {
    let m = weights_model();
    let st = m.csc_stats();
    assert_eq!(st.n_cols, 5);
    assert_eq!(st.total_nnz, 8);
    assert_eq!(st.max_nnz, 3);
    // columns with at least half of the 3 classes: lengths 3 and 2
    assert_eq!(st.dense_cols, 2);
    assert_eq!(st.dense_nnz, 5);
}

#[test]
fn read_scores_do_not_depend_on_feature_order() {
    let m = weights_model();
    let a = m.accumulate_read_scores(&[0, 3, 1, 4]);
    let b = m.accumulate_read_scores(&[4, 1, 0, 3]);
    assert_eq!(a, b);
    assert_eq!(a, vec![160, 60, 100]);
}
