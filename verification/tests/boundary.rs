use momors_core::boundary::{linear_terms, tree_leaf_values, Boundary, TreeNode, F32_ONE_BITS};
use momors_core::char_type::CharType;
use momors_core::ensemble::TreeEnsemble;
use momors_core::feature::{FeatureKey, FeatureType};
use momors_core::vocab::VocabRef;

fn leaf(value: f32) -> TreeNode {
    TreeNode::Leaf { value: value.to_bits() }
}

fn split(column: u32, default_left: bool, cats: Vec<u32>, left: TreeNode, right: TreeNode) -> TreeNode {
    TreeNode::Split { column, default_left, cats, left: Box::new(left), right: Box::new(right) }
}

/// The vocabulary of a test: keys with their (column, code).
fn resolver(cat_vocab: Vec<(FeatureKey, u32, u32)>) -> impl Fn(&FeatureKey) -> Option<VocabRef> {
    move |k: &FeatureKey| {
        cat_vocab
            .iter()
            .find(|(key, _, _)| key == k)
            .map(|&(_, col, code)| VocabRef { feature_id: 0, cat: Some((col, code)) })
    }
}

fn score(trees: &[TreeNode], keys: &[FeatureKey], r: &impl Fn(&FeatureKey) -> Option<VocabRef>) -> f32 {
    let refs: Vec<VocabRef> = keys.iter().filter_map(r).collect();
    let packed = TreeEnsemble::new(trees).leaf_values(&refs);
    assert_eq!(packed, tree_leaf_values(trees, &refs));
    packed.iter().map(|&b| f32::from_bits(b)).sum()
}

#[test]
fn tree_score_sums_across_trees() {
    let r = resolver(vec![(FeatureKey::type_1(FeatureType::TypeSelf, CharType::Kanji), 0, 7)]);
    let t = vec![leaf(0.5), leaf(-0.25), leaf(1.0)];
    let keys = vec![FeatureKey::type_1(FeatureType::TypeSelf, CharType::Kanji)];
    assert!((score(&t, &keys, &r) - 1.25).abs() < 1e-6);
}

#[test]
fn tree_split_routes_by_category_membership() {
    let r = resolver(vec![
        (FeatureKey::type_1(FeatureType::TypeSelf, CharType::Kanji), 0, 7),
        (FeatureKey::type_1(FeatureType::TypeSelf, CharType::Hiragana), 0, 9),
        (FeatureKey::type_1(FeatureType::TypeSelf, CharType::Katakana), 0, 99),
    ]);
    let t = vec![split(0, false, vec![7, 9], leaf(1.0), leaf(-1.0))];
    let kanji = vec![FeatureKey::type_1(FeatureType::TypeSelf, CharType::Kanji)];
    assert_eq!(score(&t, &kanji, &r), 1.0);
    let katakana = vec![FeatureKey::type_1(FeatureType::TypeSelf, CharType::Katakana)];
    assert_eq!(score(&t, &katakana, &r), -1.0);
}

#[test]
fn tree_split_missing_feature_uses_default_left() {
    let r = resolver(vec![(FeatureKey::type_1(FeatureType::TypeSelf, CharType::Kanji), 0, 7)]);
    let t = vec![split(0, true, vec![7], leaf(1.0), leaf(-1.0))];
    assert_eq!(score(&t, &[], &r), 1.0);
    let t = vec![split(0, false, vec![7], leaf(1.0), leaf(-1.0))];
    assert_eq!(score(&t, &[], &r), -1.0);
}

#[test]
fn tree_score_unknown_category_code_treated_as_missing() {
    let r = resolver(vec![(FeatureKey::type_1(FeatureType::TypeSelf, CharType::Kanji), 0, 7)]);
    let t = vec![split(0, true, vec![7], leaf(1.0), leaf(-1.0))];
    let unknown = vec![FeatureKey::type_1(FeatureType::TypeSelf, CharType::Hiragana)];
    assert_eq!(score(&t, &unknown, &r), 1.0);
}

#[test]
fn linear_boundary_compute_score_matches_dot_product() {
    let b = Boundary::Linear { scale: 0.5f32.to_bits(), data: vec![10, -20, 30], intercept: (0.1f32.to_bits(), (-0.2f32).to_bits()) };
    let keys = vec![
        FeatureKey::type_1(FeatureType::TypeSelf, CharType::Kanji),
        FeatureKey::type_1(FeatureType::TypeSelf, CharType::Hiragana),
    ];
    let refs: Vec<VocabRef> = keys
        .iter()
        .filter_map(|k| {
            let id = if *k == keys[0] {
                Some(0)
            } else if *k == keys[1] {
                Some(2)
            } else {
                None
            };
            id.map(|feature_id| VocabRef { feature_id, cat: None })
        })
        .collect();
    let score = match &b {
        Boundary::Linear { scale, data, intercept } => {
            let mut s = f32::from_bits(intercept.1);
            for w in linear_terms(data, &refs) {
                s += (w as f32) * f32::from_bits(*scale);
            }
            s
        }
        Boundary::Tree(_) => unreachable!(),
    };
    assert!((score - (5.0 + 15.0 - 0.2)).abs() < 1e-6);
}

#[test]
fn default_boundary_is_safe_linear() {
    match Boundary::default() {
        Boundary::Linear { scale, data, intercept } => {
            assert_eq!(f32::from_bits(scale), 1.0);
            assert_eq!(scale, F32_ONE_BITS);
            assert!(data.is_empty());
            assert_eq!(intercept, (0, 0));
        }
        Boundary::Tree(_) => panic!("the default is linear"),
    }
}

#[test]
fn ids_past_the_weights_select_nothing() {
    let refs = vec![
        VocabRef { feature_id: 1, cat: None },
        VocabRef { feature_id: 5, cat: None },
        VocabRef { feature_id: 0, cat: None },
    ];
    assert_eq!(linear_terms(&[7i8, 8, 9], &refs), vec![8, 7]);
}

#[test]
fn last_code_of_a_column_wins() {
    let refs = vec![
        VocabRef { feature_id: 0, cat: Some((0, 7)) },
        VocabRef { feature_id: 1, cat: Some((0, 9)) },
    ];
    let t = vec![split(0, false, vec![9], leaf(1.0), leaf(-1.0))];
    assert_eq!(tree_leaf_values(&t, &refs), vec![1.0f32.to_bits()]);
}
