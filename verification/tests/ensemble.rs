use momors_core::boundary::{tree_leaf_values, TreeNode};
use momors_core::ensemble::TreeEnsemble;
use momors_core::vocab::VocabRef;

fn leaf(value: f32) -> TreeNode {
    TreeNode::Leaf { value: value.to_bits() }
}

fn split(column: u32, default_left: bool, cats: Vec<u32>, left: TreeNode, right: TreeNode) -> TreeNode {
    TreeNode::Split { column, default_left, cats, left: Box::new(left), right: Box::new(right) }
}

fn cat(col: u32, code: u32) -> VocabRef {
    VocabRef { feature_id: 0, cat: Some((col, code)) }
}

/// Three trees over three columns, some splits sharing codes.
fn forest() -> Vec<TreeNode> {
    vec![
        split(
            0,
            false,
            vec![1, 5, 9],
            split(2, true, vec![5], leaf(1.0), leaf(2.0)),
            split(0, true, vec![2, 5], leaf(3.0), split(63, false, vec![0], leaf(4.0), leaf(5.0))),
        ),
        leaf(-1.5),
        split(2, false, vec![7, 8], leaf(6.0), split(0, false, vec![9], leaf(7.0), leaf(8.0))),
    ]
}

#[test]
fn packed_leaves_match_direct_walk() {
    let trees = forest();
    let e = TreeEnsemble::new(&trees);
    assert_eq!(e.n_trees(), 3);
    let cases: Vec<Vec<VocabRef>> = vec![
        vec![],
        vec![cat(0, 1)],
        vec![cat(0, 5), cat(2, 5)],
        vec![cat(0, 2)],
        vec![cat(0, 3), cat(63, 0)],
        vec![cat(0, 3)],
        vec![cat(2, 8), cat(0, 9)],
        vec![cat(2, 1), cat(0, 9)],
        vec![VocabRef { feature_id: 4, cat: None }, cat(70, 1), cat(2, 7)],
    ];
    for refs in &cases {
        assert_eq!(e.leaf_values(refs), tree_leaf_values(&trees, refs));
    }
}

#[test]
fn packed_leaves_exact_values() {
    let trees = forest();
    let e = TreeEnsemble::new(&trees);
    let bits = |v: &[f32]| v.iter().map(|x| x.to_bits()).collect::<Vec<u32>>();
    // no codes: first tree goes right (column 0 missing, default right), then
    // left (default left); the third goes right, then right.
    assert_eq!(e.leaf_values(&[]), bits(&[3.0, -1.5, 8.0]));
    // column 0 = 5 (left), column 2 = 5 (left)
    assert_eq!(e.leaf_values(&[cat(0, 5), cat(2, 5)]), bits(&[1.0, -1.5, 8.0]));
    // column 0 = 3 (right, then right), column 63 = 0 (left)
    assert_eq!(e.leaf_values(&[cat(0, 3), cat(63, 0)]), bits(&[4.0, -1.5, 8.0]));
    // column 2 = 8, column 0 = 9
    assert_eq!(e.leaf_values(&[cat(2, 8), cat(0, 9)]), bits(&[2.0, -1.5, 6.0]));
}

#[test]
fn from_trees_packs_within_limits() {
    let trees = forest();
    let e = TreeEnsemble::from_trees(&trees).expect("within the limits");
    assert_eq!(e.leaf_values(&[cat(0, 2)]), tree_leaf_values(&trees, &[cat(0, 2)]));
}

#[test]
fn from_trees_refuses_a_column_past_the_last() {
    let trees = vec![leaf(1.0), split(64, true, vec![1], leaf(1.0), leaf(2.0))];
    assert!(TreeEnsemble::from_trees(&trees).is_none());
}

#[test]
fn empty_ensemble_has_no_leaves() {
    let e = TreeEnsemble::new(&[]);
    assert_eq!(e.n_trees(), 0);
    assert_eq!(e.leaf_values(&[cat(0, 1)]), Vec::<u32>::new());
}
