//! The boundary model (where the reading gets a space): its section of the
//! model file, and the integer part of its score.
//!
//! ```text
//! algo_tag u8   0 = linear, 1 = tree ensemble
//! linear        scale f32 (quantized file only), weight × n_features
//!               (i8, or f32 in the float file), intercept f32 × 2
//! trees         n_columns u32 (at most 64), n_trees u32, then every tree
//!               depth first: tag u8 (0 leaf, 1 split);
//!               leaf: value f32;
//!               split: column u32 (< n_columns), default_left u8,
//!               n_cats u32, cats u32 × n_cats, left tree, right tree
//! ```
//!
//! A split sends a unit to the left when the code of its column is one of
//! the split's categories; when the unit has no code in that column it goes
//! where `default_left` says. A tree's score is the value of the leaf it
//! reaches; the ensemble's score is the sum over the trees, which is left to
//! the caller (it is a float sum).

use vstd::prelude::*;

use crate::bytes::{io_error, read_u32, read_u8, spec_agrees, spec_u32, spec_u8, LoadErr, Parsed};
use crate::error::{corrupt, Error};
use crate::loader::{read_i8_vec, read_u32_vec, spec_i8s, spec_u32s, MAX_REASONABLE_COUNT};
use crate::vocab::{VocabRef, MAX_BOUNDARY_CAT_COLUMNS};

verus! {

/// Upper bound of the depth of a tree.
pub const MAX_TREE_DEPTH: u32 = 256;

/// A node of a tree; leaf values are `f32` bits.
#[derive(Debug)]
pub enum TreeNode {
    Leaf { value: u32 },
    Split { column: u32, default_left: bool, cats: Vec<u32>, left: Box<TreeNode>, right: Box<TreeNode> },
}

/// A tree as the contracts see it.
pub enum SpecTree {
    Leaf(u32),
    Split(u32, bool, Seq<u32>, Box<SpecTree>, Box<SpecTree>),
}

pub open spec fn spec_tree_view(t: TreeNode) -> SpecTree
    decreases t,
{
    match t {
        TreeNode::Leaf { value } => SpecTree::Leaf(value),
        TreeNode::Split { column, default_left, cats, left, right } => SpecTree::Split(
            column,
            default_left,
            cats@,
            Box::new(spec_tree_view(*left)),
            Box::new(spec_tree_view(*right)),
        ),
    }
}

/// The boundary model of a quantized file.
#[derive(Debug)]
pub enum Boundary {
    /// Weights `data[feature_id] * scale` (as `f32` bits: `scale`), and two
    /// intercepts (bits).
    Linear { scale: u32, data: Vec<i8>, intercept: (u32, u32) },
    /// The trees.
    Tree(Vec<TreeNode>),
}

/// The boundary model of a float file.
#[derive(Debug)]
pub enum FloatBoundary {
    Linear { data: Vec<u32>, intercept: (u32, u32) },
    Tree(Vec<TreeNode>),
}

/// The boundary model as the contracts see it.
pub enum SpecBoundary {
    Linear(u32, Seq<i8>, (u32, u32)),
    FloatLinear(Seq<u32>, (u32, u32)),
    Tree(Seq<SpecTree>),
}

pub open spec fn spec_trees_view(v: Seq<TreeNode>) -> Seq<SpecTree> {
    v.map_values(|t: TreeNode| spec_tree_view(t))
}

pub open spec fn spec_boundary_view(b: Boundary) -> SpecBoundary {
    match b {
        Boundary::Linear { scale, data, intercept } => SpecBoundary::Linear(scale, data@, intercept),
        Boundary::Tree(ts) => SpecBoundary::Tree(spec_trees_view(ts@)),
    }
}

pub open spec fn spec_float_boundary_view(b: FloatBoundary) -> SpecBoundary {
    match b {
        FloatBoundary::Linear { data, intercept } => SpecBoundary::FloatLinear(data@, intercept),
        FloatBoundary::Tree(ts) => SpecBoundary::Tree(spec_trees_view(ts@)),
    }
}

// ------------------------------------------------------------
// Parsing
// ------------------------------------------------------------

/// A tree at `p`, at depth `depth` (see the module documentation): too deep
/// a tree, a column past `nc`, too many categories or an unknown tag make
/// the file corrupt.
pub open spec fn spec_node(b: Seq<u8>, p: int, nc: u32, depth: int) -> Parsed<SpecTree>
    decreases MAX_TREE_DEPTH + 1 - depth,
{
    if depth > MAX_TREE_DEPTH || depth < 0 {
        Err(LoadErr::Corrupt("境界モデルの木が深すぎます（上限 256）。壊れたファイルの可能性があります。"@))
    } else {
        match spec_u8(b, p) {
            Err(e) => Err(e),
            Ok((tag, q)) => if tag == 0 {
                match spec_u32(b, q) {
                    Err(e) => Err(e),
                    Ok((v, q2)) => Ok((SpecTree::Leaf(v), q2)),
                }
            } else if tag == 1 {
                match spec_u32(b, q) {
                    Err(e) => Err(e),
                    Ok((col, q2)) => if col >= nc {
                        Err(LoadErr::Corrupt("境界モデルの split_feature が n_cat_columns 以上です"@))
                    } else {
                        match spec_u8(b, q2) {
                            Err(e) => Err(e),
                            Ok((dl, q3)) => match spec_u32(b, q3) {
                                Err(e) => Err(e),
                                Ok((n_cats, q4)) => if n_cats > MAX_REASONABLE_COUNT {
                                    Err(LoadErr::Corrupt("境界モデルの n_cats が大きすぎます（上限 50000000）"@))
                                } else {
                                    match spec_u32s(b, q4, n_cats as int) {
                                        Err(e) => Err(e),
                                        Ok((cats, q5)) => match spec_node(b, q5, nc, depth + 1) {
                                            Err(e) => Err(e),
                                            Ok((l, q6)) => match spec_node(b, q6, nc, depth + 1) {
                                                Err(e) => Err(e),
                                                Ok((r, q7)) => Ok(
                                                    (SpecTree::Split(col, dl != 0, cats, Box::new(l), Box::new(r)), q7),
                                                ),
                                            },
                                        },
                                    }
                                },
                            },
                        }
                    },
                }
            } else {
                Err(LoadErr::Corrupt("境界モデルの木の node_tag が不正です"@))
            },
        }
    }
}

/// Reads a tree (see [`spec_node`]).
pub fn parse_tree_node(b: &[u8], p: usize, n_columns: u32, depth: u32, path: &str) -> (r: Result<(TreeNode, usize), Error>)
    requires
        p <= b@.len(),
        depth <= MAX_TREE_DEPTH + 1,
    ensures
        spec_agrees(r, spec_node(b@, p as int, n_columns, depth as int), |t: TreeNode| spec_tree_view(t), path@),
        r matches Ok((t, q)) ==> q <= b@.len(),
    decreases MAX_TREE_DEPTH + 1 - depth,
{
    if depth > MAX_TREE_DEPTH {
        return Err(corrupt("境界モデルの木が深すぎます（上限 256）。壊れたファイルの可能性があります。"));
    }
    let (tag, q) = match read_u8(b, p, path) {
        Ok(x) => x,
        Err(e) => return Err(e),
    };
    if tag == 0 {
        let (value, q2) = match read_u32(b, q, path) {
            Ok(x) => x,
            Err(e) => return Err(e),
        };
        Ok((TreeNode::Leaf { value }, q2))
    } else if tag == 1 {
        let (column, q2) = match read_u32(b, q, path) {
            Ok(x) => x,
            Err(e) => return Err(e),
        };
        if column >= n_columns {
            return Err(corrupt("境界モデルの split_feature が n_cat_columns 以上です"));
        }
        let (dl, q3) = match read_u8(b, q2, path) {
            Ok(x) => x,
            Err(e) => return Err(e),
        };
        let (n_cats, q4) = match read_u32(b, q3, path) {
            Ok(x) => x,
            Err(e) => return Err(e),
        };
        if n_cats > MAX_REASONABLE_COUNT {
            return Err(corrupt("境界モデルの n_cats が大きすぎます（上限 50000000）"));
        }
        let (cats, q5) = match read_u32_vec(b, q4, n_cats as usize, path) {
            Ok(x) => x,
            Err(e) => return Err(e),
        };
        let (left, q6) = match parse_tree_node(b, q5, n_columns, depth + 1, path) {
            Ok(x) => x,
            Err(e) => return Err(e),
        };
        let (right, q7) = match parse_tree_node(b, q6, n_columns, depth + 1, path) {
            Ok(x) => x,
            Err(e) => return Err(e),
        };
        let t = TreeNode::Split {
            column,
            default_left: dl != 0,
            cats,
            left: Box::new(left),
            right: Box::new(right),
        };
        Ok((t, q7))
    } else {
        Err(corrupt("境界モデルの木の node_tag が不正です"))
    }
}

/// The first `k` trees at `p`.
pub open spec fn spec_trees(b: Seq<u8>, p: int, nc: u32, k: nat) -> Parsed<Seq<SpecTree>>
    decreases k,
{
    if k == 0 {
        Ok((Seq::empty(), p))
    } else {
        match spec_trees(b, p, nc, (k - 1) as nat) {
            Err(e) => Err(e),
            Ok((v, q)) => match spec_node(b, q, nc, 0) {
                Err(e) => Err(e),
                Ok((t, q2)) => Ok((v.push(t), q2)),
            },
        }
    }
}

proof fn lemma_trees_err(b: Seq<u8>, p: int, nc: u32, k: nat, m: nat)
    requires
        spec_trees(b, p, nc, k) is Err,
        k <= m,
    ensures
        spec_trees(b, p, nc, m) == spec_trees(b, p, nc, k),
    decreases m,
{
    if m > k {
        lemma_trees_err(b, p, nc, k, (m - 1) as nat);
    }
}

/// The tree ensemble: the column count (at most 64), the tree count (at
/// most the reasonable count), the trees.
pub open spec fn spec_ensemble(b: Seq<u8>, p: int) -> Parsed<Seq<SpecTree>> {
    match spec_u32(b, p) {
        Err(e) => Err(e),
        Ok((nc, q)) => if nc > MAX_BOUNDARY_CAT_COLUMNS {
            Err(LoadErr::Corrupt("境界モデルのカテゴリカル列数が上限 64 を超えています"@))
        } else {
            match spec_u32(b, q) {
                Err(e) => Err(e),
                Ok((nt, q2)) => if nt > MAX_REASONABLE_COUNT {
                    Err(LoadErr::Corrupt("境界モデルの n_trees が大きすぎます（上限 50000000）"@))
                } else {
                    spec_trees(b, q2, nc, nt as nat)
                },
            }
        },
    }
}

/// Reads the tree ensemble (see [`spec_ensemble`]).
pub fn parse_tree_ensemble(b: &[u8], p: usize, path: &str) -> (r: Result<(Vec<TreeNode>, usize), Error>)
    requires
        p <= b@.len(),
    ensures
        spec_agrees(r, spec_ensemble(b@, p as int), |v: Vec<TreeNode>| spec_trees_view(v@), path@),
        r matches Ok((_, q)) ==> q <= b@.len(),
{
    let (nc, q) = match read_u32(b, p, path) {
        Ok(x) => x,
        Err(e) => return Err(e),
    };
    if nc > MAX_BOUNDARY_CAT_COLUMNS {
        return Err(corrupt("境界モデルのカテゴリカル列数が上限 64 を超えています"));
    }
    let (nt, q2) = match read_u32(b, q, path) {
        Ok(x) => x,
        Err(e) => return Err(e),
    };
    if nt > MAX_REASONABLE_COUNT {
        return Err(corrupt("境界モデルの n_trees が大きすぎます（上限 50000000）"));
    }
    let mut trees: Vec<TreeNode> = Vec::new();
    let mut k: u32 = 0;
    let mut pos: usize = q2;
    proof {
        assert(spec_trees_view(trees@) =~= Seq::<SpecTree>::empty());
    }
    while k < nt
        invariant
            spec_u32(b@, p as int) == Ok::<(u32, int), LoadErr>((nc, q as int)),
            nc <= MAX_BOUNDARY_CAT_COLUMNS,
            spec_u32(b@, q as int) == Ok::<(u32, int), LoadErr>((nt, q2 as int)),
            nt <= MAX_REASONABLE_COUNT,
            k <= nt,
            pos <= b@.len(),
            spec_trees(b@, q2 as int, nc, k as nat) == Ok::<(Seq<SpecTree>, int), LoadErr>((spec_trees_view(trees@), pos as int)),
        decreases nt - k,
    {
        let ghost old_v = spec_trees_view(trees@);
        let (t, pos2) = match parse_tree_node(b, pos, nc, 0, path) {
            Ok(x) => x,
            Err(e) => {
                proof {
                    lemma_trees_err(b@, q2 as int, nc, (k + 1) as nat, nt as nat);
                }
                return Err(e);
            },
        };
        let ghost tv = spec_tree_view(t);
        trees.push(t);
        proof {
            assert(spec_trees_view(trees@) =~= old_v.push(tv));
        }
        pos = pos2;
        k = k + 1;
    }
    Ok((trees, pos))
}

/// The boundary section of a quantized file with `nf` features.
pub open spec fn spec_boundary_int8(b: Seq<u8>, p: int, nf: u32) -> Parsed<SpecBoundary> {
    match spec_u8(b, p) {
        Err(e) => Err(e),
        Ok((tag, q)) => if tag == 0 {
            match spec_u32(b, q) {
                Err(e) => Err(e),
                Ok((scale, q2)) => match spec_i8s(b, q2, nf as int) {
                    Err(e) => Err(e),
                    Ok((data, q3)) => match spec_u32s(b, q3, 2) {
                        Err(e) => Err(e),
                        Ok((ic, q4)) => Ok((SpecBoundary::Linear(scale, data, (ic[0], ic[1])), q4)),
                    },
                },
            }
        } else if tag == 1 {
            match spec_ensemble(b, q) {
                Err(e) => Err(e),
                Ok((ts, q2)) => Ok((SpecBoundary::Tree(ts), q2)),
            }
        } else {
            Err(LoadErr::Corrupt("未知の境界モデル algo_tag です"@))
        },
    }
}

/// Reads the boundary section of a quantized file (see
/// [`spec_boundary_int8`]).
pub fn parse_int8(b: &[u8], p: usize, n_features: u32, path: &str) -> (r: Result<(Boundary, usize), Error>)
    requires
        p <= b@.len(),
    ensures
        spec_agrees(r, spec_boundary_int8(b@, p as int, n_features), |x: Boundary| spec_boundary_view(x), path@),
        r matches Ok((_, q)) ==> q <= b@.len(),
{
    let (tag, q) = match read_u8(b, p, path) {
        Ok(x) => x,
        Err(e) => return Err(e),
    };
    if tag == 0 {
        let (scale, q2) = match read_u32(b, q, path) {
            Ok(x) => x,
            Err(e) => return Err(e),
        };
        let (data, q3) = match read_i8_vec(b, q2, n_features as usize, path) {
            Ok(x) => x,
            Err(e) => return Err(e),
        };
        let (ic, q4) = match read_u32_vec(b, q3, 2, path) {
            Ok(x) => x,
            Err(e) => return Err(e),
        };
        let intercept = (ic[0], ic[1]);
        Ok((Boundary::Linear { scale, data, intercept }, q4))
    } else if tag == 1 {
        let (ts, q2) = match parse_tree_ensemble(b, q, path) {
            Ok(x) => x,
            Err(e) => return Err(e),
        };
        Ok((Boundary::Tree(ts), q2))
    } else {
        Err(corrupt("未知の境界モデル algo_tag です"))
    }
}

/// The boundary section of a float file with `nf` features.
pub open spec fn spec_boundary_float(b: Seq<u8>, p: int, nf: u32) -> Parsed<SpecBoundary> {
    match spec_u8(b, p) {
        Err(e) => Err(e),
        Ok((tag, q)) => if tag == 0 {
            match spec_u32s(b, q, nf as int) {
                Err(e) => Err(e),
                Ok((data, q2)) => match spec_u32s(b, q2, 2) {
                    Err(e) => Err(e),
                    Ok((ic, q3)) => Ok((SpecBoundary::FloatLinear(data, (ic[0], ic[1])), q3)),
                },
            }
        } else if tag == 1 {
            match spec_ensemble(b, q) {
                Err(e) => Err(e),
                Ok((ts, q2)) => Ok((SpecBoundary::Tree(ts), q2)),
            }
        } else {
            Err(LoadErr::Corrupt("未知の境界モデル algo_tag です"@))
        },
    }
}

/// Reads the boundary section of a float file (see
/// [`spec_boundary_float`]).
pub fn parse_float(b: &[u8], p: usize, n_features: u32, path: &str) -> (r: Result<(FloatBoundary, usize), Error>)
    requires
        p <= b@.len(),
    ensures
        spec_agrees(r, spec_boundary_float(b@, p as int, n_features), |x: FloatBoundary| spec_float_boundary_view(x), path@),
        r matches Ok((_, q)) ==> q <= b@.len(),
{
    let (tag, q) = match read_u8(b, p, path) {
        Ok(x) => x,
        Err(e) => return Err(e),
    };
    if tag == 0 {
        let (data, q2) = match read_u32_vec(b, q, n_features as usize, path) {
            Ok(x) => x,
            Err(e) => return Err(e),
        };
        let (ic, q3) = match read_u32_vec(b, q2, 2, path) {
            Ok(x) => x,
            Err(e) => return Err(e),
        };
        let intercept = (ic[0], ic[1]);
        Ok((FloatBoundary::Linear { data, intercept }, q3))
    } else if tag == 1 {
        let (ts, q2) = match parse_tree_ensemble(b, q, path) {
            Ok(x) => x,
            Err(e) => return Err(e),
        };
        Ok((FloatBoundary::Tree(ts), q2))
    } else {
        Err(corrupt("未知の境界モデル algo_tag です"))
    }
}


// ------------------------------------------------------------
// Scores
// ------------------------------------------------------------

/// The leaf a tree reaches for the column codes `codes` (a missing or
/// `None` code means the unit has no code in that column).
pub open spec fn spec_eval(t: SpecTree, codes: Seq<Option<u32>>) -> u32
    decreases t,
{
    match t {
        SpecTree::Leaf(v) => v,
        SpecTree::Split(col, dl, cats, l, r) => {
            let go_left = if 0 <= col < codes.len() && codes[col as int] is Some {
                cats.contains(codes[col as int]->0)
            } else {
                dl
            };
            if go_left {
                spec_eval(*l, codes)
            } else {
                spec_eval(*r, codes)
            }
        },
    }
}

/// The value (bits) of the leaf `t` reaches for `codes`.
pub fn eval_tree(t: &TreeNode, codes: &Vec<Option<u32>>) -> (v: u32)
    ensures
        v == spec_eval(spec_tree_view(*t), codes@),
    decreases t,
{
    match t {
        TreeNode::Leaf { value } => *value,
        TreeNode::Split { column, default_left, cats, left, right } => {
            let col = *column as usize;
            let go_left = if col < codes.len() && codes[col].is_some() {
                let code = codes[col].unwrap();
                let mut found = false;
                let mut k: usize = 0;
                while k < cats.len()
                    invariant
                        k <= cats@.len(),
                        found <==> exists|j: int| 0 <= j < k && cats@[j] == code,
                    decreases cats@.len() - k,
                {
                    if cats[k] == code {
                        found = true;
                    }
                    k = k + 1;
                }
                proof {
                    assert(found == cats@.contains(code));
                }
                found
            } else {
                *default_left
            };
            if go_left {
                eval_tree(left, codes)
            } else {
                eval_tree(right, codes)
            }
        },
    }
}

/// The column codes of the resolved keys `refs`: for each of the 64
/// columns, the code of the last key that has one there.
pub open spec fn spec_col_codes(refs: Seq<VocabRef>) -> Seq<Option<u32>>
    decreases refs.len(),
{
    if refs.len() == 0 {
        Seq::new(MAX_BOUNDARY_CAT_COLUMNS as nat, |c: int| None::<u32>)
    } else {
        let p = spec_col_codes(refs.drop_last());
        match refs.last().cat {
            Some((col, code)) => if col < MAX_BOUNDARY_CAT_COLUMNS {
                p.update(col as int, Some(code))
            } else {
                p
            },
            None => p,
        }
    }
}

pub proof fn lemma_col_codes_len(refs: Seq<VocabRef>)
    ensures
        spec_col_codes(refs).len() == MAX_BOUNDARY_CAT_COLUMNS,
    decreases refs.len(),
{
    if refs.len() > 0 {
        lemma_col_codes_len(refs.drop_last());
    }
}

/// The column codes of `refs` (see [`spec_col_codes`]).
pub fn column_codes(refs: &[VocabRef]) -> (r: Vec<Option<u32>>)
    ensures
        r@ == spec_col_codes(refs@),
{
    let mut codes: Vec<Option<u32>> = Vec::new();
    let mut c: u32 = 0;
    while c < MAX_BOUNDARY_CAT_COLUMNS
        invariant
            c <= MAX_BOUNDARY_CAT_COLUMNS,
            codes@ == Seq::new(c as nat, |q: int| None::<u32>),
        decreases MAX_BOUNDARY_CAT_COLUMNS - c,
    {
        codes.push(None);
        proof {
            assert(codes@ =~= Seq::new((c + 1) as nat, |q: int| None::<u32>));
        }
        c = c + 1;
    }
    proof {
        assert(codes@ =~= spec_col_codes(refs@.take(0)));
    }
    let mut k: usize = 0;
    while k < refs.len()
        invariant
            k <= refs@.len(),
            codes@ == spec_col_codes(refs@.take(k as int)),
        decreases refs@.len() - k,
    {
        proof {
            assert(refs@.take(k + 1).drop_last() =~= refs@.take(k as int));
            lemma_col_codes_len(refs@.take(k as int));
        }
        match refs[k].cat {
            Some((col, code)) => {
                if col < MAX_BOUNDARY_CAT_COLUMNS {
                    codes.set(col as usize, Some(code));
                }
            },
            None => {},
        }
        k = k + 1;
    }
    proof {
        assert(refs@.take(refs@.len() as int) =~= refs@);
    }
    codes
}

/// For each tree, the value (bits) of the leaf it reaches for the resolved
/// keys `refs`; the ensemble's score is their sum, in this order.
pub fn tree_leaf_values(trees: &[TreeNode], refs: &[VocabRef]) -> (r: Vec<u32>)
    ensures
        r@.len() == trees@.len(),
        forall|i: int| 0 <= i < trees@.len() ==> r@[i] == spec_eval(spec_tree_view(#[trigger] trees@[i]), spec_col_codes(refs@)),
{
    let codes = column_codes(refs);
    let mut out: Vec<u32> = Vec::new();
    let mut i: usize = 0;
    while i < trees.len()
        invariant
            i <= trees@.len(),
            codes@ == spec_col_codes(refs@),
            out@.len() == i,
            forall|j: int| 0 <= j < i ==> out@[j] == spec_eval(spec_tree_view(#[trigger] trees@[j]), codes@),
        decreases trees@.len() - i,
    {
        let v = eval_tree(&trees[i], &codes);
        out.push(v);
        i = i + 1;
    }
    out
}

/// The weights of a linear boundary model that the resolved keys `refs`
/// select, in order (keys whose id is past the weights select none); the
/// score is the intercept plus their sum times the scale.
pub fn linear_terms<T: Copy>(data: &[T], refs: &[VocabRef]) -> (r: Vec<T>)
    ensures
        r@ == spec_linear_terms(data@, refs@),
{
    let mut out: Vec<T> = Vec::new();
    let mut k: usize = 0;
    while k < refs.len()
        invariant
            k <= refs@.len(),
            out@ == spec_linear_terms(data@, refs@.take(k as int)),
        decreases refs@.len() - k,
    {
        proof {
            assert(refs@.take(k + 1).drop_last() =~= refs@.take(k as int));
        }
        let id = refs[k].feature_id as usize;
        if id < data.len() {
            out.push(data[id]);
        }
        k = k + 1;
    }
    proof {
        assert(refs@.take(refs@.len() as int) =~= refs@);
    }
    out
}

/// The weights the keys `refs` select from `data`.
pub open spec fn spec_linear_terms<T>(data: Seq<T>, refs: Seq<VocabRef>) -> Seq<T>
    decreases refs.len(),
{
    if refs.len() == 0 {
        Seq::empty()
    } else {
        let p = spec_linear_terms(data, refs.drop_last());
        let id = refs.last().feature_id;
        if id < data.len() {
            p.push(data[id as int])
        } else {
            p
        }
    }
}


// ------------------------------------------------------------
// Statistics
// ------------------------------------------------------------

/// Statistics of a tree ensemble (diagnostics).
#[derive(Debug, Clone)]
pub struct TreeStats {
    pub n_trees: usize,
    pub n_splits: usize,
    pub n_leaves: usize,
    /// Categories over all splits.
    pub cats_total: usize,
    /// Depth of the deepest leaf (a root leaf has depth 0).
    pub max_depth: usize,
    /// Per column (64 of them), the splits on it that have categories.
    pub splits_per_column: Vec<usize>,
}

/// Splits, leaves and categories of a tree.
pub open spec fn spec_counts(t: SpecTree) -> (int, int, int)
    decreases t,
{
    match t {
        SpecTree::Leaf(_) => (0, 1, 0),
        SpecTree::Split(_, _, cats, l, r) => {
            let a = spec_counts(*l);
            let b = spec_counts(*r);
            (a.0 + b.0 + 1, a.1 + b.1, a.2 + b.2 + cats.len())
        },
    }
}

/// Depth of the deepest leaf of a tree.
pub open spec fn spec_depth(t: SpecTree) -> int
    decreases t,
{
    match t {
        SpecTree::Leaf(_) => 0,
        SpecTree::Split(_, _, _, l, r) => {
            let a = spec_depth(*l);
            let b = spec_depth(*r);
            1 + if a > b {
                a
            } else {
                b
            }
        },
    }
}

/// Splits on column `col` that have categories.
pub open spec fn spec_col_splits(t: SpecTree, col: int) -> int
    decreases t,
{
    match t {
        SpecTree::Leaf(_) => 0,
        SpecTree::Split(c, _, cats, l, r) => spec_col_splits(*l, col) + spec_col_splits(*r, col) + (if c
            == col && cats.len() > 0 {
            1int
        } else {
            0int
        }),
    }
}

proof fn lemma_counts_nonneg(t: SpecTree)
    ensures
        spec_counts(t).0 >= 0,
        spec_counts(t).1 >= 1,
        spec_counts(t).2 >= 0,
        spec_depth(t) >= 0,
    decreases t,
{
    match t {
        SpecTree::Leaf(_) => {},
        SpecTree::Split(_, _, _, l, r) => {
            lemma_counts_nonneg(*l);
            lemma_counts_nonneg(*r);
        },
    }
}

proof fn lemma_col_splits_nonneg(t: SpecTree, c: int)
    ensures
        spec_col_splits(t, c) >= 0,
    decreases t,
{
    match t {
        SpecTree::Leaf(_) => {},
        SpecTree::Split(_, _, _, l, r) => {
            lemma_col_splits_nonneg(*l, c);
            lemma_col_splits_nonneg(*r, c);
        },
    }
}

/// Running totals: splits, leaves, categories, deepest leaf.
pub type StatAcc = (usize, usize, usize, usize);

pub open spec fn spec_max(a: int, b: int) -> int {
    if a >= b {
        a
    } else {
        b
    }
}

/// Adds the statistics of `t`, whose root is at depth `depth`, to `acc`
/// and to the per-column counts `per_col`.
fn add_stats(t: &TreeNode, depth: usize, acc: &mut StatAcc, per_col: &mut Vec<usize>)
    requires
        old(per_col)@.len() == MAX_BOUNDARY_CAT_COLUMNS,
        depth + spec_depth(spec_tree_view(*t)) <= usize::MAX,
        old(acc).0 + spec_counts(spec_tree_view(*t)).0 <= usize::MAX,
        old(acc).1 + spec_counts(spec_tree_view(*t)).1 <= usize::MAX,
        old(acc).2 + spec_counts(spec_tree_view(*t)).2 <= usize::MAX,
        forall|c: int|
            0 <= c < MAX_BOUNDARY_CAT_COLUMNS ==> #[trigger] old(per_col)@[c] + spec_col_splits(spec_tree_view(*t), c)
                <= usize::MAX,
    ensures
        final(per_col)@.len() == MAX_BOUNDARY_CAT_COLUMNS,
        final(acc).0 == old(acc).0 + spec_counts(spec_tree_view(*t)).0,
        final(acc).1 == old(acc).1 + spec_counts(spec_tree_view(*t)).1,
        final(acc).2 == old(acc).2 + spec_counts(spec_tree_view(*t)).2,
        final(acc).3 == spec_max(old(acc).3 as int, depth + spec_depth(spec_tree_view(*t))),
        forall|c: int|
            0 <= c < MAX_BOUNDARY_CAT_COLUMNS ==> #[trigger] final(per_col)@[c] == old(per_col)@[c] + spec_col_splits(spec_tree_view(*t), c),
    decreases t,
{
    proof {
        lemma_counts_nonneg(spec_tree_view(*t));
    }
    match t {
        TreeNode::Leaf { .. } => {
            acc.1 = acc.1 + 1;
            if depth > acc.3 {
                acc.3 = depth;
            }
        },
        TreeNode::Split { column, default_left, cats, left, right } => {
            proof {
                assert(spec_tree_view(*t) == SpecTree::Split(
                    *column,
                    *default_left,
                    cats@,
                    Box::new(spec_tree_view(**left)),
                    Box::new(spec_tree_view(**right)),
                ));
                lemma_counts_nonneg(spec_tree_view(**left));
                lemma_counts_nonneg(spec_tree_view(**right));
                assert forall|q: int| 0 <= q < MAX_BOUNDARY_CAT_COLUMNS implies #[trigger] per_col@[q] + spec_col_splits(spec_tree_view(**left), q)
                    + spec_col_splits(spec_tree_view(**right), q) + (if *column == q && cats@.len() > 0 { 1int } else { 0int }) <= usize::MAX
                    && spec_col_splits(spec_tree_view(**left), q) >= 0 && spec_col_splits(spec_tree_view(**right), q) >= 0 by {
                    lemma_col_splits_nonneg(spec_tree_view(**left), q);
                    lemma_col_splits_nonneg(spec_tree_view(**right), q);
                }
            }
            acc.0 = acc.0 + 1;
            acc.2 = acc.2 + cats.len();
            if cats.len() > 0 && *column < MAX_BOUNDARY_CAT_COLUMNS {
                let c = *column as usize;
                let v = per_col[c];
                per_col.set(c, v + 1);
            }
            add_stats(left, depth + 1, acc, per_col);
            add_stats(right, depth + 1, acc, per_col);
        },
    }
}

/// Totals over the trees `ts`: splits, leaves, categories, deepest leaf,
/// and per column the splits with categories.
pub open spec fn spec_ensemble_stats(ts: Seq<SpecTree>) -> (int, int, int, int)
    decreases ts.len(),
{
    if ts.len() == 0 {
        (0, 0, 0, 0)
    } else {
        let p = spec_ensemble_stats(ts.drop_last());
        let c = spec_counts(ts.last());
        (p.0 + c.0, p.1 + c.1, p.2 + c.2, spec_max(p.3, spec_depth(ts.last())))
    }
}

pub open spec fn spec_ensemble_col_splits(ts: Seq<SpecTree>, col: int) -> int
    decreases ts.len(),
{
    if ts.len() == 0 {
        0
    } else {
        spec_ensemble_col_splits(ts.drop_last(), col) + spec_col_splits(ts.last(), col)
    }
}

/// The statistics of the trees `trees` (see [`TreeStats`]).
pub fn tree_stats(trees: &[TreeNode]) -> (r: TreeStats)
    requires
        ({
            let st = spec_ensemble_stats(spec_trees_view(trees@));
            &&& st.0 <= usize::MAX
            &&& st.1 <= usize::MAX
            &&& st.2 <= usize::MAX
            &&& st.3 <= usize::MAX
        }),
        forall|c: int|
            0 <= c < MAX_BOUNDARY_CAT_COLUMNS ==> #[trigger] spec_ensemble_col_splits(spec_trees_view(trees@), c) <= usize::MAX,
    ensures
        ({
            let st = spec_ensemble_stats(spec_trees_view(trees@));
            &&& r.n_trees == trees@.len()
            &&& r.n_splits == st.0
            &&& r.n_leaves == st.1
            &&& r.cats_total == st.2
            &&& r.max_depth == st.3
        }),
        r.splits_per_column@.len() == MAX_BOUNDARY_CAT_COLUMNS,
        forall|c: int|
            0 <= c < MAX_BOUNDARY_CAT_COLUMNS ==> #[trigger] r.splits_per_column@[c] == spec_ensemble_col_splits(spec_trees_view(trees@), c),
{
    let ghost tv = spec_trees_view(trees@);
    let mut per_col: Vec<usize> = Vec::new();
    let mut c: u32 = 0;
    while c < MAX_BOUNDARY_CAT_COLUMNS
        invariant
            c <= MAX_BOUNDARY_CAT_COLUMNS,
            per_col@.len() == c,
            forall|q: int| 0 <= q < c ==> #[trigger] per_col@[q] == 0,
        decreases MAX_BOUNDARY_CAT_COLUMNS - c,
    {
        per_col.push(0);
        c = c + 1;
    }
    let mut acc: StatAcc = (0, 0, 0, 0);
    let mut i: usize = 0;
    while i < trees.len()
        invariant
            tv == spec_trees_view(trees@),
            i <= trees@.len(),
            per_col@.len() == MAX_BOUNDARY_CAT_COLUMNS,
            ({
                let st = spec_ensemble_stats(tv.take(i as int));
                &&& acc.0 == st.0
                &&& acc.1 == st.1
                &&& acc.2 == st.2
                &&& acc.3 == st.3
            }),
            ({
                let st = spec_ensemble_stats(tv);
                &&& st.0 <= usize::MAX
                &&& st.1 <= usize::MAX
                &&& st.2 <= usize::MAX
                &&& st.3 <= usize::MAX
            }),
            forall|q: int|
                0 <= q < MAX_BOUNDARY_CAT_COLUMNS ==> #[trigger] spec_ensemble_col_splits(tv, q) <= usize::MAX,
            forall|q: int|
                0 <= q < MAX_BOUNDARY_CAT_COLUMNS ==> #[trigger] per_col@[q] == spec_ensemble_col_splits(tv.take(i as int), q),
        decreases trees@.len() - i,
    {
        proof {
            assert(tv.take(i + 1).drop_last() =~= tv.take(i as int));
            assert(tv.take(i + 1).last() == spec_tree_view(trees@[i as int]));
            lemma_stats_prefix(tv, i as int + 1);
            assert forall|q: int| 0 <= q < MAX_BOUNDARY_CAT_COLUMNS implies #[trigger] per_col@[q] + spec_col_splits(
                spec_tree_view(trees@[i as int]),
                q,
            ) <= usize::MAX by {
                lemma_ensemble_col_mono(tv, i + 1, q);
            }
        }
        add_stats(&trees[i], 0, &mut acc, &mut per_col);
        i = i + 1;
    }
    proof {
        assert(tv.take(trees@.len() as int) =~= tv);
    }
    TreeStats {
        n_trees: trees.len(),
        n_splits: acc.0,
        n_leaves: acc.1,
        cats_total: acc.2,
        max_depth: acc.3,
        splits_per_column: per_col,
    }
}

/// The totals grow with the trees taken.
proof fn lemma_stats_prefix(ts: Seq<SpecTree>, k: int)
    requires
        0 <= k <= ts.len(),
    ensures
        ({
            let a = spec_ensemble_stats(ts.take(k));
            let b = spec_ensemble_stats(ts);
            &&& 0 <= a.0 <= b.0
            &&& 0 <= a.1 <= b.1
            &&& 0 <= a.2 <= b.2
            &&& 0 <= a.3 <= b.3
        }),
    decreases ts.len() - k,
{
    if k < ts.len() {
        lemma_stats_prefix(ts, k + 1);
        assert(ts.take(k + 1).drop_last() =~= ts.take(k));
        lemma_counts_nonneg(ts[k]);
        assert(ts.take(k + 1).last() == ts[k]);
        lemma_stats_nonneg(ts.take(k));
    } else {
        assert(ts.take(k) =~= ts);
        lemma_stats_nonneg(ts);
    }
}

proof fn lemma_stats_nonneg(ts: Seq<SpecTree>)
    ensures
        spec_ensemble_stats(ts).0 >= 0,
        spec_ensemble_stats(ts).1 >= 0,
        spec_ensemble_stats(ts).2 >= 0,
        spec_ensemble_stats(ts).3 >= 0,
    decreases ts.len(),
{
    if ts.len() > 0 {
        lemma_stats_nonneg(ts.drop_last());
        lemma_counts_nonneg(ts.last());
    }
}

proof fn lemma_ensemble_col_mono(ts: Seq<SpecTree>, k: int, c: int)
    requires
        0 <= k <= ts.len(),
    ensures
        0 <= spec_ensemble_col_splits(ts.take(k), c) <= spec_ensemble_col_splits(ts, c),
    decreases ts.len() - k,
{
    if k < ts.len() {
        lemma_ensemble_col_mono(ts, k + 1, c);
        assert(ts.take(k + 1).drop_last() =~= ts.take(k));
        assert(ts.take(k + 1).last() == ts[k]);
        lemma_col_splits_nonneg(ts[k], c);
        lemma_ensemble_col_nonneg(ts.take(k), c);
    } else {
        assert(ts.take(k) =~= ts);
        lemma_ensemble_col_nonneg(ts, c);
    }
}

proof fn lemma_ensemble_col_nonneg(ts: Seq<SpecTree>, c: int)
    ensures
        spec_ensemble_col_splits(ts, c) >= 0,
    decreases ts.len(),
{
    if ts.len() > 0 {
        lemma_ensemble_col_nonneg(ts.drop_last(), c);
        lemma_col_splits_nonneg(ts.last(), c);
    }
}


/// The bits of the `f32` 1.0.
pub const F32_ONE_BITS: u32 = 0x3F80_0000;

impl Default for Boundary {
    /// A linear model with scale 1.0, no weights and zero intercepts.
    fn default() -> (b: Boundary)
        ensures
            b matches Boundary::Linear { scale, data, intercept } && scale == F32_ONE_BITS
                && data@.len() == 0 && intercept == (0u32, 0u32),
    {
        Boundary::Linear { scale: F32_ONE_BITS, data: Vec::new(), intercept: (0, 0) }
    }
}

impl Default for FloatBoundary {
    /// A linear model with no weights and zero intercepts.
    fn default() -> (b: FloatBoundary)
        ensures
            b matches FloatBoundary::Linear { data, intercept } && data@.len() == 0 && intercept == (0u32, 0u32),
    {
        FloatBoundary::Linear { data: Vec::new(), intercept: (0, 0) }
    }
}

} // verus!
