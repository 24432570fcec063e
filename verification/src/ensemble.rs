//! The packed form of a tree ensemble, in which its trees are evaluated.
//!
//! The trees as parsed (see [`crate::boundary`]) are packed into two parts:
//!
//! 1. `words`, every node in two `u32`, depth first (a left child right
//!    after its parent):
//!    ```text
//!    leaf : [ LEAF_FLAG                              ][ value (f32 bits) ]
//!    split: [ column + 256 * default_left + 512 * id ][ index of right   ]
//!    ```
//!    where `id` numbers the splits of all trees in that order;
//! 2. for each column, an inverted index: the pairs (code, split id) of the
//!    splits of that column whose categories hold the code, ascending.
//!
//! For one unit, each column's code is looked up once in its index, which
//! gives the set of the splits that send the unit to the left; the trees
//! are then walked on that set alone. The leaf a tree reaches is exactly the
//! one that the direct walk of [`crate::boundary::eval_tree`] reaches.

use vstd::prelude::*;

use crate::boundary::{column_codes, lemma_col_codes_len, spec_col_codes, spec_eval, spec_tree_view, spec_trees_view, SpecTree, TreeNode};
use crate::vocab::{VocabRef, MAX_BOUNDARY_CAT_COLUMNS};

verus! {

/// Header word of a leaf.
pub const LEAF_FLAG: u32 = 0x8000_0000;
/// Weight of `default_left` in a split's header word.
pub const DEFAULT_LEFT_UNIT: u32 = 256;
/// Weight of the split id in a split's header word.
pub const SPLIT_ID_UNIT: u32 = 512;
/// Number of split ids that a header word can hold.
pub const MAX_SPLITS: u32 = 0x40_0000;

/// Number of words of tree `t`.
pub open spec fn spec_nwords(t: SpecTree) -> nat
    decreases t,
{
    match t {
        SpecTree::Leaf(_) => 2,
        SpecTree::Split(_, _, _, l, r) => 2 + spec_nwords(*l) + spec_nwords(*r),
    }
}

/// The splits of `t` in the order of their ids: column and categories.
pub open spec fn spec_splits(t: SpecTree) -> Seq<(u32, Seq<u32>)>
    decreases t,
{
    match t {
        SpecTree::Leaf(_) => Seq::empty(),
        SpecTree::Split(c, _, cats, l, r) => seq![(c, cats)] + spec_splits(*l) + spec_splits(*r),
    }
}

/// The splits of all trees `ts`, in the order of their ids.
pub open spec fn spec_all_splits(ts: Seq<SpecTree>) -> Seq<(u32, Seq<u32>)>
    decreases ts.len(),
{
    if ts.len() == 0 {
        Seq::empty()
    } else {
        spec_all_splits(ts.drop_last()) + spec_splits(ts.last())
    }
}

/// Number of words of all trees `ts`.
pub open spec fn spec_all_words(ts: Seq<SpecTree>) -> nat
    decreases ts.len(),
{
    if ts.len() == 0 {
        0
    } else {
        spec_all_words(ts.drop_last()) + spec_nwords(ts.last())
    }
}

/// The header word of a split.
pub open spec fn spec_header(column: u32, default_left: bool, id: int) -> int {
    column + (if default_left { DEFAULT_LEFT_UNIT as int } else { 0 }) + id * SPLIT_ID_UNIT
}

/// `w` holds tree `t` at `i`, its first split having id `s`.
pub open spec fn spec_encodes(w: Seq<u32>, i: int, t: SpecTree, s: int) -> bool
    decreases t,
{
    &&& 0 <= i
    &&& i + 2 <= w.len()
    &&& match t {
        SpecTree::Leaf(v) => w[i] == LEAF_FLAG && w[i + 1] == v,
        SpecTree::Split(c, dl, _, l, r) => {
            &&& c < MAX_BOUNDARY_CAT_COLUMNS
            &&& 0 <= s < MAX_SPLITS
            &&& w[i] as int == spec_header(c, dl, s)
            &&& w[i + 1] as int == i + 2 + spec_nwords(*l)
            &&& spec_encodes(w, i + 2, *l, s + 1)
            &&& spec_encodes(w, i + 2 + spec_nwords(*l), *r, s + 1 + spec_splits(*l).len())
        },
    }
}

/// Split `k` of `splits` has column `c` and category `x`: the pair
/// `(x, k)` belongs in the index of column `c`.
pub open spec fn spec_in_index(splits: Seq<(u32, Seq<u32>)>, c: u32, x: u32, k: u32) -> bool {
    &&& k < splits.len()
    &&& splits[k as int].0 == c
    &&& splits[k as int].1.contains(x)
}

/// `t` lists the (column, code, split id) triples of `splits`.
pub open spec fn spec_triples_ok(t: Seq<(u32, u32, u32)>, splits: Seq<(u32, Seq<u32>)>) -> bool {
    forall|c: u32, x: u32, k: u32| #[trigger] t.contains((c, x, k)) <==> spec_in_index(splits, c, x, k)
}

proof fn lemma_encodes_range(w: Seq<u32>, i: int, t: SpecTree, s: int)
    requires
        spec_encodes(w, i, t, s),
    ensures
        i + spec_nwords(t) <= w.len(),
    decreases t,
{
    if let SpecTree::Split(c, dl, cats, l, r) = t {
        lemma_encodes_range(w, i + 2 + spec_nwords(*l), *r, s + 1 + spec_splits(*l).len());
    }
}

/// `spec_encodes` reads only the words of the tree.
proof fn lemma_encodes_frame(w1: Seq<u32>, w2: Seq<u32>, i: int, t: SpecTree, s: int)
    requires
        spec_encodes(w1, i, t, s),
        i + spec_nwords(t) <= w2.len(),
        forall|j: int| i <= j < i + spec_nwords(t) ==> w1[j] == w2[j],
    ensures
        spec_encodes(w2, i, t, s),
    decreases t,
{
    if let SpecTree::Split(c, dl, cats, l, r) = t {
        lemma_encodes_frame(w1, w2, i + 2, *l, s + 1);
        lemma_encodes_frame(w1, w2, i + 2 + spec_nwords(*l), *r, s + 1 + spec_splits(*l).len());
    }
}

/// Every split of `splits` has a column below the number of columns.
pub open spec fn spec_columns_ok(splits: Seq<(u32, Seq<u32>)>) -> bool {
    forall|k: int| 0 <= k < splits.len() ==> (#[trigger] splits[k]).0 < MAX_BOUNDARY_CAT_COLUMNS
}

/// Packs `node` at the end of `words`, its first split having id
/// `*n_splits`, and lists its (column, code, split id) triples.
fn emit(
    node: &TreeNode,
    words: &mut Vec<u32>,
    n_splits: &mut u32,
    triples: &mut Vec<(u32, u32, u32)>,
    Ghost(sp): Ghost<Seq<(u32, Seq<u32>)>>,
)
    requires
        sp.len() == *old(n_splits),
        old(words)@.len() + spec_nwords(spec_tree_view(*node)) <= u32::MAX,
        *old(n_splits) + spec_splits(spec_tree_view(*node)).len() <= MAX_SPLITS,
        spec_columns_ok(spec_splits(spec_tree_view(*node))),
        spec_triples_ok(old(triples)@, sp),
    ensures
        final(words)@.len() == old(words)@.len() + spec_nwords(spec_tree_view(*node)),
        final(words)@.subrange(0, old(words)@.len() as int) == old(words)@,
        spec_encodes(final(words)@, old(words)@.len() as int, spec_tree_view(*node), *old(n_splits) as int),
        *final(n_splits) == *old(n_splits) + spec_splits(spec_tree_view(*node)).len(),
        spec_triples_ok(final(triples)@, sp + spec_splits(spec_tree_view(*node))),
    decreases node,
{
    let ghost w0 = words@;
    let ghost t = spec_tree_view(*node);
    match node {
        TreeNode::Leaf { value } => {
            words.push(LEAF_FLAG);
            words.push(*value);
            proof {
                assert(sp + spec_splits(t) =~= sp);
                assert(words@.subrange(0, w0.len() as int) =~= w0);
            }
        },
        TreeNode::Split { column, default_left, cats, left, right } => {
            let ghost tl = spec_tree_view(**left);
            let ghost tr = spec_tree_view(**right);
            proof {
                assert(spec_splits(t)[0] == (*column, cats@));
                assert(spec_splits(t) =~= seq![(*column, cats@)] + spec_splits(tl) + spec_splits(tr));
                assert forall|k: int| 0 <= k < spec_splits(tl).len() implies (#[trigger] spec_splits(tl)[k]).0
                    < MAX_BOUNDARY_CAT_COLUMNS by {
                    assert(spec_splits(tl)[k] == spec_splits(t)[1 + k]);
                }
                assert forall|k: int| 0 <= k < spec_splits(tr).len() implies (#[trigger] spec_splits(tr)[k]).0
                    < MAX_BOUNDARY_CAT_COLUMNS by {
                    assert(spec_splits(tr)[k] == spec_splits(t)[1 + spec_splits(tl).len() + k]);
                }
            }
            let split_id = *n_splits;
            *n_splits = split_id + 1;
            let ghost sp1 = sp.push((*column, cats@));
            let ghost t0 = triples@;
            let mut q: usize = 0;
            while q < cats.len()
                invariant
                    q <= cats@.len(),
                    sp.len() == split_id,
                    spec_triples_ok(t0, sp),
                    forall|c: u32, x: u32, k: u32|
                        #[trigger] triples@.contains((c, x, k)) <==> (t0.contains((c, x, k)) || (c == *column
                            && k == split_id && exists|j: int| 0 <= j < q && cats@[j] == x)),
                decreases cats@.len() - q,
            {
                let ghost before = triples@;
                triples.push((*column, cats[q], split_id));
                proof {
                    assert forall|c: u32, x: u32, k: u32|
                        #[trigger] triples@.contains((c, x, k)) <==> (t0.contains((c, x, k)) || (c == *column
                            && k == split_id && exists|j: int| 0 <= j < q + 1 && cats@[j] == x)) by {
                        if triples@.contains((c, x, k)) {
                            let m = choose|m: int| 0 <= m < triples@.len() && triples@[m] == (c, x, k);
                            if m < before.len() {
                                assert(before[m] == (c, x, k));
                                assert(before.contains((c, x, k)));
                            }
                        }
                        if exists|j: int| 0 <= j < q + 1 && cats@[j] == x {
                            if c == *column && k == split_id && !(exists|j: int| 0 <= j < q && cats@[j] == x) {
                                assert(x == cats@[q as int]);
                                assert(triples@[before.len() as int] == (c, x, k));
                            }
                        }
                        if before.contains((c, x, k)) {
                            let m = choose|m: int| 0 <= m < before.len() && before[m] == (c, x, k);
                            assert(triples@[m] == (c, x, k));
                        }
                    }
                }
                q = q + 1;
            }
            proof {
                assert forall|c: u32, x: u32, k: u32| #[trigger]
                    triples@.contains((c, x, k)) <==> spec_in_index(sp1, c, x, k) by {
                    if k < sp.len() {
                        assert(sp1[k as int] == sp[k as int]);
                    }
                    if k == split_id && c == *column && cats@.contains(x) {
                        let j = choose|j: int| 0 <= j < cats@.len() && cats@[j] == x;
                        assert(0 <= j < q && cats@[j] == x);
                    }
                }
            }
            let header = *column + (if *default_left { DEFAULT_LEFT_UNIT } else { 0 }) + split_id * SPLIT_ID_UNIT;
            let i = words.len();
            words.push(header);
            words.push(0);
            let ghost w1 = words@;
            emit(left, words, n_splits, triples, Ghost(sp1));
            let ghost w2 = words@;
            let r_pos = words.len() as u32;
            words.set(i + 1, r_pos);
            let ghost w3 = words@;
            let ghost sp2 = sp1 + spec_splits(tl);
            emit(right, words, n_splits, triples, Ghost(sp2));
            proof {
                let w4 = words@;
                let nl = spec_nwords(tl);
                assert(w2.subrange(0, w1.len() as int) == w1);
                assert(w4.subrange(0, w3.len() as int) == w3);
                assert forall|j: int| i + 2 <= j < i + 2 + nl implies w2[j] == w4[j] by {
                    assert(w4[j] == w4.subrange(0, w3.len() as int)[j]);
                    assert(w3[j] == w2[j]);
                }
                lemma_encodes_frame(w2, w4, i + 2, tl, split_id + 1);
                assert(w4[i as int] == w1[i as int]) by {
                    assert(w1[i as int] == w2.subrange(0, w1.len() as int)[i as int]);
                    assert(w4[i as int] == w4.subrange(0, w3.len() as int)[i as int]);
                }
                assert(w4[i + 1] == r_pos) by {
                    assert(w4[i + 1] == w4.subrange(0, w3.len() as int)[i + 1]);
                }
                assert forall|j: int| 0 <= j < w0.len() implies w4[j] == w0[j] by {
                    assert(w1[j] == w0[j]);
                    assert(w2[j] == w1[j]) by {
                        assert(w2.subrange(0, w1.len() as int)[j] == w2[j]);
                    }
                    assert(w4[j] == w4.subrange(0, w3.len() as int)[j]);
                }
                assert(w4.subrange(0, w0.len() as int) =~= w0);
                assert(sp2 + spec_splits(tr) =~= sp + spec_splits(t));
                assert(split_id + 1 + spec_splits(tl).len() == sp2.len());
            }
        },
    }
}

/// Pairs are ordered by their first element, then by their second.
pub open spec fn spec_pair_le(a: (u32, u32), b: (u32, u32)) -> bool {
    a.0 < b.0 || (a.0 == b.0 && a.1 <= b.1)
}

/// `slice::sort_unstable` on pairs: afterwards the same pairs, each as
/// often, stand in ascending order (a tuple compares by its first element,
/// then by its second).
#[verifier::external_body]
fn sort_pairs(v: &mut Vec<(u32, u32)>)
    ensures
        final(v)@.to_multiset() == old(v)@.to_multiset(),
        forall|i: int, j: int| 0 <= i < j < final(v)@.len() ==> spec_pair_le(final(v)@[i], final(v)@[j]),
{
    v.sort_unstable();
}

/// The inverted index of one column: split `splits[i]` of this column has
/// code `codes[i]` among its categories.
#[derive(Debug)]
pub struct ColumnIndex {
    pub codes: Vec<u32>,
    pub splits: Vec<u32>,
}

/// `ci` is the index of column `c` of `splits`: its pairs, ascending, are
/// exactly those of [`spec_in_index`].
pub open spec fn spec_index_ok(ci: ColumnIndex, splits: Seq<(u32, Seq<u32>)>, c: u32) -> bool {
    &&& ci.codes@.len() == ci.splits@.len()
    &&& forall|i: int, j: int|
        0 <= i < j < ci.codes@.len() ==> spec_pair_le(
            (ci.codes@[i], ci.splits@[i]),
            (ci.codes@[j], ci.splits@[j]),
        )
    &&& forall|x: u32, k: u32|
        #![trigger spec_in_index(splits, c, x, k)]
        (exists|i: int| 0 <= i < ci.codes@.len() && ci.codes@[i] == x && ci.splits@[i] == k) <==> spec_in_index(
            splits,
            c,
            x,
            k,
        )
}

/// The index of column `c` from the triples `t`.
fn column_index(t: &Vec<(u32, u32, u32)>, c: u32) -> (ci: ColumnIndex)
    ensures
        ci.codes@.len() == ci.splits@.len(),
        forall|i: int, j: int|
            0 <= i < j < ci.codes@.len() ==> spec_pair_le(
                (ci.codes@[i], ci.splits@[i]),
                (ci.codes@[j], ci.splits@[j]),
            ),
        forall|x: u32, k: u32|
            (exists|i: int| 0 <= i < ci.codes@.len() && ci.codes@[i] == x && ci.splits@[i] == k) <==> #[trigger] t@.contains(
                (c, x, k),
            ),
{
    let mut pairs: Vec<(u32, u32)> = Vec::new();
    let mut q: usize = 0;
    while q < t.len()
        invariant
            q <= t@.len(),
            forall|x: u32, k: u32|
                #[trigger] pairs@.contains((x, k)) <==> exists|j: int| 0 <= j < q && t@[j] == (c, x, k),
        decreases t@.len() - q,
    {
        let (tc, x, k) = t[q];
        let ghost before = pairs@;
        if tc == c {
            pairs.push((x, k));
        }
        proof {
            assert forall|x2: u32, k2: u32|
                #[trigger] pairs@.contains((x2, k2)) <==> exists|j: int| 0 <= j < q + 1 && t@[j] == (c, x2, k2) by {
                if pairs@.contains((x2, k2)) {
                    let m = choose|m: int| 0 <= m < pairs@.len() && pairs@[m] == (x2, k2);
                    if m < before.len() {
                        assert(before[m] == (x2, k2));
                        assert(before.contains((x2, k2)));
                        let j = choose|j: int| 0 <= j < q && t@[j] == (c, x2, k2);
                        assert(0 <= j < q + 1 && t@[j] == (c, x2, k2));
                    } else {
                        assert(tc == c && x == x2 && k == k2);
                        assert(t@[q as int] == (c, x2, k2));
                    }
                }
                if exists|j: int| 0 <= j < q + 1 && t@[j] == (c, x2, k2) {
                    let j = choose|j: int| 0 <= j < q + 1 && t@[j] == (c, x2, k2);
                    if j < q {
                        assert(before.contains((x2, k2)));
                        let m = choose|m: int| 0 <= m < before.len() && before[m] == (x2, k2);
                        assert(pairs@[m] == (x2, k2));
                    } else {
                        assert(t@[q as int] == (tc, x, k));
                        assert(pairs@[before.len() as int] == (x2, k2));
                    }
                }
            }
        }
        q = q + 1;
    }
    let ghost unsorted = pairs@;
    sort_pairs(&mut pairs);
    proof {
        assert forall|x: u32, k: u32| #[trigger] pairs@.contains((x, k)) <==> unsorted.contains((x, k)) by {
            vstd::seq_lib::to_multiset_contains(pairs@, (x, k));
            vstd::seq_lib::to_multiset_contains(unsorted, (x, k));
        }
    }
    let mut codes: Vec<u32> = Vec::new();
    let mut splits: Vec<u32> = Vec::new();
    let mut q: usize = 0;
    while q < pairs.len()
        invariant
            q <= pairs@.len(),
            codes@.len() == q,
            splits@.len() == q,
            forall|j: int| 0 <= j < q ==> codes@[j] == pairs@[j].0 && splits@[j] == pairs@[j].1,
        decreases pairs@.len() - q,
    {
        codes.push(pairs[q].0);
        splits.push(pairs[q].1);
        q = q + 1;
    }
    let ci = ColumnIndex { codes, splits };
    proof {
        assert forall|x: u32, k: u32|
            (exists|i: int| 0 <= i < ci.codes@.len() && ci.codes@[i] == x && ci.splits@[i] == k) <==> #[trigger] t@.contains(
                (c, x, k),
            ) by {
            if exists|i: int| 0 <= i < ci.codes@.len() && ci.codes@[i] == x && ci.splits@[i] == k {
                let i = choose|i: int| 0 <= i < ci.codes@.len() && ci.codes@[i] == x && ci.splits@[i] == k;
                assert(pairs@[i] == (x, k));
                assert(pairs@.contains((x, k)));
                let j = choose|j: int| 0 <= j < t@.len() && t@[j] == (c, x, k);
                assert(t@.contains((c, x, k)));
            }
            if t@.contains((c, x, k)) {
                let j = choose|j: int| 0 <= j < t@.len() && t@[j] == (c, x, k);
                assert(unsorted.contains((x, k)));
                assert(pairs@.contains((x, k)));
                let i = choose|i: int| 0 <= i < pairs@.len() && pairs@[i] == (x, k);
                assert(ci.codes@[i] == x && ci.splits@[i] == k);
            }
        }
        assert forall|i: int, j: int| 0 <= i < j < ci.codes@.len() implies spec_pair_le(
            (ci.codes@[i], ci.splits@[i]),
            (ci.codes@[j], ci.splits@[j]),
        ) by {
            assert(pairs@[i] == (ci.codes@[i], ci.splits@[i]));
            assert(pairs@[j] == (ci.codes@[j], ci.splits@[j]));
        }
    }
    ci
}

/// The packed trees of a tree boundary model.
pub struct TreeEnsemble {
    words: Vec<u32>,
    roots: Vec<u32>,
    n_splits: usize,
    columns: Vec<ColumnIndex>,
    trees: Ghost<Seq<SpecTree>>,
}

/// The trees `ts` can be packed: split ids and word indices fit in their
/// fields, and every column has an index.
pub open spec fn spec_pack_ok(ts: Seq<SpecTree>) -> bool {
    &&& spec_all_splits(ts).len() <= MAX_SPLITS
    &&& spec_all_words(ts) <= u32::MAX
    &&& spec_columns_ok(spec_all_splits(ts))
}

/// Id of the first split of tree `j` of `ts`.
pub open spec fn spec_base(ts: Seq<SpecTree>, j: int) -> int {
    spec_all_splits(ts.take(j)).len() as int
}

proof fn lemma_all_step(ts: Seq<SpecTree>, j: int)
    requires
        0 <= j < ts.len(),
    ensures
        spec_all_splits(ts.take(j + 1)) == spec_all_splits(ts.take(j)) + spec_splits(ts[j]),
        spec_all_words(ts.take(j + 1)) == spec_all_words(ts.take(j)) + spec_nwords(ts[j]),
{
    assert(ts.take(j + 1).drop_last() =~= ts.take(j));
}

/// The trees before tree `j` take the first ids and words.
proof fn lemma_all_prefix(ts: Seq<SpecTree>, j: int)
    requires
        0 <= j <= ts.len(),
    ensures
        spec_base(ts, j) <= spec_all_splits(ts).len(),
        spec_all_splits(ts).subrange(0, spec_base(ts, j)) == spec_all_splits(ts.take(j)),
        spec_all_words(ts.take(j)) <= spec_all_words(ts),
    decreases ts.len(),
{
    if j == ts.len() {
        assert(ts.take(j) =~= ts);
        assert(spec_all_splits(ts).subrange(0, spec_base(ts, j)) =~= spec_all_splits(ts));
    } else {
        let p = ts.drop_last();
        assert(p.take(j) =~= ts.take(j));
        lemma_all_prefix(p, j);
        assert(spec_all_splits(ts) == spec_all_splits(p) + spec_splits(ts.last()));
        assert(spec_all_splits(ts).subrange(0, spec_base(ts, j)) =~= spec_all_splits(p).subrange(0, spec_base(p, j)));
    }
}

/// The splits of tree `j` take the ids from its base on.
proof fn lemma_tree_splits(ts: Seq<SpecTree>, j: int)
    requires
        0 <= j < ts.len(),
    ensures
        spec_base(ts, j) + spec_splits(ts[j]).len() <= spec_all_splits(ts).len(),
        spec_all_splits(ts).subrange(spec_base(ts, j), spec_base(ts, j) + spec_splits(ts[j]).len())
            == spec_splits(ts[j]),
{
    lemma_all_step(ts, j);
    lemma_all_prefix(ts, j + 1);
    let a = spec_all_splits(ts);
    let b = spec_base(ts, j);
    let n = spec_splits(ts[j]).len();
    assert(a.subrange(0, b + n) == spec_all_splits(ts.take(j)) + spec_splits(ts[j]));
    assert(a.subrange(b, b + n) =~= a.subrange(0, b + n).subrange(b, b + n));
    assert(a.subrange(b, b + n) =~= spec_splits(ts[j]));
}

impl TreeEnsemble {
    /// The trees, as parsed.
    pub closed spec fn view(&self) -> Seq<SpecTree> {
        self.trees@
    }

    /// The words hold every tree at its root, each column's index is
    /// complete and ascending.
    pub closed spec fn wf(&self) -> bool {
        let ts = self.trees@;
        let all = spec_all_splits(ts);
        &&& spec_pack_ok(ts)
        &&& self.roots@.len() == ts.len()
        &&& self.n_splits == all.len()
        &&& forall|j: int|
            0 <= j < ts.len() ==> spec_encodes(self.words@, #[trigger] self.roots@[j] as int, ts[j], spec_base(ts, j))
        &&& self.columns@.len() == MAX_BOUNDARY_CAT_COLUMNS
        &&& forall|c: int| 0 <= c < MAX_BOUNDARY_CAT_COLUMNS ==> spec_index_ok(#[trigger] self.columns@[c], all, c as u32)
    }

    /// Number of trees.
    pub fn n_trees(&self) -> (n: usize)
        requires
            self.wf(),
        ensures
            n == self@.len(),
    {
        self.roots.len()
    }

    /// Packs `trees`.
    pub fn new(trees: &[TreeNode]) -> (r: TreeEnsemble)
        requires
            spec_pack_ok(spec_trees_view(trees@)),
        ensures
            r.wf(),
            r@ == spec_trees_view(trees@),
    {
        let ghost ts = spec_trees_view(trees@);
        let mut words: Vec<u32> = Vec::new();
        let mut roots: Vec<u32> = Vec::new();
        let mut n_splits: u32 = 0;
        let mut triples: Vec<(u32, u32, u32)> = Vec::new();
        let mut j: usize = 0;
        proof {
            assert(ts.take(0) =~= Seq::<SpecTree>::empty());
            assert(spec_all_splits(ts.take(0)) =~= Seq::<(u32, Seq<u32>)>::empty());
        }
        while j < trees.len()
            invariant
                ts == spec_trees_view(trees@),
                ts.len() == trees@.len(),
                spec_pack_ok(ts),
                j <= ts.len(),
                roots@.len() == j,
                words@.len() == spec_all_words(ts.take(j as int)),
                n_splits == spec_base(ts, j as int),
                spec_triples_ok(triples@, spec_all_splits(ts.take(j as int))),
                forall|m: int| 0 <= m < j ==> spec_encodes(words@, #[trigger] roots@[m] as int, ts[m], spec_base(ts, m)),
            decreases ts.len() - j,
        {
            proof {
                lemma_all_step(ts, j as int);
                lemma_all_prefix(ts, j as int + 1);
                lemma_tree_splits(ts, j as int);
                assert(ts[j as int] == spec_tree_view(trees@[j as int]));
                let all = spec_all_splits(ts);
                let b = spec_base(ts, j as int);
                assert forall|k: int| 0 <= k < spec_splits(ts[j as int]).len() implies (#[trigger] spec_splits(
                    ts[j as int],
                )[k]).0 < MAX_BOUNDARY_CAT_COLUMNS by {
                    assert(spec_splits(ts[j as int])[k] == all.subrange(b, b + spec_splits(ts[j as int]).len())[k]);
                    assert(all[b + k].0 < MAX_BOUNDARY_CAT_COLUMNS);
                }
            }
            let ghost w0 = words@;
            roots.push(words.len() as u32);
            emit(&trees[j], &mut words, &mut n_splits, &mut triples, Ghost(spec_all_splits(ts.take(j as int))));
            proof {
                lemma_all_step(ts, j as int);
                assert forall|m: int| 0 <= m < j + 1 implies spec_encodes(
                    words@,
                    #[trigger] roots@[m] as int,
                    ts[m],
                    spec_base(ts, m),
                ) by {
                    if m < j {
                        lemma_encodes_range(w0, roots@[m] as int, ts[m], spec_base(ts, m));
                        assert forall|q: int|
                            roots@[m] as int <= q < roots@[m] as int + spec_nwords(ts[m]) implies w0[q] == words@[q] by {
                            assert(words@.subrange(0, w0.len() as int)[q] == words@[q]);
                        }
                        lemma_encodes_frame(w0, words@, roots@[m] as int, ts[m], spec_base(ts, m));
                    }
                }
            }
            j = j + 1;
        }
        proof {
            assert(ts.take(ts.len() as int) =~= ts);
        }
        let mut columns: Vec<ColumnIndex> = Vec::new();
        let mut c: u32 = 0;
        while c < MAX_BOUNDARY_CAT_COLUMNS
            invariant
                c <= MAX_BOUNDARY_CAT_COLUMNS,
                columns@.len() == c,
                spec_triples_ok(triples@, spec_all_splits(ts)),
                forall|d: int| 0 <= d < c ==> spec_index_ok(#[trigger] columns@[d], spec_all_splits(ts), d as u32),
            decreases MAX_BOUNDARY_CAT_COLUMNS - c,
        {
            let ci = column_index(&triples, c);
            proof {
                assert forall|x: u32, k: u32| #![trigger spec_in_index(spec_all_splits(ts), c, x, k)]
                    (exists|i: int| 0 <= i < ci.codes@.len() && ci.codes@[i] == x && ci.splits@[i] == k)
                        <==> spec_in_index(spec_all_splits(ts), c, x, k) by {
                    assert(triples@.contains((c, x, k)) <==> spec_in_index(spec_all_splits(ts), c, x, k));
                }
            }
            columns.push(ci);
            c = c + 1;
        }
        TreeEnsemble { words, roots, n_splits: n_splits as usize, columns, trees: Ghost(ts) }
    }
}

/// Bit `k` of the bit set `bits`.
pub open spec fn spec_bit(bits: Seq<u32>, k: int) -> bool {
    bits[k / 32] & (1u32 << ((k % 32) as u32)) != 0
}

/// Split `k` of `all` sends a unit with column codes `codes` to the left:
/// the unit has a code in the split's column, and it is one of the split's
/// categories.
pub open spec fn spec_goes_left(all: Seq<(u32, Seq<u32>)>, codes: Seq<Option<u32>>, k: int) -> bool {
    let c = all[k].0 as int;
    codes[c] is Some && all[k].1.contains(codes[c]->0)
}

proof fn lemma_bit_set(w: u32, b: u32, j: u32)
    by (bit_vector)
    requires
        b < 32,
        j < 32,
    ensures
        ((w | (1u32 << b)) & (1u32 << j) != 0) == (j == b || w & (1u32 << j) != 0),
{
}

proof fn lemma_bit_zero(j: u32)
    by (bit_vector)
    requires
        j < 32,
    ensures
        0u32 & (1u32 << j) == 0,
{
}

/// The first index of the ascending `v` whose element is not below `x`.
fn lower_bound(v: &Vec<u32>, x: u32) -> (r: usize)
    requires
        forall|i: int, j: int| 0 <= i < j < v@.len() ==> v@[i] <= v@[j],
    ensures
        r <= v@.len(),
        forall|i: int| 0 <= i < r ==> v@[i] < x,
        forall|i: int| r <= i < v@.len() ==> v@[i] >= x,
{
    let mut lo: usize = 0;
    let mut hi: usize = v.len();
    while lo < hi
        invariant
            lo <= hi <= v@.len(),
            forall|i: int, j: int| 0 <= i < j < v@.len() ==> v@[i] <= v@[j],
            forall|i: int| 0 <= i < lo ==> v@[i] < x,
            forall|i: int| hi <= i < v@.len() ==> v@[i] >= x,
        decreases hi - lo,
    {
        let mid = lo + (hi - lo) / 2;
        if v[mid] < x {
            lo = mid + 1;
        } else {
            hi = mid;
        }
    }
    lo
}

proof fn lemma_decode(c: int, d: int, s: int)
    by (nonlinear_arith)
    requires
        0 <= c < 256,
        0 <= d <= 1,
        0 <= s,
    ensures
        (c + 256 * d + 512 * s) % 256 == c,
        (c + 256 * d + 512 * s) / 512 == s,
        ((c + 256 * d + 512 * s) % 512 >= 256) == (d == 1),
{
}

impl TreeEnsemble {
    /// The bit set of the splits that send a unit with column codes `codes`
    /// to the left (bit `k` for split `k`).
    fn build_membership(&self, codes: &Vec<Option<u32>>) -> (bits: Vec<u32>)
        requires
            self.wf(),
            codes@.len() == MAX_BOUNDARY_CAT_COLUMNS,
        ensures
            bits@.len() * 32 >= spec_all_splits(self@).len(),
            forall|k: int|
                0 <= k < spec_all_splits(self@).len() ==> (spec_bit(bits@, k) <==> spec_goes_left(
                    spec_all_splits(self@),
                    codes@,
                    k,
                )),
    {
        let ghost all = spec_all_splits(self.trees@);
        let ghost n = all.len() as int;
        let n_words = (self.n_splits + 31) / 32;
        let mut bits: Vec<u32> = Vec::new();
        while bits.len() < n_words
            invariant
                bits@.len() <= n_words,
                forall|m: int| 0 <= m < bits@.len() ==> bits@[m] == 0,
            decreases n_words - bits@.len(),
        {
            bits.push(0);
        }
        proof {
            assert(n_words * 32 >= n);
            assert forall|k: int| 0 <= k < 32 * n_words implies !spec_bit(bits@, k) by {
                assert(0 <= k / 32 < n_words);
                lemma_bit_zero((k % 32) as u32);
            }
        }
        let mut c: usize = 0;
        while c < codes.len()
            invariant
                self.wf(),
                all == spec_all_splits(self.trees@),
                n == all.len(),
                self.n_splits == n,
                codes@.len() == MAX_BOUNDARY_CAT_COLUMNS,
                c <= codes@.len(),
                bits@.len() == n_words,
                n_words * 32 >= n,
                forall|k: int|
                    0 <= k < 32 * n_words ==> (spec_bit(bits@, k) <==> (k < n && all[k].0 < c
                        && spec_goes_left(all, codes@, k))),
            decreases codes@.len() - c,
        {
            match codes[c] {
                None => {
                    proof {
                        assert forall|k: int|
                            0 <= k < 32 * n_words implies (spec_bit(bits@, k) <==> (k < n && all[k].0 < c + 1
                                && spec_goes_left(all, codes@, k))) by {
                            if k < n && all[k].0 == c {
                                assert(!spec_goes_left(all, codes@, k));
                            }
                        }
                    }
                },
                Some(code) => {
                    let col = &self.columns[c];
                    proof {
                        assert(spec_index_ok(self.columns@[c as int], all, c as u32));
                        assert forall|i: int, j: int| 0 <= i < j < col.codes@.len() implies col.codes@[i]
                            <= col.codes@[j] by {
                            assert(spec_pair_le((col.codes@[i], col.splits@[i]), (col.codes@[j], col.splits@[j])));
                        }
                    }
                    let start = lower_bound(&col.codes, code);
                    let mut j = start;
                    while j < col.codes.len() && col.codes[j] == code
                        invariant
                            self.wf(),
                            all == spec_all_splits(self.trees@),
                            n == all.len(),
                            codes@.len() == MAX_BOUNDARY_CAT_COLUMNS,
                            c < codes@.len(),
                            codes@[c as int] == Some(code),
                            spec_index_ok(*col, all, c as u32),
                            start <= j <= col.codes@.len(),
                            forall|i: int| start <= i < j ==> col.codes@[i] == code,
                            bits@.len() == n_words,
                            n_words * 32 >= n,
                            forall|k: int|
                                0 <= k < 32 * n_words ==> (spec_bit(bits@, k) <==> (k < n && ((all[k].0 < c
                                    && spec_goes_left(all, codes@, k)) || (all[k].0 == c && exists|i: int|
                                    start <= i < j && col.splits@[i] == k)))),
                        decreases col.codes@.len() - j,
                    {
                        let sid = col.splits[j];
                        proof {
                            assert(spec_in_index(all, c as u32, code, sid));
                            assert(sid < n);
                            assert(sid / 32 < n_words) by (nonlinear_arith)
                                requires
                                    sid < n,
                                    n_words * 32 >= n,
                            ;
                        }
                        let wi = (sid / 32) as usize;
                        let b = sid % 32;
                        let ghost before = bits@;
                        let w = bits[wi];
                        bits.set(wi, w | (1u32 << b));
                        proof {
                            assert forall|k: int| 0 <= k < 32 * n_words implies (spec_bit(bits@, k) <==> (k < n && ((
                            all[k].0 < c && spec_goes_left(all, codes@, k)) || (all[k].0 == c && exists|i: int|
                                start <= i < j + 1 && col.splits@[i] == k)))) by {
                                let ex_old = exists|i: int| start <= i < j && col.splits@[i] == k;
                                let ex_new = exists|i: int| start <= i < j + 1 && col.splits@[i] == k;
                                if ex_old {
                                    let i = choose|i: int| start <= i < j && col.splits@[i] == k;
                                    assert(start <= i < j + 1 && col.splits@[i] == k);
                                }
                                if k == sid {
                                    assert(start <= j < j + 1 && col.splits@[j as int] == k);
                                    assert(ex_new);
                                    assert(k / 32 == wi && k % 32 == b);
                                    lemma_bit_set(w, b, b);
                                    assert(all[k].0 == c);
                                } else {
                                    if ex_new {
                                        let i = choose|i: int| start <= i < j + 1 && col.splits@[i] == k;
                                        assert(i != j);
                                        assert(ex_old);
                                    }
                                    assert(ex_new == ex_old);
                                    if k / 32 == wi as int {
                                        assert(k % 32 != b) by {
                                            assert(k == 32 * (k / 32) + k % 32);
                                            assert(sid == 32 * (sid / 32) + sid % 32);
                                        }
                                        lemma_bit_set(w, b, (k % 32) as u32);
                                        assert(spec_bit(bits@, k) == spec_bit(before, k));
                                    } else {
                                        assert(bits@[k / 32] == before[k / 32]);
                                        assert(spec_bit(bits@, k) == spec_bit(before, k));
                                    }
                                }
                            }
                        }
                        j = j + 1;
                    }
                    proof {
                        assert forall|k: int|
                            0 <= k < 32 * n_words implies (spec_bit(bits@, k) <==> (k < n && all[k].0 < c + 1
                                && spec_goes_left(all, codes@, k))) by {
                            if k < n && all[k].0 == c {
                                let ku = k as u32;
                                if spec_goes_left(all, codes@, k) {
                                    assert(spec_in_index(all, c as u32, code, ku));
                                    let i = choose|i: int|
                                        0 <= i < col.codes@.len() && col.codes@[i] == code && col.splits@[i] == ku;
                                    assert(i >= start);
                                    if i >= j {
                                        assert(col.codes@[j as int] != code);
                                        assert(col.codes@[j as int] >= code);
                                        assert(spec_pair_le(
                                            (col.codes@[j as int], col.splits@[j as int]),
                                            (col.codes@[i], col.splits@[i]),
                                        )) by {
                                            if i > j {
                                            }
                                        }
                                    }
                                    assert(exists|i2: int| start <= i2 < j && col.splits@[i2] == k);
                                }
                                if exists|i: int| start <= i < j && col.splits@[i] == k {
                                    let i = choose|i: int| start <= i < j && col.splits@[i] == k;
                                    assert(col.codes@[i] == code);
                                    assert(spec_in_index(all, c as u32, code, ku));
                                }
                            }
                        }
                    }
                },
            }
            c = c + 1;
        }
        proof {
            assert forall|k: int| 0 <= k < n implies (spec_bit(bits@, k) <==> spec_goes_left(all, codes@, k)) by {
                assert(all[k].0 < MAX_BOUNDARY_CAT_COLUMNS);
            }
        }
        bits
    }
}

impl TreeEnsemble {
    /// The value (bits) of the leaf that the tree at `root` reaches, for a
    /// unit whose columns with a code are `present` and whose splits to the
    /// left are `bits`.
    fn eval_packed(
        &self,
        root: u32,
        present: &Vec<bool>,
        bits: &Vec<u32>,
        Ghost(codes): Ghost<Seq<Option<u32>>>,
        Ghost(t): Ghost<SpecTree>,
        Ghost(s): Ghost<int>,
    ) -> (v: u32)
        requires
            self.wf(),
            codes.len() == MAX_BOUNDARY_CAT_COLUMNS,
            present@.len() == MAX_BOUNDARY_CAT_COLUMNS,
            forall|c: int| 0 <= c < MAX_BOUNDARY_CAT_COLUMNS ==> present@[c] == (codes[c] is Some),
            bits@.len() * 32 >= spec_all_splits(self@).len(),
            forall|k: int|
                0 <= k < spec_all_splits(self@).len() ==> (spec_bit(bits@, k) <==> spec_goes_left(
                    spec_all_splits(self@),
                    codes,
                    k,
                )),
            spec_encodes(self.words@, root as int, t, s),
            0 <= s,
            s + spec_splits(t).len() <= spec_all_splits(self@).len(),
            spec_all_splits(self@).subrange(s, s + spec_splits(t).len()) == spec_splits(t),
        ensures
            v == spec_eval(t, codes),
    {
        let ghost all = spec_all_splits(self.trees@);
        let ghost mut cur = t;
        let ghost mut cs = s;
        let mut i = root as usize;
        let nw = self.words.len();
        loop
            invariant
                nw == self.words@.len(),
                all == spec_all_splits(self.trees@),
                codes.len() == MAX_BOUNDARY_CAT_COLUMNS,
                present@.len() == MAX_BOUNDARY_CAT_COLUMNS,
                forall|c: int| 0 <= c < MAX_BOUNDARY_CAT_COLUMNS ==> present@[c] == (codes[c] is Some),
                bits@.len() * 32 >= all.len(),
                forall|k: int| 0 <= k < all.len() ==> (spec_bit(bits@, k) <==> spec_goes_left(all, codes, k)),
                spec_encodes(self.words@, i as int, cur, cs),
                0 <= cs,
                cs + spec_splits(cur).len() <= all.len(),
                all.subrange(cs, cs + spec_splits(cur).len()) == spec_splits(cur),
                spec_eval(cur, codes) == spec_eval(t, codes),
            decreases spec_nwords(cur),
        {
            let header = self.words[i];
            proof {
                match cur {
                    SpecTree::Leaf(lv) => {
                        assert(header == LEAF_FLAG);
                    },
                    SpecTree::Split(c, dl, cats, l, r) => {
                        assert(header as int == spec_header(c, dl, cs));
                        assert(header < LEAF_FLAG);
                    },
                }
            }
            if header >= LEAF_FLAG {
                let v = self.words[i + 1];
                proof {
                    if let SpecTree::Leaf(lv) = cur {
                        assert(v == lv);
                    }
                }
                return v;
            }
            let ghost (gc, gdl, gcats, gl, gr) = match cur {
                SpecTree::Split(c, dl, cats, l, r) => (c, dl, cats, *l, *r),
                SpecTree::Leaf(_) => (0u32, false, Seq::<u32>::empty(), cur, cur),
            };
            proof {
                assert(cur == SpecTree::Split(gc, gdl, gcats, Box::new(gl), Box::new(gr)));
                lemma_decode(gc as int, if gdl { 1 } else { 0 }, cs);
                assert(spec_splits(cur) =~= seq![(gc, gcats)] + spec_splits(gl) + spec_splits(gr));
                assert(all[cs] == spec_splits(cur)[0]);
                assert(all[cs] == (gc, gcats));
            }
            let column = (header % 256) as usize;
            let sid = header / SPLIT_ID_UNIT;
            let default_left = header % 512 >= DEFAULT_LEFT_UNIT;
            proof {
                assert(column == gc);
                assert(sid == cs);
                assert(default_left == gdl);
                assert(sid / 32 < bits@.len()) by (nonlinear_arith)
                    requires
                        sid < all.len(),
                        bits@.len() * 32 >= all.len(),
                ;
            }
            let go_left = if present[column] {
                bits[(sid / 32) as usize] & (1u32 << (sid % 32)) != 0
            } else {
                default_left
            };
            proof {
                assert(go_left == (if present@[gc as int] { spec_bit(bits@, cs) } else { gdl }));
                assert(spec_bit(bits@, cs) == spec_goes_left(all, codes, cs));
                assert(go_left == (if 0 <= gc < codes.len() && codes[gc as int] is Some {
                    gcats.contains(codes[gc as int]->0)
                } else {
                    gdl
                }));
                let nl = spec_splits(gl).len() as int;
                let nr = spec_splits(gr).len() as int;
                assert(all.subrange(cs + 1, cs + 1 + nl) =~= spec_splits(cur).subrange(1, 1 + nl));
                assert(spec_splits(cur).subrange(1, 1 + nl) =~= spec_splits(gl));
                assert(all.subrange(cs + 1 + nl, cs + 1 + nl + nr) =~= spec_splits(cur).subrange(1 + nl, 1 + nl + nr));
                assert(spec_splits(cur).subrange(1 + nl, 1 + nl + nr) =~= spec_splits(gr));
            }
            if go_left {
                i = i + 2;
                proof {
                    cs = cs + 1;
                    cur = gl;
                }
            } else {
                i = self.words[i + 1] as usize;
                proof {
                    cs = cs + 1 + spec_splits(gl).len();
                    cur = gr;
                }
            }
        }
    }

    /// For each tree, the value (bits) of the leaf it reaches for the
    /// resolved keys `refs`: the same leaf as the direct walk of the tree
    /// ([`crate::boundary::eval_tree`]). The ensemble's score is their sum,
    /// in this order.
    pub fn leaf_values(&self, refs: &[VocabRef]) -> (r: Vec<u32>)
        requires
            self.wf(),
        ensures
            r@.len() == self@.len(),
            forall|j: int| 0 <= j < self@.len() ==> r@[j] == spec_eval(#[trigger] self@[j], spec_col_codes(refs@)),
    {
        let codes = column_codes(refs);
        proof {
            lemma_col_codes_len(refs@);
        }
        let mut present: Vec<bool> = Vec::new();
        let mut c: usize = 0;
        while c < codes.len()
            invariant
                c <= codes@.len(),
                present@.len() == c,
                forall|d: int| 0 <= d < c ==> present@[d] == (codes@[d] is Some),
            decreases codes@.len() - c,
        {
            present.push(codes[c].is_some());
            c = c + 1;
        }
        let bits = self.build_membership(&codes);
        let ghost ts = self.trees@;
        let mut out: Vec<u32> = Vec::new();
        let mut j: usize = 0;
        while j < self.roots.len()
            invariant
                self.wf(),
                ts == self.trees@,
                codes@ == spec_col_codes(refs@),
                codes@.len() == MAX_BOUNDARY_CAT_COLUMNS,
                present@.len() == MAX_BOUNDARY_CAT_COLUMNS,
                forall|d: int| 0 <= d < MAX_BOUNDARY_CAT_COLUMNS ==> present@[d] == (codes@[d] is Some),
                bits@.len() * 32 >= spec_all_splits(ts).len(),
                forall|k: int|
                    0 <= k < spec_all_splits(ts).len() ==> (spec_bit(bits@, k) <==> spec_goes_left(
                        spec_all_splits(ts),
                        codes@,
                        k,
                    )),
                j <= ts.len(),
                out@.len() == j,
                forall|m: int| 0 <= m < j ==> out@[m] == spec_eval(#[trigger] ts[m], codes@),
            decreases ts.len() - j,
        {
            proof {
                lemma_tree_splits(ts, j as int);
                assert(spec_encodes(self.words@, self.roots@[j as int] as int, ts[j as int], spec_base(ts, j as int)));
            }
            let v = self.eval_packed(
                self.roots[j],
                &present,
                &bits,
                Ghost(codes@),
                Ghost(ts[j as int]),
                Ghost(spec_base(ts, j as int)),
            );
            out.push(v);
            j = j + 1;
        }
        out
    }
}

/// The counts of tree `t` are within the packing limits.
pub open spec fn spec_tree_ok(t: SpecTree) -> bool {
    &&& spec_splits(t).len() <= MAX_SPLITS
    &&& spec_nwords(t) <= u32::MAX
    &&& spec_columns_ok(spec_splits(t))
}

/// Number of splits and of words of `t`, `None` when `t` is not within the
/// packing limits.
fn measure(t: &TreeNode) -> (r: Option<(u32, u32)>)
    ensures
        match r {
            Some((a, b)) => a == spec_splits(spec_tree_view(*t)).len() && b == spec_nwords(spec_tree_view(*t))
                && spec_tree_ok(spec_tree_view(*t)),
            None => !spec_tree_ok(spec_tree_view(*t)),
        },
    decreases t,
{
    match t {
        TreeNode::Leaf { .. } => Some((0, 2)),
        TreeNode::Split { column, cats, left, right, .. } => {
            let ghost tv = spec_tree_view(*t);
            let ghost tl = spec_tree_view(**left);
            let ghost tr = spec_tree_view(**right);
            proof {
                assert(spec_splits(tv) =~= seq![(*column, cats@)] + spec_splits(tl) + spec_splits(tr));
                assert(spec_splits(tv)[0] == (*column, cats@));
            }
            if *column >= MAX_BOUNDARY_CAT_COLUMNS {
                return None;
            }
            let ml = measure(left);
            let (al, bl) = match ml {
                Some(p) => p,
                None => {
                    proof {
                        if spec_splits(tl).len() <= MAX_SPLITS && spec_nwords(tl) <= u32::MAX {
                            let k = choose|k: int|
                                0 <= k < spec_splits(tl).len() && !((#[trigger] spec_splits(tl)[k]).0
                                    < MAX_BOUNDARY_CAT_COLUMNS);
                            assert(spec_splits(tv)[1 + k] == spec_splits(tl)[k]);
                        }
                    }
                    return None;
                },
            };
            let mr = measure(right);
            let (ar, br) = match mr {
                Some(p) => p,
                None => {
                    proof {
                        if spec_splits(tr).len() <= MAX_SPLITS && spec_nwords(tr) <= u32::MAX {
                            let k = choose|k: int|
                                0 <= k < spec_splits(tr).len() && !((#[trigger] spec_splits(tr)[k]).0
                                    < MAX_BOUNDARY_CAT_COLUMNS);
                            assert(spec_splits(tv)[1 + spec_splits(tl).len() + k] == spec_splits(tr)[k]);
                        }
                    }
                    return None;
                },
            };
            let a = 1 + al as u64 + ar as u64;
            let b = 2 + bl as u64 + br as u64;
            if a > MAX_SPLITS as u64 || b > u32::MAX as u64 {
                return None;
            }
            proof {
                assert forall|k: int| 0 <= k < spec_splits(tv).len() implies (#[trigger] spec_splits(tv)[k]).0
                    < MAX_BOUNDARY_CAT_COLUMNS by {
                    if 1 <= k < 1 + spec_splits(tl).len() {
                        assert(spec_splits(tv)[k] == spec_splits(tl)[k - 1]);
                    } else if k >= 1 + spec_splits(tl).len() {
                        assert(spec_splits(tv)[k] == spec_splits(tr)[k - 1 - spec_splits(tl).len()]);
                    }
                }
            }
            Some((a as u32, b as u32))
        },
    }
}

impl TreeEnsemble {
    /// Packs `trees`, or gives `None` when they are not within the packing
    /// limits (more splits than a header can number, more words than a
    /// `u32` can index, or a column past the last).
    pub fn from_trees(trees: &[TreeNode]) -> (r: Option<TreeEnsemble>)
        ensures
            match r {
                Some(e) => e.wf() && e@ == spec_trees_view(trees@),
                None => !spec_pack_ok(spec_trees_view(trees@)),
            },
    {
        let ghost ts = spec_trees_view(trees@);
        let mut total_s: u64 = 0;
        let mut total_w: u64 = 0;
        let mut j: usize = 0;
        proof {
            assert(ts.take(0) =~= Seq::<SpecTree>::empty());
            assert(spec_all_splits(ts.take(0)) =~= Seq::<(u32, Seq<u32>)>::empty());
        }
        while j < trees.len()
            invariant
                ts == spec_trees_view(trees@),
                ts.len() == trees@.len(),
                j <= ts.len(),
                total_s == spec_base(ts, j as int),
                total_w == spec_all_words(ts.take(j as int)),
                total_s <= MAX_SPLITS,
                total_w <= u32::MAX,
                spec_columns_ok(spec_all_splits(ts.take(j as int))),
            decreases ts.len() - j,
        {
            proof {
                lemma_all_step(ts, j as int);
                lemma_all_prefix(ts, j as int + 1);
                lemma_tree_splits(ts, j as int);
                assert(ts[j as int] == spec_tree_view(trees@[j as int]));
            }
            match measure(&trees[j]) {
                None => {
                    proof {
                        let t = ts[j as int];
                        let all = spec_all_splits(ts);
                        let b = spec_base(ts, j as int);
                        if spec_all_splits(ts).len() <= MAX_SPLITS && spec_all_words(ts) <= u32::MAX {
                            if spec_columns_ok(all) {
                                assert forall|k: int| 0 <= k < spec_splits(t).len() implies (#[trigger] spec_splits(
                                    t,
                                )[k]).0 < MAX_BOUNDARY_CAT_COLUMNS by {
                                    assert(spec_splits(t)[k] == all.subrange(b, b + spec_splits(t).len())[k]);
                                    assert(all[b + k].0 < MAX_BOUNDARY_CAT_COLUMNS);
                                }
                            }
                        }
                    }
                    return None;
                },
                Some((a, b)) => {
                    let ns = total_s + a as u64;
                    let nw = total_w + b as u64;
                    if ns > MAX_SPLITS as u64 || nw > u32::MAX as u64 {
                        return None;
                    }
                    proof {
                        let p = spec_all_splits(ts.take(j as int));
                        let q = spec_splits(ts[j as int]);
                        assert forall|k: int| 0 <= k < (p + q).len() implies (#[trigger] (p + q)[k]).0
                            < MAX_BOUNDARY_CAT_COLUMNS by {
                            if k < p.len() {
                                assert((p + q)[k] == p[k]);
                            } else {
                                assert((p + q)[k] == q[k - p.len()]);
                            }
                        }
                    }
                    total_s = ns;
                    total_w = nw;
                },
            }
            j = j + 1;
        }
        proof {
            assert(ts.take(ts.len() as int) =~= ts);
        }
        Some(TreeEnsemble::new(trees))
    }
}

} // verus!
