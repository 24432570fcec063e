//! The model: vocabulary, reading labels, the reading model's weights
//! (sparse by column, quantized to `i8` with a scale per class), the
//! boundary model, the name dictionary and the single-character dictionary.
//!
//! Floats are kept as their bits; what computes with them is left to the
//! caller. The integer part of the reading scores is computed here: for a
//! unit's active features, the sum per class of the quantized weights of
//! their columns.

use vstd::prelude::*;

use crate::boundary::{Boundary, SpecBoundary};
use crate::feature::FeatureKey;
use crate::kanji_dict::spec_sorted_by_char;
use crate::name_dict::NameIndex;
use crate::vocab::{Vocab, VocabRef};

verus! {

/// A loaded model (quantized).
pub struct MomoModel {
    pub vocab: Vocab,
    /// Class id to reading label.
    pub read_classes: Vec<String>,
    /// Per class, the scale of its quantized weights (`f32` bits).
    pub read_scale: Vec<u32>,
    /// Column pointers: the non-zeros of feature `f` are
    /// `csc_colptr[f]..csc_colptr[f + 1]`.
    pub csc_colptr: Vec<u32>,
    /// Per non-zero, its row (class id).
    pub csc_rowind: Vec<u16>,
    /// Per non-zero, its quantized weight.
    pub csc_data: Vec<i8>,
    /// Per class, its intercept (`f32` bits).
    pub intercept_read: Vec<u32>,
    pub boundary: Boundary,
    pub name_dict: NameIndex,
    /// Sorted by character.
    pub single_char_dict: Vec<(char, Vec<String>)>,
    pub n_classes: u32,
    pub n_features: u32,
}

/// Column pointers and rows that fit: one pointer per feature and one more,
/// from 0, never decreasing, ending at the number of rows; every row a
/// class.
pub open spec fn spec_csc_wf(cp: Seq<u32>, rows: Seq<u16>, nf: u32, nc: u32) -> bool {
    &&& cp.len() == nf + 1
    &&& cp[0] == 0
    &&& forall|i: int, j: int| 0 <= i <= j < cp.len() ==> #[trigger] cp[i] <= #[trigger] cp[j]
    &&& cp.last() == rows.len()
    &&& forall|j: int| 0 <= j < rows.len() ==> #[trigger] rows[j] < nc
}

impl MomoModel {
    /// What the loader establishes.
    pub open spec fn wf(&self) -> bool {
        &&& spec_csc_wf(self.csc_colptr@, self.csc_rowind@, self.n_features, self.n_classes)
        &&& self.csc_data@.len() == self.csc_rowind@.len()
        &&& self.csc_rowind@.len() <= crate::loader::MAX_REASONABLE_COUNT
        &&& 1 <= self.n_classes <= crate::loader::MAX_CLASSES
        &&& self.n_features <= crate::loader::MAX_REASONABLE_COUNT
        &&& self.read_classes@.len() == self.n_classes
        &&& self.read_scale@.len() == self.n_classes
        &&& self.intercept_read@.len() == self.n_classes
        &&& self.vocab.wf()
        &&& crate::name_dict::spec_index_wf(self.name_dict@)
        &&& spec_sorted_by_char(self.single_char_dict@)
    }

    /// Number of features.
    pub fn n_features(&self) -> (n: u32)
        ensures
            n == self.n_features,
    {
        self.n_features
    }

    /// Number of reading labels (classes).
    pub fn n_classes(&self) -> (n: u32)
        ensures
            n == self.n_classes,
    {
        self.n_classes
    }

    /// The reading label of class `class_id`; `None` past the last class.
    pub fn read_class(&self, class_id: u32) -> (r: Option<&str>)
        ensures
            match r {
                Some(s) => class_id < self.read_classes@.len() && s@ == self.read_classes@[class_id as int]@,
                None => class_id >= self.read_classes@.len(),
            },
    {
        if (class_id as usize) < self.read_classes.len() {
            Some(self.read_classes[class_id as usize].as_str())
        } else {
            None
        }
    }

    /// The feature id of `key`, if the vocabulary has it.
    pub fn vocab_find(&self, key: &FeatureKey) -> (r: Option<u32>)
        requires
            self.vocab.wf(),
        ensures
            match r {
                Some(id) => exists|k: int, i: int|
                    self.vocab.spec_holds(*key, k, i) && id == self.vocab.spec_sections()[k].4 + i,
                None => forall|k: int, i: int| !self.vocab.spec_holds(*key, k, i),
            },
    {
        self.vocab.feature_id(key)
    }

    /// The feature id and categorical code of `key`, if the vocabulary has
    /// it.
    pub fn resolve(&self, key: &FeatureKey) -> (r: Option<VocabRef>)
        requires
            self.vocab.wf(),
        ensures
            match r {
                Some(vr) => exists|k: int, i: int|
                    self.vocab.spec_holds(*key, k, i) && vr.feature_id == self.vocab.spec_sections()[k].4 + i
                        && vr.cat == (if self.vocab.spec_sections()[k].2 != crate::vocab::NO_CAT_COLUMN {
                        Some((self.vocab.spec_sections()[k].2, (self.vocab.spec_sections()[k].3 + i) as u32))
                    } else {
                        None
                    }),
                None => forall|k: int, i: int| !self.vocab.spec_holds(*key, k, i),
            },
    {
        self.vocab.resolve(key)
    }

    /// The non-zeros of the column of feature `feat_id`: (class, quantized
    /// weight); the weight is that times the class's scale. Empty past the
    /// last feature.
    pub fn read_feature_column(&self, feat_id: u32) -> (r: Vec<(u32, i8)>)
        requires
            self.wf(),
        ensures
            feat_id >= self.n_features ==> r@.len() == 0,
            feat_id < self.n_features ==> {
                let s = self.csc_colptr@[feat_id as int] as int;
                let e = self.csc_colptr@[feat_id + 1] as int;
                &&& r@.len() == e - s
                &&& forall|j: int|
                    0 <= j < r@.len() ==> #[trigger] r@[j] == (
                        self.csc_rowind@[s + j] as u32,
                        self.csc_data@[s + j],
                    )
            },
    {
        let mut out: Vec<(u32, i8)> = Vec::new();
        if feat_id >= self.n_features {
            return out;
        }
        let f = feat_id as usize;
        let s = self.csc_colptr[f] as usize;
        let e = self.csc_colptr[f + 1] as usize;
        let mut j: usize = s;
        while j < e
            invariant
                self.wf(),
                f < self.n_features,
                s == self.csc_colptr@[f as int],
                e == self.csc_colptr@[f + 1],
                s <= j <= e,
                e <= self.csc_rowind@.len(),
                out@.len() == j - s,
                forall|q: int|
                    0 <= q < out@.len() ==> #[trigger] out@[q] == (
                        self.csc_rowind@[s + q] as u32,
                        self.csc_data@[s + q],
                    ),
            decreases e - j,
        {
            out.push((self.csc_rowind[j] as u32, self.csc_data[j]));
            j = j + 1;
        }
        out
    }
}


/// `acc` with the non-zeros `s..j` added to the sums of their classes.
pub open spec fn spec_add_entries(acc: Seq<int>, rows: Seq<u16>, data: Seq<i8>, s: int, j: int) -> Seq<int>
    decreases j - s,
{
    if j <= s {
        acc
    } else {
        let p = spec_add_entries(acc, rows, data, s, j - 1);
        p.update(rows[j - 1] as int, p[rows[j - 1] as int] + data[j - 1])
    }
}

/// The per-class sums of the quantized weights of the columns of the first
/// `k` feature ids of `ids` (ids past the last feature add nothing).
pub open spec fn spec_read_sums(cp: Seq<u32>, rows: Seq<u16>, data: Seq<i8>, ids: Seq<u32>, nf: u32, nc: u32, k: int) -> Seq<int>
    decreases k,
{
    if k <= 0 {
        Seq::new(nc as nat, |c: int| 0int)
    } else {
        let p = spec_read_sums(cp, rows, data, ids, nf, nc, k - 1);
        let f = ids[k - 1];
        if f >= nf {
            p
        } else {
            spec_add_entries(p, rows, data, cp[f as int] as int, cp[f + 1] as int)
        }
    }
}

impl MomoModel {
    /// The integer part of the reading scores of a unit whose active
    /// features are `feat_ids`: per class, the sum of the quantized weights
    /// of their columns (see [`spec_read_sums`]). The score of class `c` is
    /// its intercept plus this sum times its scale.
    pub fn accumulate_read_scores(&self, feat_ids: &[u32]) -> (r: Vec<i128>)
        requires
            self.wf(),
        ensures
            r@.len() == self.n_classes,
            forall|c: int|
                0 <= c < self.n_classes ==> #[trigger] r@[c] as int == spec_read_sums(
                    self.csc_colptr@,
                    self.csc_rowind@,
                    self.csc_data@,
                    feat_ids@,
                    self.n_features,
                    self.n_classes,
                    feat_ids@.len() as int,
                )[c],
    {
        let ghost cp = self.csc_colptr@;
        let ghost rows = self.csc_rowind@;
        let ghost data = self.csc_data@;
        let nc = self.n_classes as usize;
        let mut acc: Vec<i128> = Vec::new();
        let mut c: usize = 0;
        while c < nc
            invariant
                c <= nc,
                acc@.len() == c,
                forall|q: int| 0 <= q < c ==> #[trigger] acc@[q] == 0,
            decreases nc - c,
        {
            acc.push(0);
            c = c + 1;
        }
        let n_ids = feat_ids.len();
        let mut k: usize = 0;
        while k < n_ids
            invariant
                n_ids == feat_ids@.len(),
                self.wf(),
                cp == self.csc_colptr@,
                rows == self.csc_rowind@,
                data == self.csc_data@,
                nc == self.n_classes,
                k <= n_ids,
                acc@.len() == nc,
                forall|q: int|
                    0 <= q < nc ==> #[trigger] acc@[q] as int == spec_read_sums(cp, rows, data, feat_ids@, self.n_features, self.n_classes, k as int)[q],
                forall|q: int|
                    0 <= q < nc ==> -128 * (k * 50_000_000) <= #[trigger] acc@[q] <= 127 * (k * 50_000_000),
            decreases feat_ids@.len() - k,
        {
            let f = feat_ids[k];
            let ghost before = spec_read_sums(cp, rows, data, feat_ids@, self.n_features, self.n_classes, k as int);
            proof {
                lemma_read_sums_len(cp, rows, data, feat_ids@, self.n_features, self.n_classes, k as int);
            }
            if f < self.n_features {
                let s = self.csc_colptr[f as usize] as usize;
                let e = self.csc_colptr[f as usize + 1] as usize;
                proof {
                    assert(cp[f as int] <= cp[f + 1]);
                }
                let mut j: usize = s;
                while j < e
                    invariant
                        self.wf(),
                        cp == self.csc_colptr@,
                        rows == self.csc_rowind@,
                        data == self.csc_data@,
                        nc == self.n_classes,
                        k < n_ids,
                        n_ids == feat_ids@.len(),
                        s <= j <= e <= rows.len(),
                        rows.len() <= 50_000_000,
                        before.len() == nc,
                        acc@.len() == nc,
                        forall|q: int|
                            0 <= q < nc ==> #[trigger] acc@[q] as int == spec_add_entries(before, rows, data, s as int, j as int)[q],
                        forall|q: int|
                            0 <= q < nc ==> -128 * (k * 50_000_000 + (j - s)) <= #[trigger] acc@[q] <= 127 * (k * 50_000_000 + (j - s)),
                    decreases e - j,
                {
                    let row = self.csc_rowind[j] as usize;
                    let v = self.csc_data[j] as i128;
                    proof {
                        assert(rows[j as int] < nc);
                        lemma_add_entries_len(before, rows, data, s as int, j as int);
                    }
                    let cur = acc[row];
                    acc.set(row, cur + v);
                    j = j + 1;
                }
                proof {
                    lemma_add_entries_len(before, rows, data, s as int, e as int);
                }
            }
            k = k + 1;
        }
        proof {
            assert(feat_ids@.len() == k);
        }
        acc
    }
}

proof fn lemma_read_sums_len(cp: Seq<u32>, rows: Seq<u16>, data: Seq<i8>, ids: Seq<u32>, nf: u32, nc: u32, k: int)
    requires
        spec_csc_wf(cp, rows, nf, nc),
        k <= ids.len(),
    ensures
        spec_read_sums(cp, rows, data, ids, nf, nc, k).len() == nc,
    decreases k,
{
    if k > 0 {
        lemma_read_sums_len(cp, rows, data, ids, nf, nc, k - 1);
        let f = ids[k - 1];
        if f < nf {
            let p = spec_read_sums(cp, rows, data, ids, nf, nc, k - 1);
            assert(cp[f as int] <= cp[f + 1] <= cp.last());
            lemma_add_entries_len(p, rows, data, cp[f as int] as int, cp[f + 1] as int);
        }
    }
}

proof fn lemma_add_entries_len(acc: Seq<int>, rows: Seq<u16>, data: Seq<i8>, s: int, j: int)
    requires
        forall|q: int| s <= q < j ==> (rows[q] as int) < acc.len(),
    ensures
        spec_add_entries(acc, rows, data, s, j).len() == acc.len(),
    decreases j - s,
{
    if j > s {
        lemma_add_entries_len(acc, rows, data, s, j - 1);
    }
}


impl MomoModel {
    /// An empty model (no vocabulary, class or weight; a linear boundary
    /// model with scale 1.0), for the loader to fill.
    pub fn new() -> (m: MomoModel)
        ensures
            m.n_classes == 0,
            m.n_features == 0,
            m.vocab.wf(),
            m.vocab.spec_sections().len() == 0,
            m.read_classes@.len() == 0,
            m.read_scale@.len() == 0,
            m.csc_colptr@.len() == 0,
            m.csc_rowind@.len() == 0,
            m.csc_data@.len() == 0,
            m.intercept_read@.len() == 0,
            m.boundary matches Boundary::Linear { scale, data, intercept } && scale
                == crate::boundary::F32_ONE_BITS && data@.len() == 0 && intercept == (0u32, 0u32),
            m.name_dict@.len() == 0,
            m.single_char_dict@.len() == 0,
    {
        MomoModel {
            vocab: Vocab::new(),
            read_classes: Vec::new(),
            read_scale: Vec::new(),
            csc_colptr: Vec::new(),
            csc_rowind: Vec::new(),
            csc_data: Vec::new(),
            intercept_read: Vec::new(),
            boundary: Boundary::Linear { scale: crate::boundary::F32_ONE_BITS, data: Vec::new(), intercept: (0, 0) },
            name_dict: NameIndex::new(),
            single_char_dict: Vec::new(),
            n_classes: 0,
            n_features: 0,
        }
    }
}

impl Default for MomoModel {
    /// The empty model of [`MomoModel::new`].
    fn default() -> (m: MomoModel)
        ensures
            m.n_classes == 0 && m.n_features == 0 && m.read_classes@.len() == 0 && m.read_scale@.len() == 0,
    {
        MomoModel::new()
    }
}


// ------------------------------------------------------------
// The sums do not depend on the order of the features
// ------------------------------------------------------------

/// What the non-zeros `s..j` add to class `c`.
pub open spec fn spec_contrib(rows: Seq<u16>, data: Seq<i8>, s: int, j: int, c: int) -> int
    decreases j - s,
{
    if j <= s {
        0
    } else {
        spec_contrib(rows, data, s, j - 1, c) + if rows[j - 1] as int == c {
            data[j - 1] as int
        } else {
            0
        }
    }
}

proof fn lemma_add_entries_value(acc: Seq<int>, rows: Seq<u16>, data: Seq<i8>, s: int, j: int)
    requires
        forall|q: int| s <= q < j ==> (rows[q] as int) < acc.len(),
    ensures
        spec_add_entries(acc, rows, data, s, j).len() == acc.len(),
        forall|c: int|
            0 <= c < acc.len() ==> #[trigger] spec_add_entries(acc, rows, data, s, j)[c] == acc[c] + spec_contrib(
                rows,
                data,
                s,
                j,
                c,
            ),
    decreases j - s,
{
    if j > s {
        lemma_add_entries_value(acc, rows, data, s, j - 1);
    }
}

/// One step of the sums: the column of feature `f`, if it is one.
pub open spec fn spec_sum_step(acc: Seq<int>, cp: Seq<u32>, rows: Seq<u16>, data: Seq<i8>, nf: u32, f: u32) -> Seq<int> {
    if f >= nf {
        acc
    } else {
        spec_add_entries(acc, rows, data, cp[f as int] as int, cp[f + 1] as int)
    }
}

proof fn lemma_sum_step_value(acc: Seq<int>, cp: Seq<u32>, rows: Seq<u16>, data: Seq<i8>, nf: u32, nc: u32, f: u32)
    requires
        spec_csc_wf(cp, rows, nf, nc),
        acc.len() == nc,
    ensures
        spec_sum_step(acc, cp, rows, data, nf, f).len() == nc,
        forall|c: int|
            0 <= c < nc ==> #[trigger] spec_sum_step(acc, cp, rows, data, nf, f)[c] == acc[c] + (if f < nf {
                spec_contrib(rows, data, cp[f as int] as int, cp[f + 1] as int, c)
            } else {
                0
            }),
{
    if f < nf {
        assert(cp[f as int] <= cp[f + 1] <= cp.last());
        lemma_add_entries_value(acc, rows, data, cp[f as int] as int, cp[f + 1] as int);
    }
}

proof fn lemma_sum_steps_commute(acc: Seq<int>, cp: Seq<u32>, rows: Seq<u16>, data: Seq<i8>, nf: u32, nc: u32, f: u32, g: u32)
    requires
        spec_csc_wf(cp, rows, nf, nc),
        acc.len() == nc,
    ensures
        spec_sum_step(spec_sum_step(acc, cp, rows, data, nf, f), cp, rows, data, nf, g) == spec_sum_step(
            spec_sum_step(acc, cp, rows, data, nf, g),
            cp,
            rows,
            data,
            nf,
            f,
        ),
{
    let a1 = spec_sum_step(acc, cp, rows, data, nf, f);
    let b1 = spec_sum_step(acc, cp, rows, data, nf, g);
    lemma_sum_step_value(acc, cp, rows, data, nf, nc, f);
    lemma_sum_step_value(acc, cp, rows, data, nf, nc, g);
    lemma_sum_step_value(a1, cp, rows, data, nf, nc, g);
    lemma_sum_step_value(b1, cp, rows, data, nf, nc, f);
    assert(spec_sum_step(a1, cp, rows, data, nf, g) =~= spec_sum_step(b1, cp, rows, data, nf, f));
}

proof fn lemma_read_sums_is_steps(cp: Seq<u32>, rows: Seq<u16>, data: Seq<i8>, ids: Seq<u32>, nf: u32, nc: u32, k: int)
    requires
        k > 0,
    ensures
        spec_read_sums(cp, rows, data, ids, nf, nc, k) == spec_sum_step(
            spec_read_sums(cp, rows, data, ids, nf, nc, k - 1),
            cp,
            rows,
            data,
            nf,
            ids[k - 1],
        ),
{
}

proof fn lemma_read_sums_same_prefix(cp: Seq<u32>, rows: Seq<u16>, data: Seq<i8>, a: Seq<u32>, b: Seq<u32>, nf: u32, nc: u32, k: int)
    requires
        0 <= k <= a.len(),
        k <= b.len(),
        forall|q: int| 0 <= q < k ==> a[q] == b[q],
    ensures
        spec_read_sums(cp, rows, data, a, nf, nc, k) == spec_read_sums(cp, rows, data, b, nf, nc, k),
    decreases k,
{
    if k > 0 {
        lemma_read_sums_same_prefix(cp, rows, data, a, b, nf, nc, k - 1);
    }
}

/// The per-class sums of the quantized weights do not depend on the order
/// in which the active features come: swapping two neighbouring feature ids
/// gives the same sums.
pub proof fn lemma_read_sums_swap(cp: Seq<u32>, rows: Seq<u16>, data: Seq<i8>, ids: Seq<u32>, nf: u32, nc: u32, j: int)
    requires
        spec_csc_wf(cp, rows, nf, nc),
        0 <= j,
        j + 1 < ids.len(),
    ensures
        spec_read_sums(cp, rows, data, ids, nf, nc, ids.len() as int) == spec_read_sums(
            cp,
            rows,
            data,
            ids.update(j, ids[j + 1]).update(j + 1, ids[j]),
            nf,
            nc,
            ids.len() as int,
        ),
{
    let sw = ids.update(j, ids[j + 1]).update(j + 1, ids[j]);
    lemma_read_sums_same_prefix(cp, rows, data, ids, sw, nf, nc, j);
    let base = spec_read_sums(cp, rows, data, ids, nf, nc, j);
    lemma_read_sums_len(cp, rows, data, ids, nf, nc, j);
    lemma_read_sums_is_steps(cp, rows, data, ids, nf, nc, j + 1);
    lemma_read_sums_is_steps(cp, rows, data, ids, nf, nc, j + 2);
    lemma_read_sums_is_steps(cp, rows, data, sw, nf, nc, j + 1);
    lemma_read_sums_is_steps(cp, rows, data, sw, nf, nc, j + 2);
    lemma_sum_steps_commute(base, cp, rows, data, nf, nc, ids[j], ids[j + 1]);
    lemma_read_sums_swap_rest(cp, rows, data, ids, sw, nf, nc, j + 2);
}

proof fn lemma_read_sums_swap_rest(cp: Seq<u32>, rows: Seq<u16>, data: Seq<i8>, a: Seq<u32>, b: Seq<u32>, nf: u32, nc: u32, k: int)
    requires
        0 <= k <= a.len(),
        a.len() == b.len(),
        spec_read_sums(cp, rows, data, a, nf, nc, k) == spec_read_sums(cp, rows, data, b, nf, nc, k),
        forall|q: int| k <= q < a.len() ==> a[q] == b[q],
    ensures
        spec_read_sums(cp, rows, data, a, nf, nc, a.len() as int) == spec_read_sums(cp, rows, data, b, nf, nc, a.len() as int),
    decreases a.len() - k,
{
    if k < a.len() {
        lemma_read_sums_is_steps(cp, rows, data, a, nf, nc, k + 1);
        lemma_read_sums_is_steps(cp, rows, data, b, nf, nc, k + 1);
        lemma_read_sums_swap_rest(cp, rows, data, a, b, nf, nc, k + 1);
    }
}

} // verus!
