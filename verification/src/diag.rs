//! Diagnostics: statistics of the reading model's columns, and the record
//! of one unit's timing.

use vstd::prelude::*;

use crate::feature::FeatureKey;
use crate::featurize::SourceEntry;
use crate::model::MomoModel;
use crate::reading::{push_cp, spec_valid_chars};

verus! {

/// One unit's timing record.
#[derive(Debug, Clone)]
pub struct CharLatency {
    /// The unit's text (two or three characters for a compound).
    pub text: String,
    /// Number of feature keys.
    pub n_keys: usize,
    /// Number of keys the vocabulary has.
    pub n_hits: usize,
    /// Non-zeros of the columns of those keys.
    pub nnz: usize,
    /// Nanoseconds of the vocabulary lookups.
    pub lookup_ns: u128,
    /// Nanoseconds of the reading scores.
    pub read_ns: u128,
    /// Nanoseconds of the boundary score.
    pub boundary_ns: u128,
}

/// Statistics of the reading model's columns.
#[derive(Debug, Clone, Copy, PartialEq, Eq, Structural)]
pub struct CscStats {
    /// Number of columns (features).
    pub n_cols: usize,
    /// Number of non-zeros.
    pub total_nnz: usize,
    /// Largest number of non-zeros of a column.
    pub max_nnz: usize,
    /// Columns with non-zeros for at least half of the classes.
    pub dense_cols: usize,
    /// Non-zeros of those columns.
    pub dense_nnz: usize,
}

/// Non-zeros of column `f`.
pub open spec fn spec_col_nnz(cp: Seq<u32>, f: int) -> int {
    cp[f + 1] - cp[f]
}

/// The largest column among the first `k`.
pub open spec fn spec_max_nnz(cp: Seq<u32>, k: int) -> int
    decreases k,
{
    if k <= 0 {
        0
    } else {
        let m = spec_max_nnz(cp, k - 1);
        if spec_col_nnz(cp, k - 1) > m {
            spec_col_nnz(cp, k - 1)
        } else {
            m
        }
    }
}

/// Number and non-zeros of the dense columns among the first `k`.
pub open spec fn spec_dense(cp: Seq<u32>, nc: int, k: int) -> (int, int)
    decreases k,
{
    if k <= 0 {
        (0, 0)
    } else {
        let (n, z) = spec_dense(cp, nc, k - 1);
        if spec_col_nnz(cp, k - 1) * 2 >= nc {
            (n + 1, z + spec_col_nnz(cp, k - 1))
        } else {
            (n, z)
        }
    }
}

proof fn lemma_dense_bound(cp: Seq<u32>, nc: int, k: int)
    requires
        0 <= k < cp.len(),
        forall|i: int, j: int| 0 <= i <= j < cp.len() ==> #[trigger] cp[i] <= #[trigger] cp[j],
    ensures
        0 <= spec_dense(cp, nc, k).0 <= k,
        0 <= spec_dense(cp, nc, k).1 <= cp[k] - cp[0],
        0 <= spec_max_nnz(cp, k) <= cp[k] - cp[0],
    decreases k,
{
    if k > 0 {
        lemma_dense_bound(cp, nc, k - 1);
    }
}

impl MomoModel {
    /// Statistics of the reading model's columns: count, non-zeros, largest
    /// column, and the columns that have non-zeros for at least half of the
    /// classes.
    pub fn csc_stats(&self) -> (r: CscStats)
        requires
            self.wf(),
        ensures
            r.n_cols == self.n_features,
            r.total_nnz == self.csc_colptr@.last(),
            r.max_nnz == spec_max_nnz(self.csc_colptr@, self.n_features as int),
            r.dense_cols == spec_dense(self.csc_colptr@, self.n_classes as int, self.n_features as int).0,
            r.dense_nnz == spec_dense(self.csc_colptr@, self.n_classes as int, self.n_features as int).1,
    {
        let ghost cp = self.csc_colptr@;
        let n = self.csc_colptr.len() - 1;
        let total = self.csc_colptr[n] as usize;
        let nc = self.n_classes as usize;
        let mut max: usize = 0;
        let mut dense_cols: usize = 0;
        let mut dense_nnz: usize = 0;
        let mut f: usize = 0;
        while f < n
            invariant
                self.wf(),
                cp == self.csc_colptr@,
                n == self.n_features,
                nc == self.n_classes,
                f <= n,
                max == spec_max_nnz(cp, f as int),
                dense_cols == spec_dense(cp, nc as int, f as int).0,
                dense_nnz == spec_dense(cp, nc as int, f as int).1,
            decreases n - f,
        {
            proof {
                lemma_dense_bound(cp, nc as int, f as int);
                lemma_dense_bound(cp, nc as int, f + 1);
            }
            let nnz = (self.csc_colptr[f + 1] - self.csc_colptr[f]) as usize;
            if nnz > max {
                max = nnz;
            }
            if nnz * 2 >= nc {
                dense_cols = dense_cols + 1;
                dense_nnz = dense_nnz + nnz;
            }
            f = f + 1;
        }
        CscStats { n_cols: n, total_nnz: total, max_nnz: max, dense_cols, dense_nnz }
    }
}

/// The code points of a unit (one, two or three).
pub open spec fn spec_latency_cps(e: SourceEntry) -> Seq<u32> {
    if e.compound_len >= 3 {
        seq![e.cp, e.cp2, e.cp3]
    } else if e.compound_len == 2 {
        seq![e.cp, e.cp2]
    } else {
        seq![e.cp]
    }
}

/// The feature id of `key` in the model's vocabulary, if it has the key.
pub open spec fn spec_vocab_id(m: MomoModel, key: FeatureKey) -> Option<u32> {
    if exists|k: int, i: int| m.vocab.spec_holds(key, k, i) {
        let (k, i) = choose|k: int, i: int| m.vocab.spec_holds(key, k, i);
        Some((m.vocab.spec_sections()[k].4 + i) as u32)
    } else {
        None
    }
}

/// Non-zeros of the column of feature `id` (none past the last feature).
pub open spec fn spec_id_nnz(m: MomoModel, id: u32) -> int {
    if id < m.n_features {
        m.csc_colptr@[id + 1] - m.csc_colptr@[id as int]
    } else {
        0
    }
}

/// Over the first `n` keys: how many the vocabulary has, and the non-zeros
/// of their columns.
pub open spec fn spec_hits(m: MomoModel, keys: Seq<FeatureKey>, n: int) -> (int, int)
    decreases n,
{
    if n <= 0 {
        (0, 0)
    } else {
        let (h, z) = spec_hits(m, keys, n - 1);
        match spec_vocab_id(m, keys[n - 1]) {
            Some(id) => (h + 1, z + spec_id_nnz(m, id)),
            None => (h, z),
        }
    }
}

fn unit_text(e: &SourceEntry) -> (s: String)
    ensures
        s@ == spec_valid_chars(spec_latency_cps(*e)),
{
    let mut s = String::new();
    push_cp(&mut s, e.cp);
    proof {
        reveal_with_fuel(spec_valid_chars, 2);
        assert(seq![e.cp].drop_last() =~= Seq::<u32>::empty());
        assert(s@ == spec_valid_chars(seq![e.cp]));
    }
    if e.compound_len >= 2 {
        push_cp(&mut s, e.cp2);
        proof {
            assert(seq![e.cp, e.cp2].drop_last() =~= seq![e.cp]);
            assert(s@ == spec_valid_chars(seq![e.cp, e.cp2]));
        }
    }
    if e.compound_len >= 3 {
        push_cp(&mut s, e.cp3);
        proof {
            assert(seq![e.cp, e.cp2, e.cp3].drop_last() =~= seq![e.cp, e.cp2]);
            assert(s@ == spec_valid_chars(seq![e.cp, e.cp2, e.cp3]));
        }
    }
    s
}

/// The timing rows of the units `seq`: for unit `i`, its text, the number
/// of its feature keys `keys[i]`, how many of them the vocabulary has, the
/// non-zeros of their columns (at most `usize::MAX`), and the times
/// `times[i]` (vocabulary lookups, reading scores, boundary score).
pub fn latency_rows(
    model: &MomoModel,
    seq: &[SourceEntry],
    keys: &Vec<Vec<FeatureKey>>,
    times: &Vec<(u128, u128, u128)>,
) -> (r: Vec<CharLatency>)
    requires
        model.wf(),
        keys@.len() == seq@.len(),
        times@.len() == seq@.len(),
    ensures
        r@.len() == seq@.len(),
        forall|i: int|
            0 <= i < seq@.len() ==> {
                let h = spec_hits(*model, keys@[i]@, keys@[i]@.len() as int);
                &&& (#[trigger] r@[i]).text@ == spec_valid_chars(spec_latency_cps(seq@[i]))
                &&& r@[i].n_keys == keys@[i]@.len()
                &&& r@[i].n_hits == h.0
                &&& r@[i].nnz == (if h.1 > usize::MAX { usize::MAX as int } else { h.1 })
                &&& r@[i].lookup_ns == times@[i].0
                &&& r@[i].read_ns == times@[i].1
                &&& r@[i].boundary_ns == times@[i].2
            },
{
    let mut out: Vec<CharLatency> = Vec::new();
    let mut u: usize = 0;
    while u < seq.len()
        invariant
            model.wf(),
            keys@.len() == seq@.len(),
            times@.len() == seq@.len(),
            u <= seq@.len(),
            out@.len() == u,
            forall|i: int|
                0 <= i < u ==> {
                    let h = spec_hits(*model, keys@[i]@, keys@[i]@.len() as int);
                    &&& (#[trigger] out@[i]).text@ == spec_valid_chars(spec_latency_cps(seq@[i]))
                    &&& out@[i].n_keys == keys@[i]@.len()
                    &&& out@[i].n_hits == h.0
                    &&& out@[i].nnz == (if h.1 > usize::MAX { usize::MAX as int } else { h.1 })
                    &&& out@[i].lookup_ns == times@[i].0
                    &&& out@[i].read_ns == times@[i].1
                    &&& out@[i].boundary_ns == times@[i].2
                },
        decreases seq@.len() - u,
    {
        let ks = &keys[u];
        let mut hits: usize = 0;
        let mut nnz: u128 = 0;
        let mut q: usize = 0;
        while q < ks.len()
            invariant
                model.wf(),
                q <= ks@.len(),
                hits as int == spec_hits(*model, ks@, q as int).0,
                nnz as int == spec_hits(*model, ks@, q as int).1,
                0 <= spec_hits(*model, ks@, q as int).1 <= q * 50_000_000,
                hits <= q,
            decreases ks@.len() - q,
        {
            let key = ks[q];
            match model.vocab_find(&key) {
                Some(id) => {
                    proof {
                        let (k1, i1) = choose|k: int, i: int|
                            model.vocab.spec_holds(key, k, i) && id == model.vocab.spec_sections()[k].4 + i;
                        let (k2, i2) = choose|k: int, i: int| model.vocab.spec_holds(key, k, i);
                        model.vocab.lemma_holds_unique(key, k1, i1, k2, i2);
                        assert(spec_vocab_id(*model, key) == Some(id));
                    }
                    let n = model.n_features();
                    let w: u128 = if id < n {
                        proof {
                            assert(model.csc_colptr@[id as int] <= model.csc_colptr@[id + 1]);
                            assert(model.csc_colptr@[id + 1] <= model.csc_colptr@.last());
                        }
                        (model.csc_colptr[id as usize + 1] - model.csc_colptr[id as usize]) as u128
                    } else {
                        0
                    };
                    hits = hits + 1;
                    nnz = nnz + w;
                },
                None => {
                    proof {
                        assert(spec_vocab_id(*model, key) is None);
                    }
                },
            }
            q = q + 1;
        }
        let nnz_usize: usize = if nnz > usize::MAX as u128 { usize::MAX } else { nnz as usize };
        let t = times[u];
        let row = CharLatency {
            text: unit_text(&seq[u]),
            n_keys: ks.len(),
            n_hits: hits,
            nnz: nnz_usize,
            lookup_ns: t.0,
            read_ns: t.1,
            boundary_ns: t.2,
        };
        out.push(row);
        u = u + 1;
    }
    out
}

} // verus!
