//! The float model: the same sections as the quantized model, but the read
//! weights and the linear boundary weights are `f32` (kept as bits) with no
//! scale. It lets the quantization error be measured against the same
//! rules.

use vstd::prelude::*;

use crate::boundary::FloatBoundary;
use crate::name_dict::NameIndex;
use crate::vocab::Vocab;

verus! {

/// A loaded float model.
pub struct FloatMomoModel {
    pub vocab: Vocab,
    pub read_classes: Vec<String>,
    pub csc_colptr: Vec<u32>,
    pub csc_rowind: Vec<u16>,
    /// Per non-zero, its weight (`f32` bits).
    pub csc_data: Vec<u32>,
    pub intercept_read: Vec<u32>,
    pub boundary: FloatBoundary,
    pub name_dict: NameIndex,
    pub single_char_dict: Vec<(char, Vec<String>)>,
    pub n_classes: u32,
    pub n_features: u32,
}

impl FloatMomoModel {
    /// What the loader establishes.
    pub open spec fn wf(&self) -> bool {
        &&& crate::model::spec_csc_wf(self.csc_colptr@, self.csc_rowind@, self.n_features, self.n_classes)
        &&& self.csc_data@.len() == self.csc_rowind@.len()
        &&& 1 <= self.n_classes <= crate::loader::MAX_CLASSES
        &&& self.n_features <= crate::loader::MAX_REASONABLE_COUNT
        &&& self.read_classes@.len() == self.n_classes
        &&& self.intercept_read@.len() == self.n_classes
        &&& self.vocab.wf()
        &&& crate::name_dict::spec_index_wf(self.name_dict@)
        &&& crate::kanji_dict::spec_sorted_by_char(self.single_char_dict@)
    }

    pub fn n_features(&self) -> (n: u32)
        ensures
            n == self.n_features,
    {
        self.n_features
    }

    pub fn n_classes(&self) -> (n: u32)
        ensures
            n == self.n_classes,
    {
        self.n_classes
    }

    /// The reading label of class `class_id`; `None` past the last class.
    pub fn read_class(&self, class_id: u32) -> (r: Option<&str>)
        ensures
            match r {
                Some(s) => class_id < self.read_classes@.len() && s@ == self.read_classes@[class_id as int]@,
                None => class_id >= self.read_classes@.len(),
            },
    {
        if (class_id as usize) < self.read_classes.len() {
            Some(self.read_classes[class_id as usize].as_str())
        } else {
            None
        }
    }

    /// The non-zeros of the column of feature `feat_id`: (class, weight
    /// bits). Empty past the last feature.
    pub fn read_feature_column(&self, feat_id: u32) -> (r: Vec<(u32, u32)>)
        requires
            self.wf(),
        ensures
            feat_id >= self.n_features ==> r@.len() == 0,
            feat_id < self.n_features ==> {
                let s = self.csc_colptr@[feat_id as int] as int;
                let e = self.csc_colptr@[feat_id + 1] as int;
                &&& r@.len() == e - s
                &&& forall|j: int|
                    0 <= j < r@.len() ==> #[trigger] r@[j] == (
                        self.csc_rowind@[s + j] as u32,
                        self.csc_data@[s + j],
                    )
            },
    {
        let mut out: Vec<(u32, u32)> = Vec::new();
        if feat_id >= self.n_features {
            return out;
        }
        let f = feat_id as usize;
        let s = self.csc_colptr[f] as usize;
        let e = self.csc_colptr[f + 1] as usize;
        let mut j: usize = s;
        while j < e
            invariant
                self.wf(),
                f < self.n_features,
                s == self.csc_colptr@[f as int],
                e == self.csc_colptr@[f + 1],
                s <= j <= e,
                e <= self.csc_rowind@.len(),
                out@.len() == j - s,
                forall|q: int|
                    0 <= q < out@.len() ==> #[trigger] out@[q] == (
                        self.csc_rowind@[s + q] as u32,
                        self.csc_data@[s + q],
                    ),
            decreases e - j,
        {
            out.push((self.csc_rowind[j] as u32, self.csc_data[j]));
            j = j + 1;
        }
        out
    }
}

} // verus!
