//! The sections of a model file.
//!
//! ```text
//! header        magic u8[4], version u8 (9), flags u8 (bit0: the vocabulary
//!               has categorical columns), u8[2], n_classes u32, n_features u32
//! vocabulary    n_sections u32; per section: type u8, u8[3], count u32,
//!               cat_column u32, cat_code_base u32; then the keys (u64 each)
//!               of every section in order
//! labels        n_classes strings (length u8, UTF-8)
//! read weights  scale f32 × n_classes, n_nonzero u32,
//!               column lengths u16 × n_features, rows u16 × n_nonzero,
//!               values (i8, or f32 in the float file) × n_nonzero
//! intercepts    f32 × n_classes
//! boundary      see `boundary`
//! names         n_names u32; per name: string, n_readings u8, strings
//! single chars  n_entries u32; per entry: string, n_readings u8, strings
//! ```
//!
//! All integers are little-endian; an `f32` is kept as its bits.

use vstd::prelude::*;

use crate::bytes::{
    io_error, read_str, read_u16, read_u32, read_u8, spec_agrees, spec_err_is, spec_str,
    spec_u16, spec_u32, spec_u8, le16, le32, LoadErr, Parsed,
};
use crate::error::{corrupt, Error};
use crate::boundary::{
    parse_float, parse_int8, spec_boundary_float, spec_boundary_int8, spec_boundary_view,
    spec_float_boundary_view, SpecBoundary,
};
use crate::float_model::FloatMomoModel;
use crate::kanji_dict::{single_char_dict, spec_cdict_view, spec_single_entries, spec_sort_by_char, spec_table_view};
use crate::model::{spec_csc_wf, MomoModel};
use crate::name_dict::{build_name_index, spec_build, spec_names_view};
use crate::normalize::{normalize_compat_ideographs, spec_fold_text};
use crate::bytes::{read_u64, spec_u64};
use crate::feature::FeatureType;
use crate::vocab::{
    spec_begin_reason, spec_finish_reason, spec_next_id, spec_push_reason, SpecSection, Vocab, VocabBuilder, MAX_BOUNDARY_CAT_COLUMNS, NO_CAT_COLUMN,
    NO_SLOT,
};

verus! {

/// The version of the file format this library reads.
pub const VERSION: u8 = 9;
/// Bit of the flags byte: the vocabulary has categorical columns.
pub const FLAG_VOCAB_HAS_CAT: u8 = 0x01;
/// Upper bound of the counts a file may announce.
pub const MAX_REASONABLE_COUNT: u32 = 50_000_000;
/// Upper bound of the number of classes (a class is a `u16` row index).
pub const MAX_CLASSES: u32 = 65536;
/// Upper bound of the number of vocabulary sections.
pub const MAX_VOCAB_SECTIONS: u32 = 254;

/// What the header gives.
#[derive(Debug, Clone, Copy, PartialEq, Eq)]
pub struct Header {
    pub has_cat: bool,
    pub n_classes: u32,
    pub n_features: u32,
}

/// The magic bytes of the quantized model file, "MOMO".
pub open spec fn spec_magic_mbm() -> Seq<u8> {
    seq![0x4Du8, 0x4Fu8, 0x4Du8, 0x4Fu8]
}

/// The magic bytes of the float model file, "MBMF".
pub open spec fn spec_magic_mbmf() -> Seq<u8> {
    seq![0x4Du8, 0x42u8, 0x4Du8, 0x46u8]
}

/// The header: the magic, the version, then the counts, which must be
/// positive (classes), reasonable, and at most [`MAX_CLASSES`] classes.
pub open spec fn spec_header(b: Seq<u8>, magic: Seq<u8>) -> Parsed<Header> {
    if b.len() < 4 {
        Err(LoadErr::Io)
    } else if b.subrange(0, 4) != magic {
        Err(LoadErr::Magic)
    } else if b.len() < 5 {
        Err(LoadErr::Io)
    } else if b[4] != VERSION {
        Err(LoadErr::Version(b[4]))
    } else if b.len() < 16 {
        Err(LoadErr::Io)
    } else {
        let nc = le32(b, 8);
        let nf = le32(b, 12);
        if nc == 0 {
            Err(LoadErr::Corrupt("n_classes が 0 です（読みラベルが1つも無いモデルは不正）"@))
        } else if nc > MAX_REASONABLE_COUNT || nf > MAX_REASONABLE_COUNT {
            Err(LoadErr::Corrupt("n_classes または n_features が大きすぎます（上限 50000000）"@))
        } else if nc > MAX_CLASSES {
            Err(LoadErr::Corrupt("n_classes が上限 65536 を超えています（CSC 行インデックスが u16 のため）"@))
        } else {
            Ok((Header { has_cat: b[5] % 2 == 1, n_classes: nc as u32, n_features: nf as u32 }, 16))
        }
    }
}

/// Reads the header of a file whose magic bytes are `magic`.
pub fn read_header(b: &[u8], magic: &[u8; 4], path: &str) -> (r: Result<(Header, usize), Error>)
    ensures
        spec_agrees(r, spec_header(b@, magic@), |h: Header| h, path@),
{
    if b.len() < 4 {
        return Err(io_error(path));
    }
    if b[0] != magic[0] || b[1] != magic[1] || b[2] != magic[2] || b[3] != magic[3] {
        proof {
            assert(b@.subrange(0, 4) != magic@) by {
                if b@.subrange(0, 4) == magic@ {
                    assert(b@.subrange(0, 4)[0] == b@[0]);
                    assert(b@.subrange(0, 4)[1] == b@[1]);
                    assert(b@.subrange(0, 4)[2] == b@[2]);
                    assert(b@.subrange(0, 4)[3] == b@[3]);
                }
            }
        }
        return Err(Error::InvalidMagic { path: path.to_owned() });
    }
    proof {
        assert(b@.subrange(0, 4) =~= magic@);
    }
    if b.len() < 5 {
        return Err(io_error(path));
    }
    let version = b[4];
    if version != VERSION {
        return Err(Error::UnsupportedVersion { version });
    }
    if b.len() < 16 {
        return Err(io_error(path));
    }
    let flags = b[5];
    let (n_classes, _) = match read_u32(b, 8, path) {
        Ok(x) => x,
        Err(e) => return Err(e),
    };
    let (n_features, _) = match read_u32(b, 12, path) {
        Ok(x) => x,
        Err(e) => return Err(e),
    };
    if n_classes == 0 {
        return Err(corrupt("n_classes が 0 です（読みラベルが1つも無いモデルは不正）"));
    }
    if n_classes > MAX_REASONABLE_COUNT || n_features > MAX_REASONABLE_COUNT {
        return Err(corrupt("n_classes または n_features が大きすぎます（上限 50000000）"));
    }
    if n_classes > MAX_CLASSES {
        return Err(corrupt("n_classes が上限 65536 を超えています（CSC 行インデックスが u16 のため）"));
    }
    Ok((Header { has_cat: flags % 2 == 1, n_classes, n_features }, 16))
}

// ------------------------------------------------------------
// Arrays of numbers
// ------------------------------------------------------------

/// `n` little-endian `u32` (or `f32` bits).
pub open spec fn spec_u32s(b: Seq<u8>, p: int, n: int) -> Parsed<Seq<u32>> {
    if p + 4 * n <= b.len() {
        Ok((Seq::new(n as nat, |i: int| le32(b, p + 4 * i) as u32), p + 4 * n))
    } else {
        Err(LoadErr::Io)
    }
}

/// `n` little-endian `u16`.
pub open spec fn spec_u16s(b: Seq<u8>, p: int, n: int) -> Parsed<Seq<u16>> {
    if p + 2 * n <= b.len() {
        Ok((Seq::new(n as nat, |i: int| le16(b, p + 2 * i) as u16), p + 2 * n))
    } else {
        Err(LoadErr::Io)
    }
}

/// `n` bytes read as `i8`.
pub open spec fn spec_i8s(b: Seq<u8>, p: int, n: int) -> Parsed<Seq<i8>> {
    if p + n <= b.len() {
        Ok((Seq::new(n as nat, |i: int| b[p + i] as i8), p + n))
    } else {
        Err(LoadErr::Io)
    }
}

pub fn read_u32_vec(b: &[u8], p: usize, n: usize, path: &str) -> (r: Result<(Vec<u32>, usize), Error>)
    requires
        p <= b@.len(),
    ensures
        spec_agrees(r, spec_u32s(b@, p as int, n as int), |v: Vec<u32>| v@, path@),
        r matches Ok((_, q)) ==> q <= b@.len(),
{
    if n > (b.len() - p) / 4 {
        return Err(io_error(path));
    }
    let mut v: Vec<u32> = Vec::new();
    let mut i: usize = 0;
    let mut q: usize = p;
    while i < n
        invariant
            p <= b@.len(),
            p + 4 * n <= b@.len(),
            i <= n,
            q == p + 4 * i,
            v@ == Seq::new(i as nat, |k: int| le32(b@, p + 4 * k) as u32),
        decreases n - i,
    {
        let (x, q2) = match read_u32(b, q, path) {
            Ok(y) => y,
            Err(e) => return Err(e),
        };
        v.push(x);
        proof {
            assert(v@ =~= Seq::new((i + 1) as nat, |k: int| le32(b@, p + 4 * k) as u32));
        }
        q = q2;
        i = i + 1;
    }
    Ok((v, q))
}

pub fn read_u16_vec(b: &[u8], p: usize, n: usize, path: &str) -> (r: Result<(Vec<u16>, usize), Error>)
    requires
        p <= b@.len(),
    ensures
        spec_agrees(r, spec_u16s(b@, p as int, n as int), |v: Vec<u16>| v@, path@),
        r matches Ok((_, q)) ==> q <= b@.len(),
{
    if n > (b.len() - p) / 2 {
        return Err(io_error(path));
    }
    let mut v: Vec<u16> = Vec::new();
    let mut i: usize = 0;
    let mut q: usize = p;
    while i < n
        invariant
            p <= b@.len(),
            p + 2 * n <= b@.len(),
            i <= n,
            q == p + 2 * i,
            v@ == Seq::new(i as nat, |k: int| le16(b@, p + 2 * k) as u16),
        decreases n - i,
    {
        let (x, q2) = match read_u16(b, q, path) {
            Ok(y) => y,
            Err(e) => return Err(e),
        };
        v.push(x);
        proof {
            assert(v@ =~= Seq::new((i + 1) as nat, |k: int| le16(b@, p + 2 * k) as u16));
        }
        q = q2;
        i = i + 1;
    }
    Ok((v, q))
}

pub fn read_i8_vec(b: &[u8], p: usize, n: usize, path: &str) -> (r: Result<(Vec<i8>, usize), Error>)
    requires
        p <= b@.len(),
    ensures
        spec_agrees(r, spec_i8s(b@, p as int, n as int), |v: Vec<i8>| v@, path@),
        r matches Ok((_, q)) ==> q <= b@.len(),
{
    let len = b.len();
    if n > len - p {
        return Err(io_error(path));
    }
    let mut v: Vec<i8> = Vec::new();
    let mut i: usize = 0;
    while i < n
        invariant
            p <= b@.len(),
            p + n <= b@.len(),
            b@.len() <= usize::MAX,
            i <= n,
            v@ == Seq::new(i as nat, |k: int| b@[p + k] as i8),
        decreases n - i,
    {
        v.push(b[p + i] as i8);
        proof {
            assert(v@ =~= Seq::new((i + 1) as nat, |k: int| b@[p + k] as i8));
        }
        i = i + 1;
    }
    Ok((v, p + n))
}

// ------------------------------------------------------------
// Labels
// ------------------------------------------------------------

/// `n` strings one after the other.
pub open spec fn spec_strs(b: Seq<u8>, p: int, n: nat) -> Parsed<Seq<Seq<char>>>
    decreases n,
{
    if n == 0 {
        Ok((Seq::empty(), p))
    } else {
        match spec_strs(b, p, (n - 1) as nat) {
            Err(e) => Err(e),
            Ok((v, q)) => match spec_str(b, q) {
                Err(e) => Err(e),
                Ok((s, q2)) => Ok((v.push(s), q2)),
            },
        }
    }
}

proof fn lemma_strs_pos(b: Seq<u8>, p: int, n: nat)
    requires
        0 <= p,
    ensures
        spec_strs(b, p, n) matches Ok((v, q)) ==> p <= q <= b.len() || (n == 0 && q == p),
        spec_strs(b, p, n) matches Ok((v, q)) ==> v.len() == n,
    decreases n,
{
    if n > 0 {
        lemma_strs_pos(b, p, (n - 1) as nat);
    }
}

pub open spec fn spec_strings_view(v: Vec<String>) -> Seq<Seq<char>> {
    v@.map_values(|s: String| s@)
}

proof fn lemma_strs_err(b: Seq<u8>, p: int, k: nat, m: nat)
    requires
        spec_strs(b, p, k) is Err,
        k <= m,
    ensures
        spec_strs(b, p, m) == spec_strs(b, p, k),
    decreases m,
{
    if m > k {
        lemma_strs_err(b, p, k, (m - 1) as nat);
    }
}

/// Reads `n` strings.
pub fn read_strings(b: &[u8], p: usize, n: usize, path: &str) -> (r: Result<(Vec<String>, usize), Error>)
    requires
        p <= b@.len(),
    ensures
        spec_agrees(r, spec_strs(b@, p as int, n as nat), |v: Vec<String>| spec_strings_view(v), path@),
        r matches Ok((_, q)) ==> q <= b@.len(),
{
    let mut v: Vec<String> = Vec::new();
    let mut i: usize = 0;
    let mut q: usize = p;
    proof {
        assert(spec_strings_view(v) =~= Seq::<Seq<char>>::empty());
    }
    while i < n
        invariant
            i <= n,
            q <= b@.len(),
            spec_strs(b@, p as int, i as nat) == Ok::<(Seq<Seq<char>>, int), LoadErr>((spec_strings_view(v), q as int)),
        decreases n - i,
    {
        let ghost old_bytes = spec_strings_view(v);
        let (s, q2) = match read_str(b, q, path) {
            Ok(y) => y,
            Err(e) => {
                proof {
                    lemma_strs_err(b@, p as int, (i + 1) as nat, n as nat);
                }
                return Err(e);
            },
        };
        v.push(s);
        proof {
            assert(spec_strings_view(v) =~= old_bytes.push(s@));
        }
        q = q2;
        i = i + 1;
    }
    Ok((v, q))
}


// ------------------------------------------------------------
// Read weights: sparse structure
// ------------------------------------------------------------

/// Column pointers from the first `k` column lengths (at `p`): the prefix
/// sums, starting at 0, as long as none exceeds `nnz`.
pub open spec fn spec_colptr(b: Seq<u8>, p: int, nnz: int, k: nat) -> Result<Seq<u32>, LoadErr>
    decreases k,
{
    if k == 0 {
        Ok(seq![0u32])
    } else {
        match spec_colptr(b, p, nnz, (k - 1) as nat) {
            Err(e) => Err(e),
            Ok(cp) => if p + 2 * k > b.len() {
                Err(LoadErr::Io)
            } else if cp.last() + le16(b, p + 2 * (k - 1)) > nnz {
                Err(LoadErr::Corrupt("CSC col_len の累計が n_nonzero を超えました"@))
            } else {
                Ok(cp.push((cp.last() + le16(b, p + 2 * (k - 1))) as u32))
            },
        }
    }
}

proof fn lemma_colptr_err(b: Seq<u8>, p: int, nnz: int, k: nat, m: nat)
    requires
        spec_colptr(b, p, nnz, k) is Err,
        k <= m,
    ensures
        spec_colptr(b, p, nnz, m) == spec_colptr(b, p, nnz, k),
    decreases m,
{
    if m > k {
        lemma_colptr_err(b, p, nnz, k, (m - 1) as nat);
    }
}

proof fn lemma_colptr_ok(b: Seq<u8>, p: int, nnz: int, k: nat)
    requires
        spec_colptr(b, p, nnz, k) is Ok,
    ensures
        spec_colptr(b, p, nnz, k)->Ok_0.len() == k + 1,
        spec_colptr(b, p, nnz, k)->Ok_0.last() <= nnz || k == 0,
    decreases k,
{
    if k > 0 {
        lemma_colptr_ok(b, p, nnz, (k - 1) as nat);
    }
}

/// The sum of the first `k` column lengths at `p`.
pub open spec fn spec_col_sum(b: Seq<u8>, p: int, k: nat) -> int
    decreases k,
{
    if k == 0 {
        0
    } else {
        spec_col_sum(b, p, (k - 1) as nat) + le16(b, p + 2 * (k - 1))
    }
}

proof fn lemma_colptr_sum(b: Seq<u8>, p: int, nnz: int, k: nat)
    requires
        0 <= p,
        nnz <= u32::MAX,
        p + 2 * k <= b.len(),
    ensures
        0 <= spec_col_sum(b, p, k),
        spec_colptr(b, p, nnz, k) is Ok <==> spec_col_sum(b, p, k) <= nnz || k == 0,
        spec_colptr(b, p, nnz, k) matches Ok(cp) ==> {
            &&& cp.len() == k + 1
            &&& cp[0] == 0
            &&& cp.last() == spec_col_sum(b, p, k)
            &&& forall|j: int| 0 <= j < k ==> #[trigger] cp[j + 1] - cp[j] == le16(b, p + 2 * j)
        },
    decreases k,
{
    if k > 0 {
        lemma_colptr_sum(b, p, nnz, (k - 1) as nat);
        assert(0 <= le16(b, p + 2 * (k - 1)));
        if let Ok(cp) = spec_colptr(b, p, nnz, (k - 1) as nat) {
            let v = le16(b, p + 2 * (k - 1));
            if cp.last() + v <= nnz {
                let c2 = cp.push((cp.last() + v) as u32);
                assert forall|j: int| 0 <= j < k implies #[trigger] c2[j + 1] - c2[j] == le16(b, p + 2 * j) by {
                    if j < k - 1 {
                        assert(c2[j + 1] == cp[j + 1] && c2[j] == cp[j]);
                    } else {
                        assert(c2[j] == cp.last());
                        assert(c2[j + 1] == (cp.last() + v) as u32);
                    }
                }
            }
        }
    }
}

/// The sparse section reads correctly exactly when the non-zero count is
/// reasonable, the column lengths add up to it and every row is a class
/// (the section's bytes being there); then the column pointers start at 0
/// and step by the column lengths, and there is one row per non-zero.
pub proof fn lemma_csc_ok_iff(b: Seq<u8>, p: int, nc: u32, nf: u32)
    requires
        0 <= p,
        p + 4 + 2 * nf <= b.len(),
        p + 4 + 2 * nf + 2 * le32(b, p) <= b.len(),
    ensures
        ({
            let nnz = le32(b, p);
            let q = p + 4;
            let rows = p + 4 + 2 * nf;
            &&& spec_csc(b, p, nc, nf) is Ok <==> (nnz <= MAX_REASONABLE_COUNT && spec_col_sum(b, q, nf as nat) == nnz
                && forall|j: int| 0 <= j < nnz ==> #[trigger] le16(b, rows + 2 * j) < nc)
            &&& spec_csc(b, p, nc, nf) matches Ok(((cp, rs), _)) ==> {
                &&& cp.len() == nf + 1
                &&& cp[0] == 0
                &&& forall|k: int| 0 <= k < nf ==> #[trigger] cp[k + 1] - cp[k] == le16(b, q + 2 * k)
                &&& rs.len() == nnz
            }
        }),
{
    let nnz = le32(b, p);
    let q = p + 4;
    assert(nnz == le32(b, p) as u32);
    lemma_colptr_sum(b, q, nnz as int, nf as nat);
    if nnz <= MAX_REASONABLE_COUNT {
        if let Ok(cp) = spec_colptr(b, q, nnz as int, nf as nat) {
            if cp.last() == nnz {
                let rs = Seq::new(nnz as nat, |i: int| le16(b, q + 2 * nf + 2 * i) as u16);
                assert(spec_u16s(b, q + 2 * nf, nnz as int) == Ok::<(Seq<u16>, int), LoadErr>((rs, q + 2 * nf + 2 * nnz)));
                assert((exists|j: int| 0 <= j < rs.len() && rs[j] >= nc) <==> !(forall|j: int| 0 <= j < nnz ==> #[trigger] le16(b, q + 2 * nf + 2 * j) < nc)) by {
                    if exists|j: int| 0 <= j < rs.len() && rs[j] >= nc {
                        let j = choose|j: int| 0 <= j < rs.len() && rs[j] >= nc;
                        assert(rs[j] == le16(b, q + 2 * nf + 2 * j) as u16);
                    }
                    if !(forall|j: int| 0 <= j < nnz ==> #[trigger] le16(b, q + 2 * nf + 2 * j) < nc) {
                        let j = choose|j: int| 0 <= j < nnz && !(#[trigger] le16(b, q + 2 * nf + 2 * j) < nc);
                        assert(rs[j] == le16(b, q + 2 * nf + 2 * j) as u16);
                    }
                }
            }
        }
    }
}

/// The sparse structure of the read weights: the non-zero count, the column
/// lengths turned into column pointers, and the row (class) of every
/// non-zero. The column lengths must add up to the count, and every row be
/// a class.
pub open spec fn spec_csc(b: Seq<u8>, p: int, nc: u32, nf: u32) -> Parsed<(Seq<u32>, Seq<u16>)> {
    match spec_u32(b, p) {
        Err(e) => Err(e),
        Ok((nnz, q)) => if nnz > MAX_REASONABLE_COUNT {
            Err(LoadErr::Corrupt("n_nonzero が大きすぎます（上限 50000000）"@))
        } else {
            match spec_colptr(b, q, nnz as int, nf as nat) {
                Err(e) => Err(e),
                Ok(cp) => if cp.last() != nnz {
                    Err(LoadErr::Corrupt("CSC col_len の合計と n_nonzero が一致しません"@))
                } else {
                    match spec_u16s(b, q + 2 * nf, nnz as int) {
                        Err(e) => Err(e),
                        Ok((rows, q2)) => if exists|j: int| 0 <= j < rows.len() && rows[j] >= nc {
                            Err(LoadErr::Corrupt("CSC rowind に不正なクラスIDがあります"@))
                        } else {
                            Ok(((cp, rows), q2))
                        },
                    }
                },
            }
        },
    }
}

/// Reads the sparse structure of the read weights (see [`spec_csc`]):
/// column pointers, rows, and the non-zero count.
pub fn read_csc_structure(b: &[u8], p: usize, n_classes: u32, n_features: u32, path: &str) -> (r: Result<((Vec<u32>, Vec<u16>, usize), usize), Error>)
    requires
        p <= b@.len(),
    ensures
        spec_agrees(
            r,
            spec_csc(b@, p as int, n_classes, n_features),
            |x: (Vec<u32>, Vec<u16>, usize)| (x.0@, x.1@),
            path@,
        ),
        r matches Ok((x, q)) ==> x.2 == x.1@.len(),
        r matches Ok((_, q)) ==> q <= b@.len(),
{
    let (nnz, q) = match read_u32(b, p, path) {
        Ok(x) => x,
        Err(e) => return Err(e),
    };
    if nnz > MAX_REASONABLE_COUNT {
        return Err(corrupt("n_nonzero が大きすぎます（上限 50000000）"));
    }
    let mut colptr: Vec<u32> = Vec::new();
    colptr.push(0);
    let mut acc: u32 = 0;
    let mut col: u32 = 0;
    let mut pos: usize = q;
    proof {
        assert(colptr@ =~= seq![0u32]);
    }
    while col < n_features
        invariant
            q <= b@.len(),
            spec_u32(b@, p as int) == Ok::<(u32, int), LoadErr>((nnz, q as int)),
            col <= n_features,
            pos == q + 2 * col,
            nnz <= MAX_REASONABLE_COUNT,
            spec_colptr(b@, q as int, nnz as int, col as nat) == Ok::<Seq<u32>, LoadErr>(colptr@),
            acc == colptr@.last(),
            acc <= nnz,
            colptr@.len() == col + 1,
        decreases n_features - col,
    {
        if pos > b.len() {
            proof {
                lemma_colptr_err(b@, q as int, nnz as int, (col + 1) as nat, n_features as nat);
            }
            return Err(io_error(path));
        }
        let (len, pos2) = match read_u16(b, pos, path) {
            Ok(x) => x,
            Err(e) => {
                proof {
                    lemma_colptr_err(b@, q as int, nnz as int, (col + 1) as nat, n_features as nat);
                }
                return Err(e);
            },
        };
        if len as u32 > nnz - acc {
            proof {
                lemma_colptr_err(b@, q as int, nnz as int, (col + 1) as nat, n_features as nat);
            }
            return Err(corrupt("CSC col_len の累計が n_nonzero を超えました"));
        }
        acc = acc + len as u32;
        colptr.push(acc);
        pos = pos2;
        col = col + 1;
    }
    if acc != nnz {
        return Err(corrupt("CSC col_len の合計と n_nonzero が一致しません"));
    }
    let (rows, q2) = match read_u16_vec(b, pos, nnz as usize, path) {
        Ok(x) => x,
        Err(e) => return Err(e),
    };
    let ghost cp = colptr@;
    let mut j: usize = 0;
    while j < rows.len()
        invariant
            spec_u32(b@, p as int) == Ok::<(u32, int), LoadErr>((nnz, q as int)),
            nnz <= MAX_REASONABLE_COUNT,
            spec_colptr(b@, q as int, nnz as int, n_features as nat) == Ok::<Seq<u32>, LoadErr>(cp),
            cp.last() == nnz,
            spec_u16s(b@, q + 2 * n_features, nnz as int) == Ok::<(Seq<u16>, int), LoadErr>((rows@, q2 as int)),
            j <= rows@.len(),
            forall|k: int| 0 <= k < j ==> rows@[k] < n_classes,
        decreases rows@.len() - j,
    {
        if rows[j] as u32 >= n_classes {
            proof {
                assert(0 <= j < rows@.len() && rows@[j as int] >= n_classes);
            }
            return Err(corrupt("CSC rowind に不正なクラスIDがあります"));
        }
        j = j + 1;
    }
    let n = rows.len();
    Ok(((colptr, rows, n), q2))
}


// ------------------------------------------------------------
// Vocabulary
// ------------------------------------------------------------

/// The feature type whose byte is `v`, if any.
pub open spec fn spec_ft(v: u8) -> Option<FeatureType> {
    if exists|t: FeatureType| t.spec_value() == v {
        Some(choose|t: FeatureType| t.spec_value() == v)
    } else {
        None
    }
}

/// A section header: type, key count, categorical column, first code.
pub type SecHeader = (FeatureType, u32, u32, u32);

/// The first `k` section headers at `p` (16 bytes each) and the sum of
/// their counts. A column where the flags say there is none, or counts that
/// add up past `nf`, make the file corrupt.
pub open spec fn spec_sec_headers(b: Seq<u8>, p: int, has_cat: bool, nf: u32, k: nat) -> Result<(Seq<SecHeader>, int), LoadErr>
    decreases k,
{
    if k == 0 {
        Ok((Seq::empty(), 0))
    } else {
        match spec_sec_headers(b, p, has_cat, nf, (k - 1) as nat) {
            Err(e) => Err(e),
            Ok((hs, total)) => {
                let q = p + 16 * (k - 1);
                match spec_u8(b, q) {
                    Err(e) => Err(e),
                    Ok((v, _)) => match spec_ft(v) {
                        None => Err(LoadErr::FeatureType(v)),
                        Some(ft) => if q + 16 > b.len() {
                            Err(LoadErr::Io)
                        } else if !has_cat && le32(b, q + 8) != NO_CAT_COLUMN {
                            Err(LoadErr::Corrupt("flags に VOCAB_HAS_CAT が無いのに特徴量タイプがカテゴリカル列を持っています"@))
                        } else if total + le32(b, q + 4) > nf {
                            Err(LoadErr::Corrupt("統合語彙セクションの件数合計が n_features を超えました"@))
                        } else {
                            Ok((
                                hs.push((ft, le32(b, q + 4) as u32, le32(b, q + 8) as u32, le32(b, q + 12) as u32)),
                                total + le32(b, q + 4),
                            ))
                        },
                    },
                }
            },
        }
    }
}

proof fn lemma_sec_headers_err(b: Seq<u8>, p: int, has_cat: bool, nf: u32, k: nat, m: nat)
    requires
        spec_sec_headers(b, p, has_cat, nf, k) is Err,
        k <= m,
    ensures
        spec_sec_headers(b, p, has_cat, nf, m) == spec_sec_headers(b, p, has_cat, nf, k),
    decreases m,
{
    if m > k {
        lemma_sec_headers_err(b, p, has_cat, nf, k, (m - 1) as nat);
    }
}

/// The state of the vocabulary being built: sections and announced counts.
pub type BuildState = (Seq<SpecSection>, Seq<u32>);

/// Opening a section (see `VocabBuilder::begin_section`).
pub open spec fn spec_begin(st: BuildState, h: SecHeader) -> Option<BuildState> {
    let secs = st.0;
    let (ft, count, col, base) = h;
    if (secs.len() > 0 && ft.spec_value() <= secs.last().0.spec_value()) || secs.len() >= NO_SLOT
        || (col != NO_CAT_COLUMN && col >= MAX_BOUNDARY_CAT_COLUMNS) || spec_next_id(secs, st.1)
        + count > u32::MAX || (col != NO_CAT_COLUMN && base + count > u32::MAX) {
        None
    } else {
        Some((secs.push((ft, Seq::empty(), col, base, spec_next_id(secs, st.1) as u32)), st.1.push(count)))
    }
}

/// Adding a key to the open section (see `VocabBuilder::push_key`).
pub open spec fn spec_push_key(st: BuildState, key: u64) -> Option<BuildState> {
    let secs = st.0;
    if secs.len() == 0 || (secs.last().1.len() > 0 && key <= secs.last().1.last()) {
        None
    } else {
        Some((
            secs.update(
                secs.len() - 1,
                (secs.last().0, secs.last().1.push(key), secs.last().2, secs.last().3, secs.last().4),
            ),
            st.1,
        ))
    }
}

/// The first `k` keys at `p` added to the open section.
pub open spec fn spec_keys(b: Seq<u8>, p: int, st: BuildState, k: nat) -> Result<BuildState, LoadErr>
    decreases k,
{
    if k == 0 {
        Ok(st)
    } else {
        match spec_keys(b, p, st, (k - 1) as nat) {
            Err(e) => Err(e),
            Ok(st2) => match spec_u64(b, p + 8 * (k - 1)) {
                Err(e) => Err(e),
                Ok((key, _)) => match spec_push_key(st2, key) {
                    None => Err(LoadErr::Corrupt(spec_push_reason(st2.0))),
                    Some(st3) => Ok(st3),
                },
            },
        }
    }
}

proof fn lemma_keys_err(b: Seq<u8>, p: int, st: BuildState, k: nat, m: nat)
    requires
        spec_keys(b, p, st, k) is Err,
        k <= m,
    ensures
        spec_keys(b, p, st, m) == spec_keys(b, p, st, k),
    decreases m,
{
    if m > k {
        lemma_keys_err(b, p, st, k, (m - 1) as nat);
    }
}

/// The sections of the first `k` headers, each opened and filled with its
/// keys, starting at `p`; and the offset after their keys.
pub open spec fn spec_fill(b: Seq<u8>, p: int, hs: Seq<SecHeader>, k: nat) -> Result<(BuildState, int), LoadErr>
    decreases k,
{
    if k == 0 {
        Ok(((Seq::empty(), Seq::empty()), p))
    } else {
        match spec_fill(b, p, hs, (k - 1) as nat) {
            Err(e) => Err(e),
            Ok((st, q)) => match spec_begin(st, hs[k - 1]) {
                None => Err(LoadErr::Corrupt(spec_begin_reason(st.0, st.1, hs[k - 1].0, hs[k - 1].1, hs[k - 1].2, hs[k - 1].3))),
                Some(st2) => match spec_keys(b, q, st2, hs[k - 1].1 as nat) {
                    Err(e) => Err(e),
                    Ok(st3) => Ok((st3, q + 8 * hs[k - 1].1)),
                },
            },
        }
    }
}

proof fn lemma_fill_err(b: Seq<u8>, p: int, hs: Seq<SecHeader>, k: nat, m: nat)
    requires
        spec_fill(b, p, hs, k) is Err,
        k <= m,
    ensures
        spec_fill(b, p, hs, m) == spec_fill(b, p, hs, k),
    decreases m,
{
    if m > k {
        lemma_fill_err(b, p, hs, k, (m - 1) as nat);
    }
}

/// Finishing (see `VocabBuilder::finish`): every section got the keys it
/// announced and the ids add up to `nf`.
pub open spec fn spec_finish_ok(st: BuildState, nf: u32) -> bool {
    &&& forall|k: int| 0 <= k < st.0.len() ==> (#[trigger] st.0[k]).1.len() == st.1[k]
    &&& spec_next_id(st.0, st.1) == nf
}

/// The vocabulary section: its sections (type, keys, column, first code,
/// first id), and the offset after it.
pub open spec fn spec_vocab(b: Seq<u8>, p: int, has_cat: bool, nf: u32) -> Parsed<Seq<SpecSection>> {
    match spec_u32(b, p) {
        Err(e) => Err(e),
        Ok((n, q)) => if n > MAX_VOCAB_SECTIONS {
            Err(LoadErr::Corrupt("統合語彙のセクション数が上限 254 を超えています"@))
        } else {
            match spec_sec_headers(b, q, has_cat, nf, n as nat) {
                Err(e) => Err(e),
                Ok((hs, total)) => if total != nf {
                    Err(LoadErr::Corrupt("統合語彙セクションの件数合計と n_features が一致しません"@))
                } else {
                    match spec_fill(b, q + 16 * n, hs, n as nat) {
                        Err(e) => Err(e),
                        Ok((st, q2)) => if spec_finish_ok(st, nf) {
                            Ok((st.0, q2))
                        } else {
                            Err(LoadErr::Corrupt(spec_finish_reason(st.0, st.1)))
                        },
                    }
                },
            }
        },
    }
}

fn read_sec_headers(b: &[u8], p: usize, has_cat: bool, nf: u32, n: u32, path: &str) -> (r: Result<(Vec<SecHeader>, u32), Error>)
    requires
        p <= b@.len(),
    ensures
        match spec_sec_headers(b@, p as int, has_cat, nf, n as nat) {
            Ok((hs, total)) => r matches Ok((v, t)) && v@ == hs && t == total && p + 16 * n <= b@.len(),
            Err(t) => r matches Err(e) && spec_err_is(e, t, path@),
        },
{
    let len = b.len();
    let mut hs: Vec<SecHeader> = Vec::new();
    let mut total: u32 = 0;
    let mut k: u32 = 0;
    while k < n
        invariant
            p <= b@.len(),
            b@.len() <= usize::MAX,
            p + 16 * k <= b@.len(),
            k <= n,
            spec_sec_headers(b@, p as int, has_cat, nf, k as nat) == Ok::<(Seq<SecHeader>, int), LoadErr>((hs@, total as int)),
            total <= nf,
        decreases n - k,
    {
        let q = p + 16 * (k as usize);
        let (v, _) = match read_u8(b, q, path) {
            Ok(x) => x,
            Err(e) => {
                proof {
                    lemma_sec_headers_err(b@, p as int, has_cat, nf, (k + 1) as nat, n as nat);
                }
                return Err(e);
            },
        };
        let ft = match FeatureType::from_u8(v) {
            Some(t) => t,
            None => {
                proof {
                    assert(!(exists|t: FeatureType| t.spec_value() == v));
                }
                {
                    proof {
                        lemma_sec_headers_err(b@, p as int, has_cat, nf, (k + 1) as nat, n as nat);
                    }
                    return Err(Error::InvalidFeatureType { value: v });
                }
            },
        };
        proof {
            assert(spec_ft(v) == Some(ft)) by {
                let c = choose|t: FeatureType| t.spec_value() == v;
                crate::feature::lemma_feature_value_injective(c, ft);
            }
        }
        if b.len() - q < 16 {
            {
                proof {
                    lemma_sec_headers_err(b@, p as int, has_cat, nf, (k + 1) as nat, n as nat);
                }
                return Err(io_error(path));
            }
        }
        let (count, _) = match read_u32(b, q + 4, path) {
            Ok(x) => x,
            Err(e) => {
                proof {
                    lemma_sec_headers_err(b@, p as int, has_cat, nf, (k + 1) as nat, n as nat);
                }
                return Err(e);
            },
        };
        let (col, _) = match read_u32(b, q + 8, path) {
            Ok(x) => x,
            Err(e) => {
                proof {
                    lemma_sec_headers_err(b@, p as int, has_cat, nf, (k + 1) as nat, n as nat);
                }
                return Err(e);
            },
        };
        let (base, _) = match read_u32(b, q + 12, path) {
            Ok(x) => x,
            Err(e) => {
                proof {
                    lemma_sec_headers_err(b@, p as int, has_cat, nf, (k + 1) as nat, n as nat);
                }
                return Err(e);
            },
        };
        if !has_cat && col != NO_CAT_COLUMN {
            {
                proof {
                    lemma_sec_headers_err(b@, p as int, has_cat, nf, (k + 1) as nat, n as nat);
                }
                return Err(corrupt("flags に VOCAB_HAS_CAT が無いのに特徴量タイプがカテゴリカル列を持っています"));
            }
        }
        if count > nf - total {
            {
                proof {
                    lemma_sec_headers_err(b@, p as int, has_cat, nf, (k + 1) as nat, n as nat);
                }
                return Err(corrupt("統合語彙セクションの件数合計が n_features を超えました"));
            }
        }
        total = total + count;
        hs.push((ft, count, col, base));
        k = k + 1;
    }
    Ok((hs, total))
}

fn read_section_keys(b: &[u8], p: usize, builder: &mut VocabBuilder, count: u32, path: &str) -> (r: Result<usize, Error>)
    requires
        p <= b@.len(),
        old(builder).wf(),
    ensures
        final(builder).wf(),
        match spec_keys(b@, p as int, (old(builder).spec_sections(), old(builder).spec_expected()), count as nat) {
            Ok(st) => r matches Ok(q) && q == p + 8 * count && q <= b@.len()
                && st == (final(builder).spec_sections(), final(builder).spec_expected()),
            Err(t) => r matches Err(e) && spec_err_is(e, t, path@),
        },
{
    let len = b.len();
    let ghost st0: BuildState = (builder.spec_sections(), builder.spec_expected());
    let mut k: u32 = 0;
    while k < count
        invariant
            p <= b@.len(),
            b@.len() <= usize::MAX,
            p + 8 * k <= b@.len(),
            k <= count,
            builder.wf(),
            st0 == (old(builder).spec_sections(), old(builder).spec_expected()),
            spec_keys(b@, p as int, st0, k as nat) == Ok::<BuildState, LoadErr>((builder.spec_sections(), builder.spec_expected())),
        decreases count - k,
    {
        let (key, _) = match read_u64(b, p + 8 * (k as usize), path) {
            Ok(x) => x,
            Err(e) => {
                proof {
                    lemma_keys_err(b@, p as int, st0, (k + 1) as nat, count as nat);
                }
                return Err(e);
            },
        };
        match builder.push_key(key) {
            Ok(()) => {},
            Err(e) => {
                proof {
                    lemma_keys_err(b@, p as int, st0, (k + 1) as nat, count as nat);
                }
                return Err(e);
            },
        }
        k = k + 1;
    }
    Ok(p + 8 * (count as usize))
}

proof fn lemma_sec_headers_room(b: Seq<u8>, p: int, has_cat: bool, nf: u32, k: nat)
    requires
        spec_sec_headers(b, p, has_cat, nf, k) is Ok,
        0 <= p,
    ensures
        spec_sec_headers(b, p, has_cat, nf, k)->Ok_0.0.len() == k,
    decreases k,
{
    if k > 0 {
        lemma_sec_headers_room(b, p, has_cat, nf, (k - 1) as nat);
    }
}

/// Reads the vocabulary section (see [`spec_vocab`]).
pub fn read_vocab(b: &[u8], p: usize, has_cat: bool, n_features: u32, path: &str) -> (r: Result<(Vocab, usize), Error>)
    requires
        p <= b@.len(),
    ensures
        spec_agrees(r, spec_vocab(b@, p as int, has_cat, n_features), |v: Vocab| v.spec_sections(), path@),
        r matches Ok((v, q)) ==> v.wf(),
        r matches Ok((_, q)) ==> q <= b@.len(),
{
    let (n, q) = match read_u32(b, p, path) {
        Ok(x) => x,
        Err(e) => return Err(e),
    };
    if n > MAX_VOCAB_SECTIONS {
        return Err(corrupt("統合語彙のセクション数が上限 254 を超えています"));
    }
    let (hs, total) = match read_sec_headers(b, q, has_cat, n_features, n, path) {
        Ok(h) => h,
        Err(e) => return Err(e),
    };
    proof {
        lemma_sec_headers_room(b@, q as int, has_cat, n_features, n as nat);
    }
    if total != n_features {
        return Err(corrupt("統合語彙セクションの件数合計と n_features が一致しません"));
    }
    proof {
        match spec_sec_headers(b@, q as int, has_cat, n_features, n as nat) {
            Ok(_) => {},
            Err(_) => {},
        }
        assert(q + 16 * n <= b@.len());
    }
    let _len = b.len();
    let start: usize = q + 16 * (n as usize);
    let mut pos: usize = start;
    let mut builder = VocabBuilder::new();
    proof {
        assert(builder.spec_sections() =~= Seq::<SpecSection>::empty());
        assert(builder.spec_expected() =~= Seq::<u32>::empty());
    }
    let mut k: usize = 0;
    while k < hs.len()
        invariant
            spec_u32(b@, p as int) == Ok::<(u32, int), LoadErr>((n, q as int)),
            n <= MAX_VOCAB_SECTIONS,
            spec_sec_headers(b@, q as int, has_cat, n_features, n as nat) == Ok::<(Seq<SecHeader>, int), LoadErr>((hs@, n_features as int)),
            hs@.len() == n,
            start == q + 16 * n,
            k <= hs@.len(),
            pos <= b@.len(),
            builder.wf(),
            spec_fill(b@, start as int, hs@, k as nat) == Ok::<(BuildState, int), LoadErr>(((builder.spec_sections(), builder.spec_expected()), pos as int)),
        decreases hs@.len() - k,
    {
        let (ft, count, col, base) = hs[k];
        match builder.begin_section(ft, count, col, base) {
            Ok(()) => {},
            Err(e) => {
                proof {
                    lemma_fill_err(b@, start as int, hs@, (k + 1) as nat, hs@.len() as nat);
                }
                return Err(e);
            },
        }
        let pos2 = match read_section_keys(b, pos, &mut builder, count, path) {
            Ok(x) => x,
            Err(e) => {
                proof {
                    lemma_fill_err(b@, start as int, hs@, (k + 1) as nat, hs@.len() as nat);
                }
                return Err(e);
            },
        };
        pos = pos2;
        k = k + 1;
    }
    match builder.finish(n_features) {
        Ok(v) => Ok((v, pos)),
        Err(e) => Err(e),
    }
}


// ------------------------------------------------------------
// Name dictionary and single-character dictionary
// ------------------------------------------------------------

/// An entry of either dictionary: surface, and its readings.
pub type TableEntry = (Seq<char>, Seq<Seq<char>>);

/// One entry: a string, a count byte, that many strings.
pub open spec fn spec_entry(b: Seq<u8>, p: int) -> Parsed<TableEntry> {
    match spec_str(b, p) {
        Err(e) => Err(e),
        Ok((sf, q)) => match spec_u8(b, q) {
            Err(e) => Err(e),
            Ok((nr, q2)) => match spec_strs(b, q2, nr as nat) {
                Err(e) => Err(e),
                Ok((rs, q3)) => Ok(((sf, rs), q3)),
            },
        },
    }
}

/// The first `k` entries at `p`.
pub open spec fn spec_entries(b: Seq<u8>, p: int, k: nat) -> Parsed<Seq<TableEntry>>
    decreases k,
{
    if k == 0 {
        Ok((Seq::empty(), p))
    } else {
        match spec_entries(b, p, (k - 1) as nat) {
            Err(e) => Err(e),
            Ok((v, q)) => match spec_entry(b, q) {
                Err(e) => Err(e),
                Ok((x, q2)) => Ok((v.push(x), q2)),
            },
        }
    }
}

proof fn lemma_entries_err(b: Seq<u8>, p: int, k: nat, m: nat)
    requires
        spec_entries(b, p, k) is Err,
        k <= m,
    ensures
        spec_entries(b, p, m) == spec_entries(b, p, k),
    decreases m,
{
    if m > k {
        lemma_entries_err(b, p, k, (m - 1) as nat);
    }
}

/// A dictionary table: an entry count, which must be reasonable, then the
/// entries.
pub open spec fn spec_dict_table(b: Seq<u8>, p: int) -> Parsed<Seq<TableEntry>> {
    match spec_u32(b, p) {
        Err(e) => Err(e),
        Ok((n, q)) => if n > MAX_REASONABLE_COUNT {
            Err(LoadErr::Corrupt("辞書の件数が大きすぎます（上限 50000000）"@))
        } else {
            spec_entries(b, q, n as nat)
        },
    }
}

pub open spec fn spec_entry_view(e: (String, Vec<String>)) -> TableEntry {
    (e.0@, spec_strings_view(e.1))
}

pub open spec fn spec_entries_view(v: Vec<(String, Vec<String>)>) -> Seq<TableEntry> {
    v@.map_values(|e: (String, Vec<String>)| spec_entry_view(e))
}

fn read_entry(b: &[u8], p: usize, path: &str) -> (r: Result<((String, Vec<String>), usize), Error>)
    requires
        p <= b@.len(),
    ensures
        spec_agrees(r, spec_entry(b@, p as int), |e: (String, Vec<String>)| spec_entry_view(e), path@),
{
    let (sf, q) = match read_str(b, p, path) {
        Ok(x) => x,
        Err(e) => return Err(e),
    };
    let (nr, q2) = match read_u8(b, q, path) {
        Ok(x) => x,
        Err(e) => return Err(e),
    };
    let (rs, q3) = match read_strings(b, q2, nr as usize, path) {
        Ok(x) => x,
        Err(e) => return Err(e),
    };
    Ok(((sf, rs), q3))
}

/// Reads a dictionary table (see [`spec_dict_table`]): surfaces with their
/// readings, as in the file.
pub fn read_dict_table(b: &[u8], p: usize, path: &str) -> (r: Result<(Vec<(String, Vec<String>)>, usize), Error>)
    requires
        p <= b@.len(),
    ensures
        spec_agrees(r, spec_dict_table(b@, p as int), |v: Vec<(String, Vec<String>)>| spec_entries_view(v), path@),
        r matches Ok((_, q)) ==> q <= b@.len(),
{
    let (n, q) = match read_u32(b, p, path) {
        Ok(x) => x,
        Err(e) => return Err(e),
    };
    if n > MAX_REASONABLE_COUNT {
        return Err(corrupt("辞書の件数が大きすぎます（上限 50000000）"));
    }
    let mut v: Vec<(String, Vec<String>)> = Vec::new();
    let mut k: u32 = 0;
    let mut pos: usize = q;
    proof {
        assert(spec_entries_view(v) =~= Seq::<TableEntry>::empty());
    }
    while k < n
        invariant
            spec_u32(b@, p as int) == Ok::<(u32, int), LoadErr>((n, q as int)),
            n <= MAX_REASONABLE_COUNT,
            k <= n,
            pos <= b@.len(),
            spec_entries(b@, q as int, k as nat) == Ok::<(Seq<TableEntry>, int), LoadErr>((spec_entries_view(v), pos as int)),
        decreases n - k,
    {
        let ghost old_v = spec_entries_view(v);
        let (e, pos2) = match read_entry(b, pos, path) {
            Ok(x) => x,
            Err(e) => {
                proof {
                    lemma_entries_err(b@, q as int, (k + 1) as nat, n as nat);
                }
                return Err(e);
            },
        };
        let ghost ev = spec_entry_view(e);
        v.push(e);
        proof {
            assert(spec_entries_view(v) =~= old_v.push(ev));
        }
        pos = pos2;
        k = k + 1;
    }
    Ok((v, pos))
}


/// The single-character table: like a dictionary table, but a file that
/// ends before its count is a file from before the table was added, which
/// is corrupt (it must be exported again).
pub open spec fn spec_single_table(b: Seq<u8>, p: int) -> Parsed<Seq<TableEntry>> {
    match spec_u32(b, p) {
        Err(_) => Err(LoadErr::Corrupt("単一文字辞書テーブルがありません（同テーブル追加前の旧 0x04 ファイルの可能性があります。モデルを再エクスポートしてください）"@)),
        Ok(_) => spec_dict_table(b, p),
    }
}

/// Reads the single-character table (see [`spec_single_table`]).
pub fn read_single_table(b: &[u8], p: usize, path: &str) -> (r: Result<(Vec<(String, Vec<String>)>, usize), Error>)
    requires
        p <= b@.len(),
    ensures
        spec_agrees(r, spec_single_table(b@, p as int), |v: Vec<(String, Vec<String>)>| spec_entries_view(v), path@),
        r matches Ok((_, q)) ==> q <= b@.len(),
{
    if b.len() - p < 4 {
        return Err(corrupt("単一文字辞書テーブルがありません（同テーブル追加前の旧 0x04 ファイルの可能性があります。モデルを再エクスポートしてください）"));
    }
    read_dict_table(b, p, path)
}

// ------------------------------------------------------------
// Dictionaries from their tables
// ------------------------------------------------------------

/// The names of a name table: surfaces with their compatibility
/// ideographs folded, no readings where the entry has none.
pub open spec fn spec_names_of(t: Seq<(Seq<char>, Seq<Seq<char>>)>) -> Seq<(Seq<char>, Option<Seq<Seq<char>>>)> {
    t.map_values(
        |e: (Seq<char>, Seq<Seq<char>>)|
            (spec_fold_text(e.0), if e.1.len() == 0 {
                None
            } else {
                Some(e.1)
            }),
    )
}

/// The names of a name table (see [`spec_names_of`]).
pub fn names_from_table(table: Vec<(String, Vec<String>)>) -> (r: Vec<(String, Option<Vec<String>>)>)
    ensures
        spec_names_view(r@) == spec_names_of(spec_table_view(table@)),
{
    let ghost tv = spec_table_view(table@);
    let n = table.len();
    let mut rest = table;
    let mut out: Vec<(String, Option<Vec<String>>)> = Vec::new();
    let mut k: usize = 0;
    proof {
        assert(spec_table_view(rest@) =~= tv.skip(0));
        assert(spec_names_view(out@) =~= spec_names_of(tv.take(0)));
    }
    while rest.len() > 0
        invariant
            n == tv.len(),
            k + rest@.len() == n,
            spec_table_view(rest@) == tv.skip(k as int),
            spec_names_view(out@) == spec_names_of(tv.take(k as int)),
        decreases rest@.len(),
    {
        let ghost rv = rest@;
        let (surface, readings) = rest.remove(0);
        proof {
            assert(spec_table_view(rv)[0] == tv[k as int]);
            assert(spec_table_view(rest@) =~= tv.skip(k + 1)) by {
                assert(rest@ =~= rv.subrange(1, rv.len() as int));
                assert(spec_table_view(rest@) =~= spec_table_view(rv).skip(1));
                assert(tv.skip(k as int).skip(1) =~= tv.skip(k + 1));
            }
        }
        let folded = normalize_compat_ideographs(surface.as_str());
        let rs = if readings.len() == 0 {
            None
        } else {
            Some(readings)
        };
        let ghost ov = spec_names_view(out@);
        out.push((folded, rs));
        proof {
            assert(spec_names_view(out@) =~= ov.push(spec_names_of(tv.take(k + 1)).last()));
            assert(spec_names_of(tv.take(k + 1)) =~= spec_names_of(tv.take(k as int)).push(spec_names_of(tv.take(k + 1)).last()));
        }
        k = k + 1;
    }
    proof {
        assert(tv.take(n as int) =~= tv);
    }
    out
}

// ------------------------------------------------------------
// The whole file
// ------------------------------------------------------------

/// What a model file holds, section by section.
pub struct SpecFile {
    pub header: Header,
    pub vocab: Seq<crate::vocab::SpecSection>,
    pub labels: Seq<Seq<char>>,
    pub read_scale: Seq<u32>,
    pub colptr: Seq<u32>,
    pub rowind: Seq<u16>,
    pub data: Seq<i8>,
    pub intercept: Seq<u32>,
    pub boundary: SpecBoundary,
    pub names: Seq<TableEntry>,
    pub singles: Seq<TableEntry>,
}

/// A quantized model file, read section by section (see the module
/// documentation); a tree boundary model needs the flag of categorical
/// columns.
pub open spec fn spec_load(b: Seq<u8>) -> Result<SpecFile, LoadErr> {
    match spec_header(b, spec_magic_mbm()) {
        Err(e) => Err(e),
        Ok((h, p1)) => match spec_vocab(b, p1, h.has_cat, h.n_features) {
            Err(e) => Err(e),
            Ok((voc, p2)) => match spec_strs(b, p2, h.n_classes as nat) {
                Err(e) => Err(e),
                Ok((labels, p3)) => match spec_u32s(b, p3, h.n_classes as int) {
                    Err(e) => Err(e),
                    Ok((scale, p4)) => match spec_csc(b, p4, h.n_classes, h.n_features) {
                        Err(e) => Err(e),
                        Ok(((cp, rows), p5)) => match spec_i8s(b, p5, rows.len() as int) {
                            Err(e) => Err(e),
                            Ok((data, p6)) => match spec_u32s(b, p6, h.n_classes as int) {
                                Err(e) => Err(e),
                                Ok((ic, p7)) => match spec_boundary_int8(b, p7, h.n_features) {
                                    Err(e) => Err(e),
                                    Ok((bd, p8)) => if bd is Tree && !h.has_cat {
                                        Err(LoadErr::Corrupt("GBDT 境界モデルですが flags に VOCAB_HAS_CAT が立っていません（統合語彙にカテゴリカル情報がありません）"@))
                                    } else {
                                        match spec_dict_table(b, p8) {
                                            Err(e) => Err(e),
                                            Ok((names, p9)) => match spec_single_table(b, p9) {
                                                Err(e) => Err(e),
                                                Ok((singles, _)) => Ok(
                                                    SpecFile {
                                                        header: h,
                                                        vocab: voc,
                                                        labels,
                                                        read_scale: scale,
                                                        colptr: cp,
                                                        rowind: rows,
                                                        data,
                                                        intercept: ic,
                                                        boundary: bd,
                                                        names,
                                                        singles,
                                                    },
                                                ),
                                            },
                                        }
                                    },
                                },
                            },
                        },
                    },
                },
            },
        },
    }
}

/// The model `m` is what the file `f` holds.
pub open spec fn spec_model_of(m: MomoModel, f: SpecFile) -> bool {
    &&& m.n_classes == f.header.n_classes
    &&& m.n_features == f.header.n_features
    &&& m.vocab.spec_sections() == f.vocab
    &&& spec_strings_view(m.read_classes) == f.labels
    &&& m.read_scale@ == f.read_scale
    &&& m.csc_colptr@ == f.colptr
    &&& m.csc_rowind@ == f.rowind
    &&& m.csc_data@ == f.data
    &&& m.intercept_read@ == f.intercept
    &&& spec_boundary_view(m.boundary) == f.boundary
    &&& m.name_dict@ == spec_build(spec_names_of(f.names))
    &&& spec_cdict_view(m.single_char_dict@) == spec_sort_by_char(spec_single_entries(f.singles))
}

proof fn lemma_colptr_wf(b: Seq<u8>, p: int, nnz: int, k: nat)
    requires
        spec_colptr(b, p, nnz, k) is Ok,
        0 <= nnz <= u32::MAX,
    ensures
        ({
            let cp = spec_colptr(b, p, nnz, k)->Ok_0;
            &&& cp.len() == k + 1
            &&& cp[0] == 0
            &&& forall|i: int, j: int| 0 <= i <= j < cp.len() ==> #[trigger] cp[i] <= #[trigger] cp[j]
        }),
    decreases k,
{
    if k > 0 {
        lemma_colptr_wf(b, p, nnz, (k - 1) as nat);
        let prev = spec_colptr(b, p, nnz, (k - 1) as nat)->Ok_0;
        let cp = spec_colptr(b, p, nnz, k)->Ok_0;
        lemma_colptr_ok(b, p, nnz, (k - 1) as nat);
        assert(cp == prev.push(cp.last()));
        assert(cp.last() >= prev.last());
        assert forall|i: int, j: int| 0 <= i <= j < cp.len() implies #[trigger] cp[i] <= #[trigger] cp[j] by {
            if j < cp.len() - 1 {
                assert(cp[i] == prev[i] && cp[j] == prev[j]);
            } else if i < j {
                assert(cp[i] == prev[i]);
                assert(prev[i] <= prev[prev.len() - 1]);
            }
        }
    }
}

proof fn lemma_csc_wf(b: Seq<u8>, p: int, nc: u32, nf: u32)
    requires
        spec_csc(b, p, nc, nf) is Ok,
    ensures
        spec_csc_wf(spec_csc(b, p, nc, nf)->Ok_0.0.0, spec_csc(b, p, nc, nf)->Ok_0.0.1, nf, nc),
        spec_csc(b, p, nc, nf)->Ok_0.0.1.len() <= MAX_REASONABLE_COUNT,
{
    let (nnz, q) = spec_u32(b, p)->Ok_0;
    lemma_colptr_wf(b, q, nnz as int, nf as nat);
}

/// Reads a quantized model file (`path` names it in the errors): the model,
/// or the error of the first section that fails (see [`spec_load`]).
#[verifier::rlimit(80)]
pub fn load_from_reader(b: &[u8], path: &str) -> (r: Result<MomoModel, Error>)
    ensures
        match spec_load(b@) {
            Ok(f) => r matches Ok(m) && m.wf() && spec_model_of(m, f),
            Err(t) => r matches Err(e) && spec_err_is(e, t, path@),
        },
{
    let (h, p1) = match read_header(b, &[0x4Du8, 0x4Fu8, 0x4Du8, 0x4Fu8], path) {
        Ok(x) => x,
        Err(e) => return Err(e),
    };
    let (vocab, p2) = match read_vocab(b, p1, h.has_cat, h.n_features, path) {
        Ok(x) => x,
        Err(e) => return Err(e),
    };
    let (read_classes, p3) = match read_strings(b, p2, h.n_classes as usize, path) {
        Ok(x) => x,
        Err(e) => return Err(e),
    };
    proof {
        lemma_strs_pos(b@, p2 as int, h.n_classes as nat);
    }
    let (read_scale, p4) = match read_u32_vec(b, p3, h.n_classes as usize, path) {
        Ok(x) => x,
        Err(e) => return Err(e),
    };
    let ((colptr, rowind, nnz), p5) = match read_csc_structure(b, p4, h.n_classes, h.n_features, path) {
        Ok(x) => x,
        Err(e) => return Err(e),
    };
    proof {
        lemma_csc_wf(b@, p4 as int, h.n_classes, h.n_features);
    }
    let (data, p6) = match read_i8_vec(b, p5, nnz, path) {
        Ok(x) => x,
        Err(e) => return Err(e),
    };
    let (intercept, p7) = match read_u32_vec(b, p6, h.n_classes as usize, path) {
        Ok(x) => x,
        Err(e) => return Err(e),
    };
    let (boundary, p8) = match parse_int8(b, p7, h.n_features, path) {
        Ok(x) => x,
        Err(e) => return Err(e),
    };
    let is_tree = match &boundary {
        crate::boundary::Boundary::Tree(_) => true,
        _ => false,
    };
    if is_tree && !h.has_cat {
        return Err(corrupt("GBDT 境界モデルですが flags に VOCAB_HAS_CAT が立っていません（統合語彙にカテゴリカル情報がありません）"));
    }
    let (name_table, p9) = match read_dict_table(b, p8, path) {
        Ok(x) => x,
        Err(e) => return Err(e),
    };
    let (single_table, _) = match read_single_table(b, p9, path) {
        Ok(x) => x,
        Err(e) => return Err(e),
    };
    proof {
        assert(spec_table_view(name_table@) =~= spec_entries_view(name_table));
        assert(spec_table_view(single_table@) =~= spec_entries_view(single_table));
    }
    let names = names_from_table(name_table);
    let name_dict = build_name_index(names.as_slice());
    let single = single_char_dict(single_table);
    let m = MomoModel {
        vocab,
        read_classes,
        read_scale,
        csc_colptr: colptr,
        csc_rowind: rowind,
        csc_data: data,
        intercept_read: intercept,
        boundary,
        name_dict,
        single_char_dict: single,
        n_classes: h.n_classes,
        n_features: h.n_features,
    };
    proof {
        let f = spec_load(b@)->Ok_0;
        assert(spec_model_of(m, f));
    }
    Ok(m)
}

/// Reads a quantized model held in memory.
pub fn load_from_bytes(bytes: &[u8]) -> (r: Result<MomoModel, Error>)
    ensures
        match spec_load(bytes@) {
            Ok(f) => r matches Ok(m) && m.wf() && spec_model_of(m, f),
            Err(t) => r matches Err(e) && spec_err_is(e, t, "<memory>"@),
        },
{
    load_from_reader(bytes, "<memory>")
}


// ------------------------------------------------------------
// The float file
// ------------------------------------------------------------

/// What a float model file holds: as a quantized file, with no scale and
/// `f32` weights.
pub struct SpecFloatFile {
    pub header: Header,
    pub vocab: Seq<crate::vocab::SpecSection>,
    pub labels: Seq<Seq<char>>,
    pub colptr: Seq<u32>,
    pub rowind: Seq<u16>,
    pub data: Seq<u32>,
    pub intercept: Seq<u32>,
    pub boundary: SpecBoundary,
    pub names: Seq<TableEntry>,
    pub singles: Seq<TableEntry>,
}

/// A float model file (magic "MBMF"), read section by section.
pub open spec fn spec_load_float(b: Seq<u8>) -> Result<SpecFloatFile, LoadErr> {
    match spec_header(b, spec_magic_mbmf()) {
        Err(e) => Err(e),
        Ok((h, p1)) => match spec_vocab(b, p1, h.has_cat, h.n_features) {
            Err(e) => Err(e),
            Ok((voc, p2)) => match spec_strs(b, p2, h.n_classes as nat) {
                Err(e) => Err(e),
                Ok((labels, p3)) => match spec_csc(b, p3, h.n_classes, h.n_features) {
                    Err(e) => Err(e),
                    Ok(((cp, rows), p4)) => match spec_u32s(b, p4, rows.len() as int) {
                        Err(e) => Err(e),
                        Ok((data, p5)) => match spec_u32s(b, p5, h.n_classes as int) {
                            Err(e) => Err(e),
                            Ok((ic, p6)) => match spec_boundary_float(b, p6, h.n_features) {
                                Err(e) => Err(e),
                                Ok((bd, p7)) => if bd is Tree && !h.has_cat {
                                    Err(LoadErr::Corrupt("GBDT 境界モデルですが flags に VOCAB_HAS_CAT が立っていません（統合語彙にカテゴリカル情報がありません）"@))
                                } else {
                                    match spec_dict_table(b, p7) {
                                        Err(e) => Err(e),
                                        Ok((names, p8)) => match spec_single_table(b, p8) {
                                            Err(e) => Err(e),
                                            Ok((singles, _)) => Ok(
                                                SpecFloatFile {
                                                    header: h,
                                                    vocab: voc,
                                                    labels,
                                                    colptr: cp,
                                                    rowind: rows,
                                                    data,
                                                    intercept: ic,
                                                    boundary: bd,
                                                    names,
                                                    singles,
                                                },
                                            ),
                                        },
                                    }
                                },
                            },
                        },
                    },
                },
            },
        },
    }
}

/// The float model `m` is what the file `f` holds.
pub open spec fn spec_float_model_of(m: FloatMomoModel, f: SpecFloatFile) -> bool {
    &&& m.n_classes == f.header.n_classes
    &&& m.n_features == f.header.n_features
    &&& m.vocab.spec_sections() == f.vocab
    &&& spec_strings_view(m.read_classes) == f.labels
    &&& m.csc_colptr@ == f.colptr
    &&& m.csc_rowind@ == f.rowind
    &&& m.csc_data@ == f.data
    &&& m.intercept_read@ == f.intercept
    &&& spec_float_boundary_view(m.boundary) == f.boundary
    &&& m.name_dict@ == spec_build(spec_names_of(f.names))
    &&& spec_cdict_view(m.single_char_dict@) == spec_sort_by_char(spec_single_entries(f.singles))
}

/// Reads a float model file (`path` names it in the errors).
#[verifier::rlimit(80)]
pub fn load_float_from_reader(b: &[u8], path: &str) -> (r: Result<FloatMomoModel, Error>)
    ensures
        match spec_load_float(b@) {
            Ok(f) => r matches Ok(m) && m.wf() && spec_float_model_of(m, f),
            Err(t) => r matches Err(e) && spec_err_is(e, t, path@),
        },
{
    let (h, p1) = match read_header(b, &[0x4Du8, 0x42u8, 0x4Du8, 0x46u8], path) {
        Ok(x) => x,
        Err(e) => return Err(e),
    };
    let (vocab, p2) = match read_vocab(b, p1, h.has_cat, h.n_features, path) {
        Ok(x) => x,
        Err(e) => return Err(e),
    };
    let (read_classes, p3) = match read_strings(b, p2, h.n_classes as usize, path) {
        Ok(x) => x,
        Err(e) => return Err(e),
    };
    proof {
        lemma_strs_pos(b@, p2 as int, h.n_classes as nat);
    }
    let ((colptr, rowind, nnz), p4) = match read_csc_structure(b, p3, h.n_classes, h.n_features, path) {
        Ok(x) => x,
        Err(e) => return Err(e),
    };
    proof {
        lemma_csc_wf(b@, p3 as int, h.n_classes, h.n_features);
    }
    let (data, p5) = match read_u32_vec(b, p4, nnz, path) {
        Ok(x) => x,
        Err(e) => return Err(e),
    };
    let (intercept, p6) = match read_u32_vec(b, p5, h.n_classes as usize, path) {
        Ok(x) => x,
        Err(e) => return Err(e),
    };
    let (boundary, p7) = match parse_float(b, p6, h.n_features, path) {
        Ok(x) => x,
        Err(e) => return Err(e),
    };
    let is_tree = match &boundary {
        crate::boundary::FloatBoundary::Tree(_) => true,
        _ => false,
    };
    if is_tree && !h.has_cat {
        return Err(corrupt("GBDT 境界モデルですが flags に VOCAB_HAS_CAT が立っていません（統合語彙にカテゴリカル情報がありません）"));
    }
    let (name_table, p8) = match read_dict_table(b, p7, path) {
        Ok(x) => x,
        Err(e) => return Err(e),
    };
    let (single_table, _) = match read_single_table(b, p8, path) {
        Ok(x) => x,
        Err(e) => return Err(e),
    };
    proof {
        assert(spec_table_view(name_table@) =~= spec_entries_view(name_table));
        assert(spec_table_view(single_table@) =~= spec_entries_view(single_table));
    }
    let names = names_from_table(name_table);
    let name_dict = build_name_index(names.as_slice());
    let single = single_char_dict(single_table);
    let m = FloatMomoModel {
        vocab,
        read_classes,
        csc_colptr: colptr,
        csc_rowind: rowind,
        csc_data: data,
        intercept_read: intercept,
        boundary,
        name_dict,
        single_char_dict: single,
        n_classes: h.n_classes,
        n_features: h.n_features,
    };
    proof {
        let f = spec_load_float(b@)->Ok_0;
        assert(spec_float_model_of(m, f));
    }
    Ok(m)
}

} // verus!
