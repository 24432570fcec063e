//! The result of a prediction and the index tables that go with it.

use vstd::prelude::*;

use crate::char_type::{get_char_type, spec_char_type, CharType};
use crate::reading::DecisionSource;
use crate::text::{byte_len, byte_offset, char_width, chars_of, lemma_byte_offset_mono,
    lemma_byte_offset_step, push_char, str_byte_len, utf8_width};

verus! {

/// The reading of a text.
///
/// `kana_to_src_index`, `confidences` and `decision_sources` have one entry
/// per byte of `kana_text`: the byte offset in `source_text` of the unit the
/// byte came from, its confidence (the bits of an `f32`), and why it was
/// chosen. `src_to_kana_index` has one entry per byte of `source_text`: the
/// bytes of the reading that came from it, in order.
#[derive(Debug, Clone)]
pub struct PredictionResult {
    pub source_text: String,
    pub kana_text: String,
    pub confidences: Vec<u32>,
    pub decision_sources: Vec<DecisionSource>,
    pub kana_to_src_index: Vec<usize>,
    pub src_to_kana_index: Vec<Vec<usize>>,
}

impl PredictionResult {
    /// The source text.
    pub fn source_text(&self) -> (s: &str)
        ensures
            s@ == self.source_text@,
    {
        self.source_text.as_str()
    }

    /// The reading.
    pub fn kana_text(&self) -> (s: &str)
        ensures
            s@ == self.kana_text@,
    {
        self.kana_text.as_str()
    }

    /// The confidence of every byte of the reading, as `f32` bits.
    pub fn confidence_bits(&self) -> (s: &[u32])
        ensures
            s@ == self.confidences@,
    {
        self.confidences.as_slice()
    }

    /// Why every byte of the reading was chosen.
    pub fn decision_sources(&self) -> (s: &[DecisionSource])
        ensures
            s@ == self.decision_sources@,
    {
        self.decision_sources.as_slice()
    }

    /// For every byte of the reading, the byte offset of its source unit.
    pub fn kana_to_source(&self) -> (s: &[usize])
        ensures
            s@ == self.kana_to_src_index@,
    {
        self.kana_to_src_index.as_slice()
    }

    /// For every byte of the source, the bytes of the reading it gave.
    pub fn source_to_kana(&self) -> (s: &[Vec<usize>])
        ensures
            s@ == self.src_to_kana_index@,
    {
        self.src_to_kana_index.as_slice()
    }
}

// ------------------------------------------------------------
// Sequences filtered by position
// ------------------------------------------------------------

/// The items of `s` whose mark in `drop` is false, in order.
pub open spec fn spec_filter_by<A>(s: Seq<A>, drop: Seq<bool>) -> Seq<A>
    decreases s.len(),
{
    if s.len() == 0 {
        Seq::empty()
    } else {
        let p = spec_filter_by(s.drop_last(), drop);
        if drop[s.len() - 1] {
            p
        } else {
            p.push(s.last())
        }
    }
}

proof fn lemma_filter_prefix<A>(s: Seq<A>, drop: Seq<bool>, k: int)
    requires
        0 <= k < s.len(),
    ensures
        spec_filter_by(s.take(k + 1), drop) == (if drop[k] {
            spec_filter_by(s.take(k), drop)
        } else {
            spec_filter_by(s.take(k), drop).push(s[k])
        }),
{
    assert(s.take(k + 1).drop_last() =~= s.take(k));
}

/// Filtering keeps the order of an ascending sequence, and keeps only its
/// values.
pub proof fn lemma_filter_sorted(s: Seq<usize>, drop: Seq<bool>)
    ensures
        (forall|a: int, b: int| 0 <= a < b < s.len() ==> #[trigger] s[a] <= #[trigger] s[b]) ==> forall|a: int, b: int|
            0 <= a < b < spec_filter_by(s, drop).len() ==> #[trigger] spec_filter_by(s, drop)[a]
                <= #[trigger] spec_filter_by(s, drop)[b],
        forall|j: int| 0 <= j < spec_filter_by(s, drop).len() ==> s.contains(#[trigger] spec_filter_by(s, drop)[j]),
    decreases s.len(),
{
    if s.len() > 0 {
        let d = s.drop_last();
        lemma_filter_sorted(d, drop);
        let p = spec_filter_by(d, drop);
        let f = spec_filter_by(s, drop);
        assert forall|j: int| 0 <= j < f.len() implies s.contains(#[trigger] f[j]) by {
            if j < p.len() {
                assert(f[j] == p[j]);
                assert(d.contains(p[j]));
                let m = choose|m: int| 0 <= m < d.len() && d[m] == p[j];
                assert(s[m] == d[m]);
            } else {
                assert(f[j] == s.last());
                assert(s[s.len() - 1] == f[j]);
            }
        }
        if forall|a: int, b: int| 0 <= a < b < s.len() ==> #[trigger] s[a] <= #[trigger] s[b] {
            assert forall|a: int, b: int| 0 <= a < b < d.len() implies #[trigger] d[a] <= #[trigger] d[b] by {
                assert(s[a] <= s[b]);
            }
            assert forall|a: int, b: int| 0 <= a < b < f.len() implies #[trigger] f[a] <= #[trigger] f[b] by {
                if b < p.len() {
                    assert(f[a] == p[a] && f[b] == p[b]);
                } else {
                    assert(f[a] == p[a]);
                    assert(d.contains(p[a]));
                    let m = choose|m: int| 0 <= m < d.len() && d[m] == p[a];
                    assert(s[m] <= s[s.len() - 1]);
                }
            }
        }
    }
}

fn filter_by<A: Copy>(s: &Vec<A>, drop: &Vec<bool>) -> (r: Vec<A>)
    requires
        drop@.len() >= s@.len(),
    ensures
        r@ == spec_filter_by(s@, drop@),
{
    let mut r: Vec<A> = Vec::new();
    let mut k: usize = 0;
    while k < s.len()
        invariant
            k <= s@.len(),
            drop@.len() >= s@.len(),
            r@ == spec_filter_by(s@.take(k as int), drop@),
        decreases s@.len() - k,
    {
        proof {
            lemma_filter_prefix(s@, drop@, k as int);
        }
        if !drop[k] {
            r.push(s[k]);
        }
        k = k + 1;
    }
    proof {
        assert(s@.take(s@.len() as int) =~= s@);
    }
    r
}

// ------------------------------------------------------------
// Spaces of the source
// ------------------------------------------------------------

/// Whether `c` is white space (the class `Space`).
pub open spec fn spec_is_space(c: char) -> bool {
    spec_char_type(c as u32) == CharType::Space
}

/// One entry per byte of `text`: true at the first byte of a white-space
/// character.
pub open spec fn spec_space_table(text: Seq<char>) -> Seq<bool>
    decreases text.len(),
{
    if text.len() == 0 {
        Seq::empty()
    } else {
        spec_space_table(text.drop_last()) + seq![spec_is_space(text.last())] + Seq::new(
            (utf8_width(text.last()) - 1) as nat,
            |j: int| false,
        )
    }
}

proof fn lemma_space_table_len(text: Seq<char>)
    ensures
        spec_space_table(text).len() == byte_len(text),
    decreases text.len(),
{
    if text.len() > 0 {
        lemma_space_table_len(text.drop_last());
    }
}

/// The space table of `text`.
pub fn space_table(text: &str) -> (r: Vec<bool>)
    ensures
        r@ == spec_space_table(text@),
        r@.len() == byte_len(text@),
{
    let cs = chars_of(text);
    let mut r: Vec<bool> = Vec::new();
    let mut k: usize = 0;
    while k < cs.len()
        invariant
            cs@ == text@,
            k <= cs@.len(),
            r@ == spec_space_table(cs@.take(k as int)),
        decreases cs@.len() - k,
    {
        let c = cs[k];
        let ghost before = r@;
        r.push(get_char_type(c) == CharType::Space);
        let w = char_width(c);
        let mut t: usize = 1;
        while t < w
            invariant
                1 <= t <= w,
                w <= 4,
                r@ == before + seq![spec_is_space(c)] + Seq::new((t - 1) as nat, |j: int| false),
            decreases w - t,
        {
            r.push(false);
            proof {
                assert(r@ =~= before + seq![spec_is_space(c)] + Seq::new(t as nat, |j: int| false));
            }
            t = t + 1;
        }
        proof {
            assert(cs@.take(k + 1).drop_last() =~= cs@.take(k as int));
            assert(r@ =~= spec_space_table(cs@.take(k + 1)));
        }
        k = k + 1;
    }
    proof {
        assert(cs@.take(cs@.len() as int) =~= cs@);
        lemma_space_table_len(text@);
    }
    r
}

/// Whether byte `x` of the source starts a white-space character.
pub open spec fn spec_src_space(tab: Seq<bool>, x: int) -> bool {
    0 <= x < tab.len() && tab[x]
}

// ------------------------------------------------------------
// Trailing boundary spaces
// ------------------------------------------------------------

/// Start of the run of white space that ends the reading `k` at character
/// `c`.
pub open spec fn spec_trail_start(k: Seq<char>, c: int) -> int
    decreases c,
{
    if c > 0 && c <= k.len() && spec_is_space(k[c - 1]) {
        spec_trail_start(k, c - 1)
    } else {
        c
    }
}

/// Character `c` of the reading `k` is a boundary space at its end: white
/// space in the final run whose source byte is no white space.
pub open spec fn spec_cut(k: Seq<char>, srcs: Seq<usize>, tab: Seq<bool>, c: int) -> bool {
    spec_trail_start(k, k.len() as int) <= c < k.len() && !spec_src_space(
        tab,
        srcs[byte_len(k.take(c)) as int] as int,
    )
}

/// One mark per character of the reading: cut or kept.
pub open spec fn spec_char_cuts(k: Seq<char>, srcs: Seq<usize>, tab: Seq<bool>) -> Seq<bool> {
    Seq::new(k.len(), |c: int| spec_cut(k, srcs, tab, c))
}

/// One mark per byte of the reading (over its first `m` characters): every
/// byte of a cut character is marked.
pub open spec fn spec_byte_cuts(k: Seq<char>, srcs: Seq<usize>, tab: Seq<bool>, m: int) -> Seq<bool>
    decreases m,
{
    if m <= 0 {
        Seq::empty()
    } else {
        spec_byte_cuts(k, srcs, tab, m - 1) + Seq::new(utf8_width(k[m - 1]), |j: int| spec_cut(k, srcs, tab, m - 1))
    }
}

/// Number of the first `n` marks of `d` that keep their item.
pub open spec fn spec_kept(d: Seq<bool>, n: int) -> nat
    decreases n,
{
    if n <= 0 {
        0
    } else {
        spec_kept(d, n - 1) + (if d[n - 1] { 0nat } else { 1nat })
    }
}

proof fn lemma_filter_len<A>(s: Seq<A>, d: Seq<bool>, n: int)
    requires
        0 <= n <= s.len(),
    ensures
        spec_filter_by(s.take(n), d).len() == spec_kept(d, n),
    decreases n,
{
    if n > 0 {
        lemma_filter_len(s, d, n - 1);
        lemma_filter_prefix(s, d, n - 1);
    }
}

proof fn lemma_kept_block(d: Seq<bool>, n: int, w: int, flag: bool)
    requires
        0 <= n,
        0 <= w,
        forall|j: int| n <= j < n + w ==> d[j] == flag,
    ensures
        spec_kept(d, n + w) == spec_kept(d, n) + (if flag { 0 } else { w }),
    decreases w,
{
    if w > 0 {
        lemma_kept_block(d, n, w - 1, flag);
    }
}

/// The marks of the first `m` characters stay as they are when more
/// characters are marked.
proof fn lemma_byte_cuts_stable(k: Seq<char>, srcs: Seq<usize>, tab: Seq<bool>, m: int, n: int)
    requires
        0 <= m <= n <= k.len(),
    ensures
        spec_byte_cuts(k, srcs, tab, n).len() == byte_len(k.take(n)),
        forall|i: int| 0 <= i < byte_len(k.take(m)) ==> spec_byte_cuts(k, srcs, tab, n)[i] == spec_byte_cuts(k, srcs, tab, m)[i],
    decreases n - m,
{
    lemma_byte_cuts_len(k, srcs, tab, n);
    if n > m {
        lemma_byte_cuts_stable(k, srcs, tab, m, n - 1);
        lemma_byte_cuts_len(k, srcs, tab, n - 1);
        lemma_byte_offset_mono(k, m, n - 1);
    }
}

/// The trimmed tables keep one entry per byte of the trimmed reading.
proof fn lemma_trim_lens(k: Seq<char>, srcs: Seq<usize>, tab: Seq<bool>, m: int)
    requires
        0 <= m <= k.len(),
    ensures
        spec_kept(spec_byte_cuts(k, srcs, tab, k.len() as int), byte_len(k.take(m)) as int) == byte_len(
            spec_filter_by(k.take(m), spec_char_cuts(k, srcs, tab)),
        ),
    decreases m,
{
    let bc = spec_byte_cuts(k, srcs, tab, k.len() as int);
    let cc = spec_char_cuts(k, srcs, tab);
    if m == 0 {
        assert(k.take(0) =~= Seq::<char>::empty());
    } else {
        lemma_trim_lens(k, srcs, tab, m - 1);
        lemma_byte_offset_step(k, m - 1);
        lemma_byte_cuts_stable(k, srcs, tab, m, k.len() as int);
        lemma_byte_cuts_len(k, srcs, tab, m - 1);
        let lo = byte_len(k.take(m - 1)) as int;
        let w = utf8_width(k[m - 1]) as int;
        let cut = spec_cut(k, srcs, tab, m - 1);
        assert forall|j: int| lo <= j < lo + w implies bc[j] == cut by {
            assert(spec_byte_cuts(k, srcs, tab, m)[j] == cut);
        }
        lemma_kept_block(bc, lo, w, cut);
        lemma_filter_prefix(k, cc, m - 1);
        let p = spec_filter_by(k.take(m - 1), cc);
        if !cut {
            assert(p.push(k[m - 1]).drop_last() =~= p);
        }
    }
}


proof fn lemma_byte_cuts_len(k: Seq<char>, srcs: Seq<usize>, tab: Seq<bool>, m: int)
    requires
        0 <= m <= k.len(),
    ensures
        spec_byte_cuts(k, srcs, tab, m).len() == byte_len(k.take(m)),
    decreases m,
{
    if m > 0 {
        lemma_byte_cuts_len(k, srcs, tab, m - 1);
        assert(k.take(m).drop_last() =~= k.take(m - 1));
    }
}

/// The reading with the boundary spaces at its end taken off (the white
/// space of the source stays), and its per-byte tables.
pub open spec fn spec_trim(k: Seq<char>, srcs: Seq<usize>, confs: Seq<u32>, decs: Seq<DecisionSource>, tab: Seq<bool>) -> (Seq<char>, Seq<usize>, Seq<u32>, Seq<DecisionSource>) {
    let bc = spec_byte_cuts(k, srcs, tab, k.len() as int);
    (
        spec_filter_by(k, spec_char_cuts(k, srcs, tab)),
        spec_filter_by(srcs, bc),
        spec_filter_by(confs, bc),
        spec_filter_by(decs, bc),
    )
}

/// Number of the characters of the final white-space run of `k`, before
/// character `m`, whose source byte starts white space of the source.
pub open spec fn spec_trail_source_spaces(k: Seq<char>, srcs: Seq<usize>, tab: Seq<bool>, m: int) -> nat
    decreases m,
{
    if m <= spec_trail_start(k, k.len() as int) || m <= 0 {
        0
    } else {
        spec_trail_source_spaces(k, srcs, tab, m - 1) + (if spec_src_space(
            tab,
            srcs[byte_len(k.take(m - 1)) as int] as int,
        ) {
            1nat
        } else {
            0nat
        })
    }
}

proof fn lemma_trail_start(k: Seq<char>, c: int)
    requires
        0 <= c <= k.len(),
    ensures
        0 <= spec_trail_start(k, c) <= c,
        forall|j: int| spec_trail_start(k, c) <= j < c ==> spec_is_space(#[trigger] k[j]),
    decreases c,
{
    if c > 0 && spec_is_space(k[c - 1]) {
        lemma_trail_start(k, c - 1);
    }
}

proof fn lemma_trim_prefix(k: Seq<char>, srcs: Seq<usize>, tab: Seq<bool>, m: int)
    requires
        0 <= m <= k.len(),
    ensures
        ({
            let tt = spec_trail_start(k, k.len() as int);
            let f = spec_filter_by(k.take(m), spec_char_cuts(k, srcs, tab));
            &&& m <= tt ==> f == k.take(m)
            &&& m > tt ==> {
                &&& f.len() == tt + spec_trail_source_spaces(k, srcs, tab, m)
                &&& f.take(tt) == k.take(tt)
                &&& forall|i: int| tt <= i < f.len() ==> spec_is_space(#[trigger] f[i])
            }
        }),
    decreases m,
{
    let tt = spec_trail_start(k, k.len() as int);
    lemma_trail_start(k, k.len() as int);
    let cuts = spec_char_cuts(k, srcs, tab);
    let f = spec_filter_by(k.take(m), cuts);
    if m > 0 {
        lemma_trim_prefix(k, srcs, tab, m - 1);
        assert(k.take(m).drop_last() =~= k.take(m - 1));
        let p = spec_filter_by(k.take(m - 1), cuts);
        assert(f == (if cuts[m - 1] { p } else { p.push(k[m - 1]) }));
        if m <= tt {
            assert(!cuts[m - 1]);
            assert(f =~= k.take(m));
        } else {
            assert(spec_is_space(k[m - 1]));
            assert(cuts[m - 1] == !spec_src_space(tab, srcs[byte_len(k.take(m - 1)) as int] as int));
            if m - 1 == tt {
                assert(p == k.take(tt));
                assert(spec_trail_source_spaces(k, srcs, tab, m - 1) == 0);
            }
            assert(f.take(tt) =~= k.take(tt)) by {
                if !cuts[m - 1] {
                    assert(p.push(k[m - 1]).take(tt) =~= p.take(tt));
                    if m - 1 == tt {
                        assert(p.take(tt) =~= p);
                    }
                } else if m - 1 == tt {
                    assert(p.take(tt) =~= p);
                }
            }
            assert forall|i: int| tt <= i < f.len() implies spec_is_space(#[trigger] f[i]) by {
                if !cuts[m - 1] && i == f.len() - 1 {
                    assert(f[i] == k[m - 1]);
                } else {
                    assert(f[i] == p[i]);
                }
            }
        }
    } else {
        assert(f =~= k.take(0));
    }
}

/// The trailing white space of a trimmed reading is the source's: trimming
/// keeps the reading up to its final run of white space as it is, and of
/// that run keeps exactly the characters that come from white space of
/// the source, however many boundary spaces the run held.
pub proof fn lemma_trim_keeps_source_spaces(
    k: Seq<char>,
    srcs: Seq<usize>,
    confs: Seq<u32>,
    decs: Seq<DecisionSource>,
    tab: Seq<bool>,
)
    ensures
        ({
            let t = spec_trim(k, srcs, confs, decs, tab).0;
            let tt = spec_trail_start(k, k.len() as int);
            &&& tt <= t.len()
            &&& t.take(tt) == k.take(tt)
            &&& t.len() == tt + spec_trail_source_spaces(k, srcs, tab, k.len() as int)
            &&& forall|i: int| tt <= i < t.len() ==> spec_is_space(#[trigger] t[i])
        }),
{
    lemma_trim_prefix(k, srcs, tab, k.len() as int);
    lemma_trail_start(k, k.len() as int);
    assert(k.take(k.len() as int) =~= k);
    let tt = spec_trail_start(k, k.len() as int);
    if k.len() as int == tt {
        assert(spec_trail_source_spaces(k, srcs, tab, k.len() as int) == 0);
        assert(k.take(tt) =~= k);
    }
}

/// Filtering over a block of `w` items that share one mark drops the whole
/// block or keeps it whole.
proof fn lemma_filter_block<A>(s: Seq<A>, d: Seq<bool>, n: int, w: int, flag: bool)
    requires
        0 <= n,
        0 <= w,
        n + w <= s.len(),
        forall|j: int| n <= j < n + w ==> d[j] == flag,
    ensures
        spec_filter_by(s.take(n + w), d) == (if flag {
            spec_filter_by(s.take(n), d)
        } else {
            spec_filter_by(s.take(n), d) + s.subrange(n, n + w)
        }),
    decreases w,
{
    if w > 0 {
        lemma_filter_block(s, d, n, w - 1, flag);
        lemma_filter_prefix(s, d, n + w - 1);
        let p = spec_filter_by(s.take(n), d);
        if !flag {
            assert((p + s.subrange(n, n + w - 1)).push(s[n + w - 1]) =~= p + s.subrange(n, n + w));
        }
    } else {
        assert(s.subrange(n, n) =~= Seq::<A>::empty());
        assert(spec_filter_by(s.take(n), d) + Seq::<A>::empty() =~= spec_filter_by(s.take(n), d));
    }
}

/// A character that starts before the end of `s` starts before its last
/// byte.
proof fn lemma_offset_before_end(s: Seq<char>, i: int)
    requires
        0 <= i < s.len(),
    ensures
        byte_offset(s, i) < byte_len(s),
{
    lemma_byte_offset_step(s, i);
    lemma_byte_offset_mono(s, i + 1, s.len() as int);
    assert(s.take(s.len() as int) =~= s);
}

proof fn lemma_trim_srcs_prefix(k: Seq<char>, srcs: Seq<usize>, tab: Seq<bool>, m: int)
    requires
        0 <= m <= k.len(),
        srcs.len() == byte_len(k),
    ensures
        ({
            let tt = spec_trail_start(k, k.len() as int);
            let f = spec_filter_by(k.take(m), spec_char_cuts(k, srcs, tab));
            let b = spec_filter_by(
                srcs.take(byte_len(k.take(m)) as int),
                spec_byte_cuts(k, srcs, tab, k.len() as int),
            );
            &&& b.len() == byte_len(f)
            &&& forall|i: int|
                tt <= i < f.len() ==> spec_src_space(tab, #[trigger] b[byte_len(f.take(i)) as int] as int)
        }),
    decreases m,
{
    let tt = spec_trail_start(k, k.len() as int);
    let cc = spec_char_cuts(k, srcs, tab);
    let bc = spec_byte_cuts(k, srcs, tab, k.len() as int);
    let f = spec_filter_by(k.take(m), cc);
    let b = spec_filter_by(srcs.take(byte_len(k.take(m)) as int), bc);
    lemma_trail_start(k, k.len() as int);
    if m == 0 {
        assert(k.take(0) =~= Seq::<char>::empty());
        assert(srcs.take(0) =~= Seq::<usize>::empty());
        assert(f.len() == 0);
        assert(b.len() == 0);
    } else {
        lemma_trim_srcs_prefix(k, srcs, tab, m - 1);
        lemma_trim_prefix(k, srcs, tab, m - 1);
        let f0 = spec_filter_by(k.take(m - 1), cc);
        let lo = byte_len(k.take(m - 1)) as int;
        let b0 = spec_filter_by(srcs.take(lo), bc);
        let w = utf8_width(k[m - 1]) as int;
        let cut = spec_cut(k, srcs, tab, m - 1);
        lemma_byte_offset_step(k, m - 1);
        lemma_byte_offset_mono(k, m, k.len() as int);
        assert(k.take(k.len() as int) =~= k);
        lemma_byte_cuts_stable(k, srcs, tab, m, k.len() as int);
        lemma_byte_cuts_len(k, srcs, tab, m - 1);
        assert forall|j: int| lo <= j < lo + w implies bc[j] == cut by {
            assert(spec_byte_cuts(k, srcs, tab, m)[j] == cut);
        }
        lemma_filter_block(srcs, bc, lo, w, cut);
        lemma_filter_prefix(k, cc, m - 1);
        if !cut {
            assert(f == f0.push(k[m - 1]));
            assert(f.drop_last() =~= f0);
            assert(b == b0 + srcs.subrange(lo, lo + w));
            assert forall|i: int| tt <= i < f.len() implies spec_src_space(
                tab,
                #[trigger] b[byte_len(f.take(i)) as int] as int,
            ) by {
                if i < f0.len() {
                    assert(f.take(i) =~= f0.take(i));
                    lemma_offset_before_end(f0, i);
                    assert(b[byte_len(f.take(i)) as int] == b0[byte_len(f0.take(i)) as int]);
                } else {
                    assert(f.take(i) =~= f0);
                    assert(b[byte_len(f0) as int] == srcs[lo]);
                    assert(m - 1 >= tt);
                }
            }
        } else {
            assert(f == f0);
            assert(b == b0);
            assert forall|i: int| tt <= i < f.len() implies spec_src_space(
                tab,
                #[trigger] b[byte_len(f.take(i)) as int] as int,
            ) by {
                assert(b0[byte_len(f0.take(i)) as int] == b[byte_len(f.take(i)) as int]);
            }
        }
    }
}

/// Every white-space character that ends a trimmed reading comes from white
/// space of the source: the source byte recorded for its first byte starts
/// a white-space character of the source.
pub proof fn lemma_trim_trailing_from_source(
    k: Seq<char>,
    srcs: Seq<usize>,
    confs: Seq<u32>,
    decs: Seq<DecisionSource>,
    tab: Seq<bool>,
)
    requires
        srcs.len() == byte_len(k),
    ensures
        ({
            let t = spec_trim(k, srcs, confs, decs, tab);
            let tt = spec_trail_start(k, k.len() as int);
            &&& t.1.len() == byte_len(t.0)
            &&& forall|i: int|
                tt <= i < t.0.len() ==> spec_is_space(#[trigger] t.0[i]) && spec_src_space(
                    tab,
                    t.1[byte_len(t.0.take(i)) as int] as int,
                )
        }),
{
    lemma_trim_srcs_prefix(k, srcs, tab, k.len() as int);
    lemma_trim_keeps_source_spaces(k, srcs, confs, decs, tab);
    assert(k.take(k.len() as int) =~= k);
    assert(srcs.take(byte_len(k) as int) =~= srcs);
}

fn trail_start(k: &Vec<char>) -> (t: usize)
    ensures
        t == spec_trail_start(k@, k@.len() as int),
        t <= k@.len(),
{
    let mut c = k.len();
    while c > 0 && get_char_type(k[c - 1]) == CharType::Space
        invariant
            c <= k@.len(),
            spec_trail_start(k@, k@.len() as int) == spec_trail_start(k@, c as int),
        decreases c,
    {
        c = c - 1;
    }
    c
}

/// Takes the boundary spaces off the end of a reading given as its
/// characters and per-byte tables (see [`spec_trim`]).
pub fn trim_boundary_spaces_of(kana: Vec<char>, srcs: Vec<usize>, confs: Vec<u32>, decs: Vec<DecisionSource>, tab: &Vec<bool>) -> (r: (Vec<char>, Vec<usize>, Vec<u32>, Vec<DecisionSource>))
    requires
        srcs@.len() == byte_len(kana@),
        confs@.len() == srcs@.len(),
        decs@.len() == srcs@.len(),
    ensures
        (r.0@, r.1@, r.2@, r.3@) == spec_trim(kana@, srcs@, confs@, decs@, tab@),
        r.1@.len() == byte_len(r.0@),
        r.2@.len() == r.1@.len(),
        r.3@.len() == r.1@.len(),
{
    let t = trail_start(&kana);
    let mut char_cut: Vec<bool> = Vec::new();
    let mut byte_cut: Vec<bool> = Vec::new();
    let mut c: usize = 0;
    let mut b: usize = 0;
    let ghost k = kana@;
    let n_bytes = srcs.len();
    while c < kana.len()
        invariant
            k == kana@,
            n_bytes == srcs@.len(),
            srcs@.len() == byte_len(k),
            c <= k.len(),
            t == spec_trail_start(k, k.len() as int),
            b == byte_offset(k, c as int),
            char_cut@ == spec_char_cuts(k, srcs@, tab@).take(c as int),
            byte_cut@ == spec_byte_cuts(k, srcs@, tab@, c as int),
        decreases k.len() - c,
    {
        proof {
            lemma_byte_offset_step(k, c as int);
            lemma_byte_offset_mono(k, c + 1, k.len() as int);
            assert(k.take(k.len() as int) =~= k);
        }
        let cut = if c >= t {
            let x = srcs[b];
            !(x < tab.len() && tab[x])
        } else {
            false
        };
        proof {
            assert(cut == spec_cut(k, srcs@, tab@, c as int));
        }
        char_cut.push(cut);
        let w = char_width(kana[c]);
        let ghost before = byte_cut@;
        let mut j: usize = 0;
        while j < w
            invariant
                0 <= j <= w,
                w <= 4,
                byte_cut@ == before + Seq::new(j as nat, |q: int| cut),
            decreases w - j,
        {
            byte_cut.push(cut);
            proof {
                assert(byte_cut@ =~= before + Seq::new((j + 1) as nat, |q: int| cut));
            }
            j = j + 1;
        }
        proof {
            assert(char_cut@ =~= spec_char_cuts(k, srcs@, tab@).take(c + 1));
            assert(byte_cut@ =~= spec_byte_cuts(k, srcs@, tab@, c + 1));
        }
        b = b + w;
        c = c + 1;
    }
    proof {
        assert(char_cut@ =~= spec_char_cuts(k, srcs@, tab@));
        lemma_byte_cuts_len(k, srcs@, tab@, k.len() as int);
        assert(k.take(k.len() as int) =~= k);
    }
    let k2 = filter_by(&kana, &char_cut);
    let s2 = filter_by(&srcs, &byte_cut);
    let c2 = filter_by(&confs, &byte_cut);
    let d2 = filter_by(&decs, &byte_cut);
    proof {
        lemma_trim_lens(k, srcs@, tab@, k.len() as int);
        lemma_filter_len(srcs@, byte_cut@, srcs@.len() as int);
        lemma_filter_len(confs@, byte_cut@, confs@.len() as int);
        lemma_filter_len(decs@, byte_cut@, decs@.len() as int);
        assert(srcs@.take(srcs@.len() as int) =~= srcs@);
        assert(confs@.take(confs@.len() as int) =~= confs@);
        assert(decs@.take(decs@.len() as int) =~= decs@);
    }
    (k2, s2, c2, d2)
}


/// Byte `x` starts a character of `s`, or is its end.
pub open spec fn spec_is_char_start(s: Seq<char>, x: int) -> bool {
    exists|c: int| 0 <= c <= s.len() && byte_offset(s, c) == x
}

/// Takes the boundary spaces off the end of the reading of `result`: the
/// white space at its end that does not come from white space of `text`,
/// the source its indices refer to. The table from source to reading is
/// left as it was.
pub fn trim_trailing_boundary_spaces(result: &mut PredictionResult, text: &str)
    requires
        old(result).kana_to_src_index@.len() == byte_len(old(result).kana_text@),
        old(result).confidences@.len() == old(result).kana_to_src_index@.len(),
        old(result).decision_sources@.len() == old(result).kana_to_src_index@.len(),
        forall|i: int|
            0 <= i < old(result).kana_to_src_index@.len() ==> spec_is_char_start(
                text@,
                #[trigger] old(result).kana_to_src_index@[i] as int,
            ),
    ensures
        ({
            let t = spec_trim(
                old(result).kana_text@,
                old(result).kana_to_src_index@,
                old(result).confidences@,
                old(result).decision_sources@,
                spec_space_table(text@),
            );
            &&& final(result).kana_text@ == t.0
            &&& final(result).kana_to_src_index@ == t.1
            &&& final(result).confidences@ == t.2
            &&& final(result).decision_sources@ == t.3
        }),
        final(result).source_text@ == old(result).source_text@,
        final(result).src_to_kana_index@ == old(result).src_to_kana_index@,
{
    let tab = space_table(text);
    let kana = chars_of(result.kana_text.as_str());
    let srcs = result.kana_to_src_index.clone();
    let confs = result.confidences.clone();
    let decs = result.decision_sources.clone();
    proof {
        assert(srcs@ =~= result.kana_to_src_index@);
        assert(confs@ =~= result.confidences@);
        assert(decs@ =~= result.decision_sources@);
    }
    let (k2, s2, c2, d2) = trim_boundary_spaces_of(kana, srcs, confs, decs, &tab);
    result.kana_text = string_of_chars(&k2);
    result.kana_to_src_index = s2;
    result.confidences = c2;
    result.decision_sources = d2;
}

// ------------------------------------------------------------
// From source bytes to reading bytes
// ------------------------------------------------------------

/// For every source byte below `len`, the reading bytes (of `srcs`) that
/// point at it, in order.
pub open spec fn spec_inverse(srcs: Seq<usize>, len: nat) -> Seq<Seq<usize>>
    decreases srcs.len(),
{
    if srcs.len() == 0 {
        Seq::new(len, |b: int| Seq::<usize>::empty())
    } else {
        let p = spec_inverse(srcs.drop_last(), len);
        let j = (srcs.len() - 1) as usize;
        let s = srcs.last();
        if (s as int) < len {
            p.update(s as int, p[s as int].push(j))
        } else {
            p
        }
    }
}

/// The inverse table has one entry per source byte.
pub proof fn lemma_inverse_len(srcs: Seq<usize>, len: nat)
    ensures
        spec_inverse(srcs, len).len() == len,
    decreases srcs.len(),
{
    if srcs.len() > 0 {
        lemma_inverse_len(srcs.drop_last(), len);
    }
}

/// Reading byte `j` is listed under source byte `b` exactly when it points
/// at `b`.
pub proof fn lemma_inverse_contains(srcs: Seq<usize>, len: nat, b: int, j: usize)
    requires
        srcs.len() <= usize::MAX,
        0 <= b < len,
    ensures
        spec_inverse(srcs, len)[b].contains(j) <==> (j < srcs.len() && srcs[j as int] == b),
    decreases srcs.len(),
{
    lemma_inverse_len(srcs, len);
    if srcs.len() > 0 {
        let d = srcs.drop_last();
        lemma_inverse_contains(d, len, b, j);
        lemma_inverse_len(d, len);
        let p = spec_inverse(d, len);
        let n1 = (srcs.len() - 1) as usize;
        if (srcs.last() as int) < len && srcs.last() as int == b {
            let q = p[b].push(n1);
            assert(spec_inverse(srcs, len)[b] == q);
            if q.contains(j) {
                let m = choose|m: int| 0 <= m < q.len() && q[m] == j;
                if m < p[b].len() {
                    assert(p[b][m] == j);
                }
            }
            if p[b].contains(j) {
                let m = choose|m: int| 0 <= m < p[b].len() && p[b][m] == j;
                assert(q[m] == j);
            }
            if j == n1 {
                assert(q[p[b].len() as int] == j);
            }
        } else {
            if (srcs.last() as int) < len {
                assert(spec_inverse(srcs, len)[b] == p[b]);
            }
        }
    } else {
        assert(spec_inverse(srcs, len)[b] =~= Seq::<usize>::empty());
    }
}

/// Every list of the inverse table is strictly ascending, and lists only
/// reading bytes.
pub proof fn lemma_inverse_ascending(srcs: Seq<usize>, len: nat, b: int)
    requires
        srcs.len() <= usize::MAX,
        0 <= b < len,
    ensures
        forall|m: int| 0 <= m < spec_inverse(srcs, len)[b].len() ==> (#[trigger] spec_inverse(srcs, len)[b][m]) < srcs.len(),
        forall|m1: int, m2: int|
            0 <= m1 < m2 < spec_inverse(srcs, len)[b].len() ==> #[trigger] spec_inverse(srcs, len)[b][m1]
                < #[trigger] spec_inverse(srcs, len)[b][m2],
    decreases srcs.len(),
{
    lemma_inverse_len(srcs, len);
    if srcs.len() == 0 {
        assert(spec_inverse(srcs, len)[b] =~= Seq::<usize>::empty());
    } else {
        let d = srcs.drop_last();
        lemma_inverse_ascending(d, len, b);
        lemma_inverse_len(d, len);
        let p = spec_inverse(d, len);
        let n1 = (srcs.len() - 1) as usize;
        if (srcs.last() as int) < len && srcs.last() as int == b {
            let q = p[b].push(n1);
            assert(spec_inverse(srcs, len)[b] == q);
            assert forall|m: int| 0 <= m < q.len() implies (#[trigger] q[m]) < srcs.len() by {
                if m < p[b].len() {
                    assert(q[m] == p[b][m]);
                }
            }
            assert forall|m1: int, m2: int| 0 <= m1 < m2 < q.len() implies #[trigger] q[m1] < #[trigger] q[m2] by {
                assert(q[m1] == p[b][m1]);
                if m2 < p[b].len() {
                    assert(q[m2] == p[b][m2]);
                }
            }
        } else {
            if (srcs.last() as int) < len {
                assert(spec_inverse(srcs, len)[b] == p[b]);
            }
        }
    }
}

/// The table from source bytes to reading bytes (see [`spec_inverse`]).
pub fn invert_index(srcs: &Vec<usize>, len: usize) -> (r: Vec<Vec<usize>>)
    ensures
        r@.len() == len,
        r@.map_values(|v: Vec<usize>| v@) == spec_inverse(srcs@, len as nat),
{
    let mut r: Vec<Vec<usize>> = Vec::new();
    let mut b: usize = 0;
    while b < len
        invariant
            b <= len,
            r@.len() == b,
            forall|q: int| 0 <= q < b ==> (#[trigger] r@[q])@ == Seq::<usize>::empty(),
        decreases len - b,
    {
        r.push(Vec::new());
        b = b + 1;
    }
    proof {
        assert(r@.map_values(|v: Vec<usize>| v@) =~= spec_inverse(srcs@.take(0), len as nat));
    }
    let mut j: usize = 0;
    while j < srcs.len()
        invariant
            j <= srcs@.len(),
            r@.len() == len,
            r@.map_values(|v: Vec<usize>| v@) == spec_inverse(srcs@.take(j as int), len as nat),
        decreases srcs@.len() - j,
    {
        let s = srcs[j];
        let ghost before = r@.map_values(|v: Vec<usize>| v@);
        proof {
            assert(srcs@.take(j + 1).drop_last() =~= srcs@.take(j as int));
            assert(srcs@.take(j + 1).last() == s);
        }
        if s < len {
            let mut v = r[s].clone();
            proof {
                assert(v@ == before[s as int]);
            }
            v.push(j);
            r.set(s, v);
            proof {
                assert(r@.map_values(|v: Vec<usize>| v@) =~= before.update(s as int, before[s as int].push(j)));
            }
        }
        j = j + 1;
    }
    proof {
        assert(srcs@.take(srcs@.len() as int) =~= srcs@);
    }
    r
}

/// A string of the characters `cs`.
pub fn string_of_chars(cs: &Vec<char>) -> (s: String)
    ensures
        s@ == cs@,
{
    let mut s = String::new();
    let mut k: usize = 0;
    while k < cs.len()
        invariant
            k <= cs@.len(),
            s@ == cs@.take(k as int),
        decreases cs@.len() - k,
    {
        push_char(&mut s, cs[k]);
        proof {
            assert(s@ =~= cs@.take(k + 1));
        }
        k = k + 1;
    }
    proof {
        assert(cs@.take(cs@.len() as int) =~= cs@);
    }
    s
}

} // verus!
