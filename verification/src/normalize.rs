//! Normalisation of the input text.
//!
//! Radicals and compatibility ideographs look like ordinary kanji but live at
//! other code points, where the character classes would not see a kanji; they
//! are folded to the unified ideograph (one character to one). Latin
//! ligatures (ﬃ → ffi) are expanded (one character to several). Since the
//! text then shifts, [`normalize_input`] also says, for each byte of its
//! output, at which byte of the input the character it came from starts.

use vstd::prelude::*;

use crate::text::{utf8_width, byte_len, byte_offset, chars_of, char_width, lemma_byte_len_concat,
    lemma_byte_offset_mono, lemma_byte_offset_step, push_char, str_byte_len};

pub mod table;

use table::{expand_lookup, normalize_lookup, spec_expand, spec_fold};

verus! {

/// `c` with compatibility ideographs folded.
pub open spec fn spec_fold_char(c: char) -> char {
    match spec_fold(c as u32) {
        Some(m) => m,
        None => c,
    }
}

/// The text `s` with compatibility ideographs folded, character for
/// character.
pub open spec fn spec_fold_text(s: Seq<char>) -> Seq<char> {
    s.map_values(|c: char| spec_fold_char(c))
}

/// What one input character becomes: its expansion, or itself folded.
pub open spec fn spec_piece(c: char) -> Seq<char> {
    match spec_expand(c as u32) {
        Some(e) => e,
        None => seq![spec_fold_char(c)],
    }
}

/// Whether normalisation changes `c`.
pub open spec fn spec_alters(c: char) -> bool {
    spec_expand(c as u32) is Some || spec_fold(c as u32) is Some
}

/// The normalised text: the pieces of the characters of `s`, in order.
pub open spec fn spec_normalized(s: Seq<char>) -> Seq<char>
    decreases s.len(),
{
    if s.len() == 0 {
        Seq::empty()
    } else {
        spec_normalized(s.drop_last()) + spec_piece(s.last())
    }
}

/// For each byte of the normalised text, the byte offset in `s` of the
/// character it came from.
pub open spec fn spec_byte_map(s: Seq<char>) -> Seq<usize>
    decreases s.len(),
{
    if s.len() == 0 {
        Seq::empty()
    } else {
        spec_byte_map(s.drop_last()) + Seq::new(
            byte_len(spec_piece(s.last())),
            |j: int| byte_len(s.drop_last()) as usize,
        )
    }
}

/// The result of [`normalize_input`].
pub struct NormalizedText {
    /// The normalised text.
    pub text: String,
    /// For each byte of `text`, the byte offset in the input of the
    /// character it came from; `None` when nothing changed.
    pub byte_map: Option<Vec<usize>>,
}

/// Folds the compatibility ideographs of `text` to unified ideographs (one
/// character to one; ligatures are left alone).
pub fn normalize_compat_ideographs(text: &str) -> (r: String)
    ensures
        r@ == spec_fold_text(text@),
{
    let cs = chars_of(text);
    let mut out = String::new();
    let mut i: usize = 0;
    while i < cs.len()
        invariant
            cs@ == text@,
            i <= cs@.len(),
            out@ == spec_fold_text(cs@.take(i as int)),
        decreases cs@.len() - i,
    {
        let c = cs[i];
        let m = match normalize_lookup(c as u32) {
            Some(m) => m,
            None => c,
        };
        push_char(&mut out, m);
        proof {
            assert(spec_fold_text(cs@.take(i + 1)) =~= spec_fold_text(cs@.take(i as int)).push(m));
        }
        i = i + 1;
    }
    proof {
        assert(cs@.take(cs@.len() as int) =~= cs@);
    }
    out
}

/// Normalises `text` (folding and ligature expansion, see
/// [`spec_normalized`]); the byte map is given when anything changed.
pub fn normalize_input(text: &str) -> (r: NormalizedText)
    ensures
        r.text@ == spec_normalized(text@),
        (exists|k: int| 0 <= k < text@.len() && spec_alters(#[trigger] text@[k])) ==> (
        r.byte_map matches Some(m) && m@ == spec_byte_map(text@)),
        (forall|k: int| 0 <= k < text@.len() ==> !spec_alters(#[trigger] text@[k]))
            ==> r.byte_map is None,
{
    let ghost s = text@;
    let total = str_byte_len(text);
    let cs = chars_of(text);
    let mut out = String::new();
    let mut map: Vec<usize> = Vec::new();
    let mut changed = false;
    let mut src_byte: usize = 0;
    let mut i: usize = 0;
    while i < cs.len()
        invariant
            cs@ == s,
            i <= s.len(),
            total == byte_len(s),
            src_byte == byte_offset(s, i as int),
            out@ == spec_normalized(s.take(i as int)),
            map@ == spec_byte_map(s.take(i as int)),
            changed == (exists|k: int| 0 <= k < i && spec_alters(#[trigger] s[k])),
        decreases s.len() - i,
    {
        let c = cs[i];
        proof {
            lemma_byte_offset_step(s, i as int);
            lemma_byte_offset_mono(s, i as int + 1, s.len() as int);
            assert(s.take(i + 1).drop_last() =~= s.take(i as int));
            assert(s.take(i + 1).last() == c);
        }
        let ghost before = out@;
        let ghost map_before = map@;
        let mut pushed: usize = 0;
        match expand_lookup(c as u32) {
            Some(expanded) => {
                changed = true;
                let es = chars_of(expanded);
                let mut k: usize = 0;
                while k < es.len()
                    invariant
                        es@ == spec_piece(c),
                        k <= es@.len(),
                        out@ == before + es@.take(k as int),
                        pushed == byte_len(es@.take(k as int)),
                        map@ == map_before + Seq::new(pushed as nat, |j: int| src_byte),
                        src_byte == byte_offset(s, i as int),
                        es@.len() <= 3,
                        pushed <= 4 * k,
                    decreases es@.len() - k,
                {
                    let e = es[k];
                    push_char(&mut out, e);
                    let w = char_width(e);
                    proof {
                        assert(es@.take(k + 1).drop_last() =~= es@.take(k as int));
                    }
                    let mut t: usize = 0;
                    while t < w
                        invariant
                            t <= w,
                            map@ == map_before + Seq::new((pushed + t) as nat, |j: int| src_byte),
                        decreases w - t,
                    {
                        map.push(src_byte);
                        proof {
                            assert(map@ =~= map_before + Seq::new(
                                (pushed + t + 1) as nat,
                                |j: int| src_byte,
                            ));
                        }
                        t = t + 1;
                    }
                    pushed = pushed + w;
                    proof {
                        assert(out@ =~= before + es@.take(k + 1));
                    }
                    k = k + 1;
                }
                proof {
                    assert(es@.take(es@.len() as int) =~= es@);
                    assert(pushed == byte_len(spec_piece(c)));
                }
            },
            None => {
                let m = match normalize_lookup(c as u32) {
                    Some(m) => {
                        changed = true;
                        m
                    },
                    None => c,
                };
                push_char(&mut out, m);
                let w = char_width(m);
                let mut t: usize = 0;
                while t < w
                    invariant
                        t <= w,
                        map@ == map_before + Seq::new(t as nat, |j: int| src_byte),
                    decreases w - t,
                {
                    map.push(src_byte);
                    proof {
                        assert(map@ =~= map_before + Seq::new((t + 1) as nat, |j: int| src_byte));
                    }
                    t = t + 1;
                }
                pushed = w;
                proof {
                    assert(spec_piece(c) =~= seq![m]);
                    assert(seq![m].drop_last() =~= Seq::<char>::empty());
                    assert(byte_len(Seq::<char>::empty()) == 0);
                    assert(pushed == byte_len(spec_piece(c)));
                    assert(out@ =~= before + spec_piece(c));
                }
            },
        }
        proof {
            assert(byte_len(s.take(i + 1).drop_last()) == src_byte);
            assert(out@ =~= spec_normalized(s.take(i + 1)));
            assert(map@ =~= spec_byte_map(s.take(i + 1)));
            if changed {
                if !(exists|k: int| 0 <= k < i && spec_alters(#[trigger] s[k])) {
                    assert(spec_alters(s[i as int]));
                }
            }
        }
        src_byte = src_byte + char_width(c);
        i = i + 1;
    }
    proof {
        assert(s.take(s.len() as int) =~= s);
    }
    NormalizedText {
        text: out,
        byte_map: if changed {
            Some(map)
        } else {
            None
        },
    }
}

/// The byte map has one entry per byte of the normalised text, and each
/// entry is the byte offset at which some character of the input starts.
pub proof fn lemma_byte_map_aligned(s: Seq<char>)
    requires
        byte_len(s) <= usize::MAX,
    ensures
        spec_byte_map(s).len() == byte_len(spec_normalized(s)),
        forall|j: int|
            0 <= j < spec_byte_map(s).len() ==> exists|k: int|
                0 <= k < s.len() && #[trigger] spec_byte_map(s)[j] as int == byte_offset(s, k),
    decreases s.len(),
{
    if s.len() > 0 {
        let p = s.drop_last();
        lemma_byte_offset_mono(s, s.len() - 1, s.len() as int);
        assert(s.take(s.len() - 1) =~= p);
        lemma_byte_len_concat(spec_normalized(p), spec_piece(s.last()));
        lemma_byte_len_concat(p, seq![s.last()]);
        assert(p + seq![s.last()] =~= s);
        lemma_byte_map_aligned(p);
        let m = spec_byte_map(s);
        let mp = spec_byte_map(p);
        assert forall|j: int| 0 <= j < m.len() implies exists|k: int|
            0 <= k < s.len() && #[trigger] m[j] as int == byte_offset(s, k) by {
            if j < mp.len() {
                let k = choose|k: int| 0 <= k < p.len() && mp[j] as int == byte_offset(p, k);
                assert(p.take(k) =~= s.take(k));
                assert(m[j] == mp[j]);
                assert(m[j] as int == byte_offset(s, k));
            } else {
                assert(m[j] as int == byte_offset(s, s.len() - 1));
            }
        }
    }
}

/// Where no character is changed, the normalised text is the input; and the
/// byte map never decreases, each entry lying before the end of the input.
pub proof fn lemma_normalize_shape(s: Seq<char>)
    requires
        byte_len(s) <= usize::MAX,
    ensures
        (forall|k: int| 0 <= k < s.len() ==> !spec_alters(#[trigger] s[k])) ==> spec_normalized(s) == s,
        forall|j: int| 0 <= j < spec_byte_map(s).len() ==> (#[trigger] spec_byte_map(s)[j]) < byte_len(s),
        forall|a: int, b: int|
            0 <= a <= b < spec_byte_map(s).len() ==> #[trigger] spec_byte_map(s)[a] <= #[trigger] spec_byte_map(s)[b],
    decreases s.len(),
{
    if s.len() > 0 {
        let p = s.drop_last();
        let c = s.last();
        lemma_byte_len_concat(p, seq![c]);
        assert(p + seq![c] =~= s);
        assert(seq![c].drop_last() =~= Seq::<char>::empty());
        assert(byte_len(seq![c]) == utf8_width(c));
        lemma_normalize_shape(p);
        let m = spec_byte_map(s);
        let mp = spec_byte_map(p);
        let w = byte_len(spec_piece(c));
        assert(m == mp + Seq::new(w, |j: int| byte_len(p) as usize));
        if forall|k: int| 0 <= k < s.len() ==> !spec_alters(#[trigger] s[k]) {
            assert forall|k: int| 0 <= k < p.len() implies !spec_alters(#[trigger] p[k]) by {
                assert(p[k] == s[k]);
            }
            assert(!spec_alters(s[s.len() - 1]));
            assert(spec_piece(c) == seq![c]);
            assert(spec_normalized(s) =~= p + seq![c]);
        }
        assert forall|j: int| 0 <= j < m.len() implies (#[trigger] m[j]) < byte_len(s) by {
            if j < mp.len() {
                assert(m[j] == mp[j]);
            } else {
                assert(m[j] == byte_len(p) as usize);
            }
        }
        assert forall|a: int, b: int| 0 <= a <= b < m.len() implies #[trigger] m[a] <= #[trigger] m[b] by {
            if b < mp.len() {
                assert(m[a] == mp[a] && m[b] == mp[b]);
            } else if a < mp.len() {
                assert(m[a] == mp[a]);
                assert(mp[a] < byte_len(p));
                assert(m[b] == byte_len(p) as usize);
            } else {
                assert(m[a] == byte_len(p) as usize);
                assert(m[b] == byte_len(p) as usize);
            }
        }
    }
}

/// Every byte that character `k` of the input becomes maps to the byte
/// offset where that character starts.
pub proof fn lemma_byte_map_per_char(s: Seq<char>, k: int)
    requires
        byte_len(s) <= usize::MAX,
        0 <= k < s.len(),
    ensures
        ({
            let lo = byte_len(spec_normalized(s.take(k)));
            let hi = lo + byte_len(spec_piece(s[k]));
            &&& hi <= spec_byte_map(s).len()
            &&& forall|j: int| lo <= j < hi ==> #[trigger] spec_byte_map(s)[j] as int == byte_offset(s, k)
        }),
    decreases s.len(),
{
    let p = s.drop_last();
    let c = s.last();
    lemma_byte_map_aligned(s);
    lemma_byte_map_aligned(p);
    lemma_byte_len_concat(p, seq![c]);
    assert(p + seq![c] =~= s);
    assert(seq![c].drop_last() =~= Seq::<char>::empty());
    lemma_byte_len_concat(spec_normalized(p), spec_piece(c));
    let m = spec_byte_map(s);
    let mp = spec_byte_map(p);
    assert(m == mp + Seq::new(byte_len(spec_piece(c)), |j: int| byte_len(p) as usize));
    assert(s.take(k + 1).drop_last() =~= s.take(k));
    lemma_byte_len_concat(spec_normalized(s.take(k)), spec_piece(s[k]));
    if k < p.len() {
        assert(s.take(k) =~= p.take(k));
        assert(s.take(k + 1) =~= p.take(k + 1));
        assert(p[k] == s[k]);
        lemma_byte_map_per_char(p, k);
        assert forall|j: int|
            byte_len(spec_normalized(s.take(k))) <= j < byte_len(spec_normalized(s.take(k))) + byte_len(spec_piece(s[k]))
            implies #[trigger] m[j] as int == byte_offset(s, k) by {
            assert(m[j] == mp[j]);
        }
    } else {
        assert(s.take(k) =~= p);
        assert forall|j: int|
            byte_len(spec_normalized(s.take(k))) <= j < byte_len(spec_normalized(s.take(k))) + byte_len(spec_piece(s[k]))
            implies #[trigger] m[j] as int == byte_offset(s, k) by {
            assert(m[j] == byte_len(p) as usize);
        }
    }
}

} // verus!
