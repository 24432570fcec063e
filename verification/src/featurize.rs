//! From text to source units, and from source units to feature keys.
//!
//! [`to_source_seq`] cuts the text into units — one character, or a kana with
//! the small kana that follows it (きょ, シャ) — records where each unit starts
//! in the text (UTF-8 byte offset) and its character class. Place-value kanji
//! (十百千万億兆) count as kanji numerals when their run touches one.
//!
//! [`compute_source_features`] lists, for every unit, the feature keys of the
//! models: the unit itself, its neighbours up to three units away, n-grams of
//! code points and classes, the lengths of kanji and kanji-numeral runs, and
//! the name-dictionary flags.

use vstd::prelude::*;

use crate::char_type::{get_char_type, spec_char_type, CharType};
use crate::feature::{FeatureKey, FeatureType};
use crate::name_dict::NAME_FLAG_OUT;
use crate::text::{byte_len, byte_offset, chars_of, lemma_byte_offset_step, lemma_byte_offset_mono, utf8_width, char_width, str_byte_len};

verus! {

/// One unit of the source text.
#[derive(Debug, Clone, Copy, PartialEq, Eq)]
pub struct SourceEntry {
    /// First code point of the unit.
    pub cp: u32,
    /// Second code point of a compound unit, else 0.
    pub cp2: u32,
    /// Third code point of a compound unit, else 0.
    pub cp3: u32,
    /// UTF-8 byte offset of the unit in the text.
    pub orig_idx: u32,
    /// Class of the unit (after place-value promotion).
    pub ctype: CharType,
    /// Number of characters in the unit.
    pub compound_len: u8,
}

// ------------------------------------------------------------
// Units
// ------------------------------------------------------------

/// Small kana that join the kana before them into one unit (ぁぃぅぇぉゃゅょゎ
/// and their katakana forms). The small っ/ッ stands alone.
pub open spec fn spec_is_hiragana_tail(cp: u32) -> bool {
    cp == 0x3041 || cp == 0x3043 || cp == 0x3045 || cp == 0x3047 || cp == 0x3049 || cp == 0x3083
        || cp == 0x3085 || cp == 0x3087 || cp == 0x308E
}

pub open spec fn spec_is_katakana_tail(cp: u32) -> bool {
    cp == 0x30A1 || cp == 0x30A3 || cp == 0x30A5 || cp == 0x30A7 || cp == 0x30A9 || cp == 0x30E3
        || cp == 0x30E5 || cp == 0x30E7 || cp == 0x30EE
}

/// Whether `next` joins `base` into a compound unit: a kana that is no small
/// kana itself, followed by a small kana of the same script.
pub open spec fn spec_joins(base: char, next: char) -> bool {
    let b = base as u32;
    let n = next as u32;
    ||| (spec_char_type(b) == CharType::Hiragana && !spec_is_hiragana_tail(b)
        && spec_is_hiragana_tail(n))
    ||| (spec_char_type(b) == CharType::Katakana && !spec_is_katakana_tail(b)
        && spec_is_katakana_tail(n))
}

/// Number of characters of the unit that starts at character `i` of `s`.
pub open spec fn spec_unit_len(s: Seq<char>, i: int) -> int {
    if i + 1 < s.len() && spec_joins(s[i], s[i + 1]) {
        2
    } else {
        1
    }
}

/// The unit that starts at character `i`, before place-value promotion.
pub open spec fn spec_base_entry(s: Seq<char>, i: int) -> SourceEntry {
    SourceEntry {
        cp: s[i] as u32,
        cp2: if spec_unit_len(s, i) == 2 { s[i + 1] as u32 } else { 0 },
        cp3: 0,
        orig_idx: byte_offset(s, i) as u32,
        ctype: spec_char_type(s[i] as u32),
        compound_len: spec_unit_len(s, i) as u8,
    }
}

/// The units of `s` from character `i` on, before place-value promotion.
pub open spec fn spec_entries_from(s: Seq<char>, i: int) -> Seq<SourceEntry>
    decreases s.len() - i,
{
    if i < 0 || i >= s.len() {
        Seq::empty()
    } else {
        seq![spec_base_entry(s, i)] + spec_entries_from(s, i + spec_unit_len(s, i))
    }
}

/// The place-value kanji 十百千万億兆.
pub open spec fn spec_is_kurai(cp: u32) -> bool {
    cp == 0x5341 || cp == 0x767E || cp == 0x5343 || cp == 0x4E07 || cp == 0x5104 || cp == 0x5146
}

/// Unit `i` is a place-value kanji in a run of them that a kanji numeral
/// precedes.
pub open spec fn spec_left_run(e: Seq<SourceEntry>, i: int) -> bool
    decreases i,
{
    &&& 0 < i < e.len()
    &&& spec_is_kurai(e[i].cp)
    &&& (e[i - 1].ctype == CharType::JapaneseNumeric || spec_left_run(e, i - 1))
}

/// Unit `i` is a place-value kanji in a run of them that a kanji numeral
/// follows.
pub open spec fn spec_right_run(e: Seq<SourceEntry>, i: int) -> bool
    decreases e.len() - i,
{
    &&& 0 <= i < e.len() - 1
    &&& spec_is_kurai(e[i].cp)
    &&& (e[i + 1].ctype == CharType::JapaneseNumeric || spec_right_run(e, i + 1))
}

pub open spec fn spec_with_ctype(e: SourceEntry, t: CharType) -> SourceEntry {
    SourceEntry { ctype: t, ..e }
}

/// Place-value kanji whose run touches a kanji numeral become kanji numerals
/// (三万, 十一, 三千百二十一); the others stay kanji (万全).
pub open spec fn spec_promote(e: Seq<SourceEntry>) -> Seq<SourceEntry> {
    Seq::new(
        e.len(),
        |i: int|
            if spec_left_run(e, i) || spec_right_run(e, i) {
                spec_with_ctype(e[i], CharType::JapaneseNumeric)
            } else {
                e[i]
            },
    )
}

/// The source sequence of the characters `s`.
pub open spec fn spec_source_seq(s: Seq<char>) -> Seq<SourceEntry> {
    spec_promote(spec_entries_from(s, 0))
}

proof fn lemma_entries_are_chars(s: Seq<char>, i: int)
    requires
        0 <= i <= s.len(),
        forall|k: int| 0 <= k < s.len() ==> !spec_is_hiragana_tail(#[trigger] s[k] as u32) && !spec_is_katakana_tail(
            s[k] as u32,
        ),
    ensures
        spec_entries_from(s, i) =~= Seq::new((s.len() - i) as nat, |k: int| spec_base_entry(s, i + k)),
    decreases s.len() - i,
{
    if i < s.len() {
        if i + 1 < s.len() {
            assert(!spec_is_hiragana_tail(s[i + 1] as u32) && !spec_is_katakana_tail(s[i + 1] as u32));
        }
        assert(spec_unit_len(s, i) == 1);
        lemma_entries_are_chars(s, i + 1);
    }
}

/// Where no character is a small kana that joins the one before it, the
/// units are the characters, one for one: unit `k` has the code point and
/// the byte offset of character `k`, and its class is the character's,
/// except that a place-value kanji whose run touches a kanji numeral is a
/// kanji numeral.
pub proof fn lemma_units_are_characters(s: Seq<char>)
    requires
        forall|k: int| 0 <= k < s.len() ==> !spec_is_hiragana_tail(#[trigger] s[k] as u32) && !spec_is_katakana_tail(
            s[k] as u32,
        ),
    ensures
        ({
            let e = spec_source_seq(s);
            let base = spec_entries_from(s, 0);
            &&& e.len() == s.len()
            &&& forall|k: int|
                0 <= k < s.len() ==> {
                    &&& (#[trigger] e[k]).cp == s[k] as u32
                    &&& e[k].compound_len == 1
                    &&& e[k].orig_idx == byte_offset(s, k) as u32
                    &&& e[k].ctype == (if spec_left_run(base, k) || spec_right_run(base, k) {
                        CharType::JapaneseNumeric
                    } else {
                        spec_char_type(s[k] as u32)
                    })
                }
        }),
{
    lemma_entries_are_chars(s, 0);
    let base = spec_entries_from(s, 0);
    assert forall|k: int| 0 <= k < s.len() implies spec_unit_len(s, k) == 1 by {
        if k + 1 < s.len() {
            assert(!spec_is_hiragana_tail(s[k + 1] as u32) && !spec_is_katakana_tail(s[k + 1] as u32));
        }
    }
    assert forall|k: int| 0 <= k < s.len() implies base[k] == spec_base_entry(s, k) by {
    }
}

proof fn lemma_entries_offsets(s: Seq<char>, i: int)
    requires
        0 <= i <= s.len(),
        byte_len(s) <= u32::MAX,
    ensures
        ({
            let e = spec_entries_from(s, i);
            &&& forall|k: int| 0 <= k < e.len() ==> byte_offset(s, i) <= (#[trigger] e[k]).orig_idx
            &&& forall|k: int|
                0 <= k < e.len() ==> exists|c: int| i <= c < s.len() && (#[trigger] e[k]).orig_idx as int == byte_offset(s, c)
            &&& forall|a: int, b: int| 0 <= a < b < e.len() ==> #[trigger] e[a].orig_idx < #[trigger] e[b].orig_idx
        }),
    decreases s.len() - i,
{
    if i < s.len() {
        let w = spec_unit_len(s, i);
        let j = i + w;
        lemma_entries_offsets(s, j);
        lemma_byte_offset_step(s, i);
        lemma_byte_offset_mono(s, i + 1, j);
        lemma_byte_offset_mono(s, i, s.len() as int);
        assert(s.take(s.len() as int) =~= s);
        let e = spec_entries_from(s, i);
        let rest = spec_entries_from(s, j);
        assert(e == seq![spec_base_entry(s, i)] + rest);
        assert(e[0].orig_idx as int == byte_offset(s, i));
        assert(byte_offset(s, i) < byte_offset(s, j));
        assert forall|k: int| 0 <= k < e.len() implies byte_offset(s, i) <= (#[trigger] e[k]).orig_idx by {
            if k > 0 {
                assert(e[k] == rest[k - 1]);
            }
        }
        assert forall|k: int| 0 <= k < e.len() implies exists|c: int|
            i <= c < s.len() && (#[trigger] e[k]).orig_idx as int == byte_offset(s, c) by {
            if k > 0 {
                assert(e[k] == rest[k - 1]);
                let c = choose|c: int| j <= c < s.len() && rest[k - 1].orig_idx as int == byte_offset(s, c);
                assert(i <= c < s.len());
            } else {
                assert(i <= i < s.len());
            }
        }
        assert forall|a: int, b: int| 0 <= a < b < e.len() implies #[trigger] e[a].orig_idx < #[trigger] e[b].orig_idx by {
            assert(e[b] == rest[b - 1]);
            if a > 0 {
                assert(e[a] == rest[a - 1]);
            }
        }
    }
}

/// The small hiragana ぁぃぅぇぉ (odd code points U+3041–U+3049), ゃゅょ
/// (odd code points U+3083–U+3087) and ゎ (U+308E).
pub open spec fn spec_small_hiragana_cp(cp: u32) -> bool {
    ||| (0x3041 <= cp <= 0x3049 && cp % 2 == 1)
    ||| (0x3083 <= cp <= 0x3087 && cp % 2 == 1)
    ||| cp == 0x308E
}

/// A hiragana letter (U+3041–U+3096) that is no small hiragana.
pub open spec fn spec_full_hiragana_cp(cp: u32) -> bool {
    0x3041 <= cp <= 0x3096 && !spec_small_hiragana_cp(cp)
}

proof fn lemma_hiragana_letters_class(cp: u32)
    requires
        0x3041 <= cp <= 0x3096,
    ensures
        spec_char_type(cp) == CharType::Hiragana,
{
}

/// A character that no small kana joins to the one before it starts a unit:
/// the units from any earlier unit start reach it.
proof fn lemma_entries_reach(s: Seq<char>, i: int, c: int)
    requires
        0 <= i <= c < s.len(),
        !(c > 0 && spec_joins(s[c - 1], s[c])),
    ensures
        exists|k: int| 0 <= k < spec_entries_from(s, i).len() && #[trigger] spec_entries_from(s, i)[k] == spec_base_entry(s, c),
    decreases c - i,
{
    let e = spec_entries_from(s, i);
    if i == c {
        assert(e[0] == spec_base_entry(s, c));
    } else {
        let n = i + spec_unit_len(s, i);
        assert(n <= c);
        lemma_entries_reach(s, n, c);
        let r = spec_entries_from(s, n);
        let k = choose|k: int| 0 <= k < r.len() && #[trigger] r[k] == spec_base_entry(s, c);
        assert(e == seq![spec_base_entry(s, i)] + r);
        assert(e[k + 1] == r[k]);
    }
}

/// A hiragana that is no small kana, followed by a small hiragana, makes
/// one compound unit of two characters: the units of every text hold, at
/// the hiragana's byte offset, the unit of both code points.
pub proof fn lemma_small_kana_compounds(s: Seq<char>, c: int)
    requires
        0 <= c,
        c + 1 < s.len(),
        spec_full_hiragana_cp(s[c] as u32),
        spec_small_hiragana_cp(s[c + 1] as u32),
    ensures
        exists|k: int|
            0 <= k < spec_source_seq(s).len() && {
                let u = #[trigger] spec_source_seq(s)[k];
                &&& u.orig_idx == byte_offset(s, c) as u32
                &&& u.cp == s[c] as u32
                &&& u.cp2 == s[c + 1] as u32
                &&& u.compound_len == 2
            },
{
    lemma_hiragana_letters_class(s[c] as u32);
    assert(spec_joins(s[c], s[c + 1]));
    assert(spec_unit_len(s, c) == 2);
    lemma_entries_reach(s, 0, c);
    let e = spec_entries_from(s, 0);
    let k = choose|k: int| 0 <= k < e.len() && #[trigger] e[k] == spec_base_entry(s, c);
    let u = spec_source_seq(s)[k];
    assert(u.cp == e[k].cp && u.cp2 == e[k].cp2 && u.compound_len == e[k].compound_len && u.orig_idx
        == e[k].orig_idx);
}

/// The small katakana: the small hiragana moved to the katakana block
/// (U+60 further on).
pub open spec fn spec_small_katakana_cp(cp: u32) -> bool {
    cp >= 0x60 && spec_small_hiragana_cp((cp - 0x60) as u32)
}

proof fn lemma_katakana_letters_class(cp: u32)
    requires
        0x30A1 <= cp <= 0x30FA,
    ensures
        spec_char_type(cp) == CharType::Katakana,
{
}

/// A katakana letter (U+30A1–U+30FA) that is no small katakana, followed
/// by a small katakana, makes one compound unit of two characters.
pub proof fn lemma_small_katakana_compounds(s: Seq<char>, c: int)
    requires
        0 <= c,
        c + 1 < s.len(),
        0x30A1 <= s[c] as u32 <= 0x30FA,
        !spec_small_katakana_cp(s[c] as u32),
        spec_small_katakana_cp(s[c + 1] as u32),
    ensures
        exists|k: int|
            0 <= k < spec_source_seq(s).len() && {
                let u = #[trigger] spec_source_seq(s)[k];
                &&& u.orig_idx == byte_offset(s, c) as u32
                &&& u.cp == s[c] as u32
                &&& u.cp2 == s[c + 1] as u32
                &&& u.compound_len == 2
            },
{
    lemma_katakana_letters_class(s[c] as u32);
    assert(spec_joins(s[c], s[c + 1]));
    assert(spec_unit_len(s, c) == 2);
    lemma_entries_reach(s, 0, c);
    let e = spec_entries_from(s, 0);
    let k = choose|k: int| 0 <= k < e.len() && #[trigger] e[k] == spec_base_entry(s, c);
    let u = spec_source_seq(s)[k];
    assert(u.cp == e[k].cp && u.cp2 == e[k].cp2 && u.compound_len == e[k].compound_len && u.orig_idx
        == e[k].orig_idx);
}

proof fn lemma_entries_are_base(s: Seq<char>, i: int)
    requires
        0 <= i,
    ensures
        forall|k: int|
            0 <= k < spec_entries_from(s, i).len() ==> exists|c: int|
                i <= c < s.len() && #[trigger] spec_entries_from(s, i)[k] == spec_base_entry(s, c),
    decreases s.len() - i,
{
    if i < s.len() {
        let n = i + spec_unit_len(s, i);
        lemma_entries_are_base(s, n);
        let e = spec_entries_from(s, i);
        let r = spec_entries_from(s, n);
        assert(e == seq![spec_base_entry(s, i)] + r);
        assert forall|k: int| 0 <= k < e.len() implies exists|c: int|
            i <= c < s.len() && #[trigger] e[k] == spec_base_entry(s, c) by {
            if k == 0 {
                assert(e[0] == spec_base_entry(s, i));
            } else {
                assert(e[k] == r[k - 1]);
            }
        }
    }
}

/// Only a kana that is no small kana, followed by a small kana of its own
/// script, makes a compound unit: every unit is one character (second code
/// point 0) or such a pair.
pub proof fn lemma_compound_units_are_kana_pairs(s: Seq<char>)
    ensures
        forall|k: int|
            0 <= k < spec_source_seq(s).len() ==> {
                let u = #[trigger] spec_source_seq(s)[k];
                ||| (u.compound_len == 1 && u.cp2 == 0)
                ||| (u.compound_len == 2 && 0x3041 <= u.cp <= 0x309F && !spec_small_hiragana_cp(u.cp)
                    && spec_small_hiragana_cp(u.cp2))
                ||| (u.compound_len == 2 && 0x30A0 <= u.cp <= 0x30FF && !spec_small_katakana_cp(u.cp)
                    && spec_small_katakana_cp(u.cp2))
            },
{
    lemma_entries_are_base(s, 0);
    let e = spec_entries_from(s, 0);
    assert forall|k: int| 0 <= k < spec_source_seq(s).len() implies {
        let u = #[trigger] spec_source_seq(s)[k];
        ||| (u.compound_len == 1 && u.cp2 == 0)
        ||| (u.compound_len == 2 && 0x3041 <= u.cp <= 0x309F && !spec_small_hiragana_cp(u.cp)
            && spec_small_hiragana_cp(u.cp2))
        ||| (u.compound_len == 2 && 0x30A0 <= u.cp <= 0x30FF && !spec_small_katakana_cp(u.cp)
            && spec_small_katakana_cp(u.cp2))
    } by {
        let c = choose|c: int| 0 <= c < s.len() && #[trigger] e[k] == spec_base_entry(s, c);
        let u = spec_source_seq(s)[k];
        assert(u.cp == e[k].cp && u.cp2 == e[k].cp2 && u.compound_len == e[k].compound_len);
        if spec_unit_len(s, c) == 2 {
            assert(spec_joins(s[c], s[c + 1]));
        }
    }
}

/// A text has no units exactly when it is empty.
pub(crate) proof fn lemma_source_seq_nonempty(s: Seq<char>)
    ensures
        spec_source_seq(s).len() == 0 <==> s.len() == 0,
{
    if s.len() > 0 {
        assert(spec_entries_from(s, 0).len() >= 1);
    }
}

/// The units of a text start at strictly increasing byte offsets, each of
/// them the start of a character of the text.
pub proof fn lemma_source_seq_offsets(s: Seq<char>)
    requires
        byte_len(s) <= u32::MAX,
    ensures
        forall|a: int, b: int|
            0 <= a < b < spec_source_seq(s).len() ==> #[trigger] spec_source_seq(s)[a].orig_idx
                < #[trigger] spec_source_seq(s)[b].orig_idx,
        forall|k: int|
            0 <= k < spec_source_seq(s).len() ==> exists|c: int|
                0 <= c < s.len() && (#[trigger] spec_source_seq(s)[k]).orig_idx as int == byte_offset(s, c),
{
    lemma_entries_offsets(s, 0);
    let e = spec_entries_from(s, 0);
    let r = spec_source_seq(s);
    assert forall|k: int| 0 <= k < r.len() implies (#[trigger] r[k]).orig_idx == e[k].orig_idx by {
    }
    assert forall|a: int, b: int| 0 <= a < b < r.len() implies #[trigger] r[a].orig_idx < #[trigger] r[b].orig_idx by {
        assert(r[a].orig_idx == e[a].orig_idx && r[b].orig_idx == e[b].orig_idx);
    }
    assert forall|k: int| 0 <= k < r.len() implies exists|c: int|
        0 <= c < s.len() && (#[trigger] r[k]).orig_idx as int == byte_offset(s, c) by {
        assert(r[k].orig_idx == e[k].orig_idx);
        assert(exists|c: int| 0 <= c < s.len() && e[k].orig_idx as int == byte_offset(s, c));
    }
}

proof fn lemma_kurai_is_kanji(cp: u32)
    requires
        spec_is_kurai(cp),
    ensures
        spec_char_type(cp) == CharType::Kanji,
{
    assert(crate::char_type::spec_symbol_class(cp) == CharType::Other);
}

proof fn lemma_entries_from_shape(s: Seq<char>, i: int)
    requires
        0 <= i <= s.len(),
    ensures
        forall|k: int|
            0 <= k < spec_entries_from(s, i).len() ==> {
                let e = #[trigger] spec_entries_from(s, i)[k];
                e.ctype == spec_char_type(e.cp)
            },
    decreases s.len() - i,
{
    if i < s.len() {
        lemma_entries_from_shape(s, i + spec_unit_len(s, i));
        let rest = spec_entries_from(s, i + spec_unit_len(s, i));
        assert forall|k: int| 0 <= k < spec_entries_from(s, i).len() implies {
            let e = #[trigger] spec_entries_from(s, i)[k];
            e.ctype == spec_char_type(e.cp)
        } by {
            if k > 0 {
                assert(spec_entries_from(s, i)[k] == rest[k - 1]);
            }
        }
    }
}

/// Whether `c` joins `base` into one unit.
fn joins(base: char, next: char) -> (b: bool)
    ensures
        b == spec_joins(base, next),
{
    let b = base as u32;
    let n = next as u32;
    let tb = get_char_type(base);
    let hira_tail_b = b == 0x3041 || b == 0x3043 || b == 0x3045 || b == 0x3047 || b == 0x3049
        || b == 0x3083 || b == 0x3085 || b == 0x3087 || b == 0x308E;
    let hira_tail_n = n == 0x3041 || n == 0x3043 || n == 0x3045 || n == 0x3047 || n == 0x3049
        || n == 0x3083 || n == 0x3085 || n == 0x3087 || n == 0x308E;
    let kata_tail_b = b == 0x30A1 || b == 0x30A3 || b == 0x30A5 || b == 0x30A7 || b == 0x30A9
        || b == 0x30E3 || b == 0x30E5 || b == 0x30E7 || b == 0x30EE;
    let kata_tail_n = n == 0x30A1 || n == 0x30A3 || n == 0x30A5 || n == 0x30A7 || n == 0x30A9
        || n == 0x30E3 || n == 0x30E5 || n == 0x30E7 || n == 0x30EE;
    (tb == CharType::Hiragana && !hira_tail_b && hira_tail_n) || (tb == CharType::Katakana
        && !kata_tail_b && kata_tail_n)
}

/// Whether `c` is one of 十百千万億兆.
pub fn is_kurai_char(c: char) -> (b: bool)
    ensures
        b == spec_is_kurai(c as u32),
{
    let cp = c as u32;
    cp == 0x5341 || cp == 0x767E || cp == 0x5343 || cp == 0x4E07 || cp == 0x5104 || cp == 0x5146
}

/// Cuts `text` into units and classifies them (see the module documentation).
pub fn to_source_seq(text: &str) -> (r: Vec<SourceEntry>)
    ensures
        r@ == spec_source_seq(text@),
{
    let total = str_byte_len(text);
    let chars = chars_of(text);
    let n = chars.len();
    let ghost s = chars@;

    // --- units and their classes ---
    let mut base: Vec<SourceEntry> = Vec::new();
    let mut i: usize = 0;
    let mut byte: usize = 0;
    while i < n
        invariant
            s == chars@,
            n == s.len(),
            byte_len(s) == total,
            0 <= i <= n,
            byte == byte_offset(s, i as int),
            base@ + spec_entries_from(s, i as int) == spec_entries_from(s, 0),
        decreases n - i,
    {
        proof {
            lemma_byte_offset_step(s, i as int);
            lemma_byte_offset_mono(s, i as int + 1, n as int);
        }
        let c = chars[i];
        let len: usize = if i + 1 < n && joins(c, chars[i + 1]) {
            2
        } else {
            1
        };
        let cp2: u32 = if len == 2 {
            chars[i + 1] as u32
        } else {
            0
        };
        let e = SourceEntry {
            cp: c as u32,
            cp2,
            cp3: 0,
            orig_idx: byte as u32,
            ctype: get_char_type(c),
            compound_len: len as u8,
        };
        assert(e == spec_base_entry(s, i as int));
        let w = char_width(c);
        proof {
            assert(spec_entries_from(s, i as int) == seq![e] + spec_entries_from(
                s,
                i + len as int,
            ));
            assert(base@.push(e) + spec_entries_from(s, i + len as int) =~= base@ + (seq![e]
                + spec_entries_from(s, i + len as int)));
        }
        base.push(e);
        if len == 2 {
            proof {
                lemma_byte_offset_step(s, i as int + 1);
                lemma_byte_offset_mono(s, i as int + 2, n as int);
            }
            let w2 = char_width(chars[i + 1]);
            byte = byte + w + w2;
        } else {
            byte = byte + w;
        }
        i = i + len;
    }
    proof {
        assert(spec_entries_from(s, n as int) == Seq::<SourceEntry>::empty());
        assert(base@ =~= spec_entries_from(s, 0));
        lemma_entries_from_shape(s, 0);
    }
    let ghost b0 = base@;
    let m = base.len();

    // --- left-to-right: a place-value kanji after a kanji numeral ---
    let mut e = base;
    let mut j: usize = 1;
    while j < m
        invariant
            m == b0.len(),
            e@.len() == m,
            1 <= j || m == 0,
            j <= m || m == 0,
            forall|k: int| 0 <= k < m ==> #[trigger] b0[k].ctype == spec_char_type(b0[k].cp),
            forall|k: int|
                0 <= k < j && k < m ==> #[trigger] e@[k] == (if spec_left_run(b0, k) {
                    spec_with_ctype(b0[k], CharType::JapaneseNumeric)
                } else {
                    b0[k]
                }),
            forall|k: int| j <= k < m ==> #[trigger] e@[k] == b0[k],
        decreases m - j,
    {
        let cur = e[j];
        let prev = e[j - 1];
        proof {
            assert(e@[j - 1] == prev);
        }
        if is_kurai_char_cp(cur.cp) && prev.ctype == CharType::JapaneseNumeric {
            let upd = SourceEntry { ctype: CharType::JapaneseNumeric, ..cur };
            e.set(j, upd);
        }
        proof {
            assert(spec_left_run(b0, j as int) == (spec_is_kurai(b0[j as int].cp) && (
            b0[j - 1].ctype == CharType::JapaneseNumeric || spec_left_run(b0, j - 1))));
            if spec_left_run(b0, j - 1) {
                lemma_kurai_is_kanji(b0[j - 1].cp);
            }
        }
        j = j + 1;
    }
    let ghost lr = e@;

    // --- right-to-left: a place-value kanji before a kanji numeral ---
    if m >= 1 {
        proof {
            assert(!spec_right_run(b0, m - 1));
            assert(e@[m - 1] == spec_promote(b0)[m - 1]);
        }
        let mut k: usize = m - 1;
        while k > 0
            invariant
                m == b0.len(),
                m >= 1,
                e@.len() == m,
                0 <= k < m,
                forall|x: int| 0 <= x < m ==> #[trigger] b0[x].ctype == spec_char_type(b0[x].cp),
                forall|x: int|
                    0 <= x < m ==> #[trigger] lr[x] == (if spec_left_run(b0, x) {
                        spec_with_ctype(b0[x], CharType::JapaneseNumeric)
                    } else {
                        b0[x]
                    }),
                forall|x: int| 0 <= x < k ==> #[trigger] e@[x] == lr[x],
                forall|x: int| k <= x < m ==> #[trigger] e@[x] == spec_promote(b0)[x],
            decreases k,
        {
            let i2 = k - 1;
            let cur = e[i2];
            let next = e[k];
            proof {
                assert(cur == lr[i2 as int]);
                assert(next == spec_promote(b0)[k as int]);
                assert(spec_right_run(b0, i2 as int) == (spec_is_kurai(b0[i2 as int].cp) && (
                b0[k as int].ctype == CharType::JapaneseNumeric || spec_right_run(b0, k as int))));
                assert(spec_left_run(b0, k as int) == (spec_is_kurai(b0[k as int].cp) && (
                b0[i2 as int].ctype == CharType::JapaneseNumeric || spec_left_run(b0, i2 as int))));
                if spec_is_kurai(b0[i2 as int].cp) {
                    lemma_kurai_is_kanji(b0[i2 as int].cp);
                }
            }
            if is_kurai_char_cp(cur.cp) && next.ctype == CharType::JapaneseNumeric {
                let upd = SourceEntry { ctype: CharType::JapaneseNumeric, ..cur };
                e.set(i2, upd);
            }
            proof {
                assert(e@[i2 as int] == spec_promote(b0)[i2 as int]);
            }
            k = i2;
        }
    }
    proof {
        assert(e@ =~= spec_promote(b0));
    }
    e
}

fn is_kurai_char_cp(cp: u32) -> (b: bool)
    ensures
        b == spec_is_kurai(cp),
{
    cp == 0x5341 || cp == 0x767E || cp == 0x5343 || cp == 0x4E07 || cp == 0x5104 || cp == 0x5146
}


// ------------------------------------------------------------
// Features
// ------------------------------------------------------------

/// First code point of unit `j`, or 0 outside the sequence.
pub open spec fn spec_cp_at(seq: Seq<SourceEntry>, j: int) -> u32 {
    if 0 <= j < seq.len() { seq[j].cp } else { 0 }
}

/// Class of unit `j`, or `Other` outside the sequence.
pub open spec fn spec_ct_at(seq: Seq<SourceEntry>, j: int) -> CharType {
    if 0 <= j < seq.len() { seq[j].ctype } else { CharType::Other }
}

/// Number of units of class `t` right before unit `i`.
pub open spec fn spec_count_before(seq: Seq<SourceEntry>, i: int, t: CharType) -> nat
    decreases i,
{
    if 0 < i <= seq.len() && seq[i - 1].ctype == t {
        1 + spec_count_before(seq, i - 1, t)
    } else {
        0
    }
}

/// Number of units of class `t` right after unit `i`.
pub open spec fn spec_count_after(seq: Seq<SourceEntry>, i: int, t: CharType) -> nat
    decreases seq.len() - i,
{
    if 0 <= i && i + 1 < seq.len() && seq[i + 1].ctype == t {
        1 + spec_count_after(seq, i + 1, t)
    } else {
        0
    }
}

/// Length of the run around unit `i` of units of class `t`, unit `i` counted.
pub open spec fn spec_run_len(seq: Seq<SourceEntry>, i: int, t: CharType) -> nat {
    1 + spec_count_before(seq, i, t) + spec_count_after(seq, i, t)
}

/// A run length as the models see it: 1, 2, 3, 4, or 5 for five and more.
pub open spec fn spec_clamp_run(run: nat) -> u8 {
    if run <= 4 { run as u8 } else { 5 }
}

/// The key of the unit itself: its code point, or both (all three) code
/// points of a compound unit.
pub open spec fn spec_char_self_key(e: SourceEntry) -> FeatureKey {
    if e.compound_len == 2 {
        FeatureKey::spec_char_2(FeatureType::CharSelfCompound2, e.cp, e.cp2)
    } else if e.compound_len == 3 {
        FeatureKey::spec_char_3(FeatureType::CharSelfCompound3, e.cp, e.cp2, e.cp3)
    } else {
        FeatureKey::spec_char_1(FeatureType::CharSelf, e.cp)
    }
}

/// Bias, the unit, its class.
pub open spec fn spec_self_group(seq: Seq<SourceEntry>, i: int) -> Seq<FeatureKey> {
    seq![
        FeatureKey::spec_zero(FeatureType::Bias),
        spec_char_self_key(seq[i]),
        FeatureKey::spec_type_1(FeatureType::TypeSelf, seq[i].ctype),
    ]
}

/// Keys of the units before unit `i`, up to three units back.
pub open spec fn spec_prev_group(seq: Seq<SourceEntry>, i: int) -> Seq<FeatureKey> {
    let c = spec_cp_at(seq, i);
    let t = spec_ct_at(seq, i);
    let p1 = spec_cp_at(seq, i - 1);
    let q1 = spec_ct_at(seq, i - 1);
    let p2 = spec_cp_at(seq, i - 2);
    let q2 = spec_ct_at(seq, i - 2);
    let p3 = spec_cp_at(seq, i - 3);
    let q3 = spec_ct_at(seq, i - 3);
    if i > 0 {
        seq![
            FeatureKey::spec_char_1(FeatureType::CharPrev1, p1),
            FeatureKey::spec_type_1(FeatureType::TypePrev1, q1),
            FeatureKey::spec_char_2(FeatureType::BigramPrev1Self, p1, c),
            FeatureKey::spec_type_2(FeatureType::TypeTransition, q1, t),
        ] + if i > 1 {
            seq![
                FeatureKey::spec_char_1(FeatureType::CharPrev2, p2),
                FeatureKey::spec_type_1(FeatureType::TypePrev2, q2),
                FeatureKey::spec_char_2(FeatureType::BigramPrev2Prev1, p2, p1),
                FeatureKey::spec_char_3(FeatureType::TrigramPrev2Prev1Self, p2, p1, c),
                FeatureKey::spec_type_3(FeatureType::TypeTriPrev2Prev1Self, q2, q1, t),
            ] + if i > 2 {
                seq![
                    FeatureKey::spec_char_1(FeatureType::CharPrev3, p3),
                    FeatureKey::spec_type_1(FeatureType::TypePrev3, q3),
                    FeatureKey::spec_char_2(FeatureType::BigramPrev3Prev2, p3, p2),
                    FeatureKey::spec_char_3(FeatureType::TrigramPrev3Prev2Prev1, p3, p2, p1),
                    FeatureKey::spec_type_3(FeatureType::TypeTriPrev3Prev2Prev1, q3, q2, q1),
                ]
            } else {
                Seq::empty()
            }
        } else {
            Seq::empty()
        }
    } else {
        Seq::empty()
    }
}

/// Keys of the units after unit `i`, up to three units ahead.
pub open spec fn spec_next_group(seq: Seq<SourceEntry>, i: int) -> Seq<FeatureKey> {
    let n = seq.len();
    let c = spec_cp_at(seq, i);
    let t = spec_ct_at(seq, i);
    let n1 = spec_cp_at(seq, i + 1);
    let u1 = spec_ct_at(seq, i + 1);
    let n2 = spec_cp_at(seq, i + 2);
    let u2 = spec_ct_at(seq, i + 2);
    let n3 = spec_cp_at(seq, i + 3);
    let u3 = spec_ct_at(seq, i + 3);
    if i + 1 < n {
        seq![
            FeatureKey::spec_char_1(FeatureType::CharNext1, n1),
            FeatureKey::spec_type_1(FeatureType::TypeNext1, u1),
            FeatureKey::spec_char_2(FeatureType::BigramSelfNext1, c, n1),
        ] + if i + 2 < n {
            seq![
                FeatureKey::spec_char_1(FeatureType::CharNext2, n2),
                FeatureKey::spec_type_1(FeatureType::TypeNext2, u2),
                FeatureKey::spec_char_2(FeatureType::BigramNext1Next2, n1, n2),
                FeatureKey::spec_char_3(FeatureType::TrigramSelfNext1Next2, c, n1, n2),
                FeatureKey::spec_type_3(FeatureType::TypeTriSelfNext1Next2, t, u1, u2),
            ] + if i + 3 < n {
                seq![
                    FeatureKey::spec_char_1(FeatureType::CharNext3, n3),
                    FeatureKey::spec_type_1(FeatureType::TypeNext3, u3),
                    FeatureKey::spec_char_2(FeatureType::BigramNext2Next3, n2, n3),
                    FeatureKey::spec_char_3(FeatureType::TrigramNext1Next2Next3, n1, n2, n3),
                    FeatureKey::spec_type_3(FeatureType::TypeTriNext1Next2Next3, u1, u2, u3),
                ]
            } else {
                Seq::empty()
            }
        } else {
            Seq::empty()
        }
    } else {
        Seq::empty()
    }
}

/// The trigram around unit `i`, where it has both neighbours.
pub open spec fn spec_mid_group(seq: Seq<SourceEntry>, i: int) -> Seq<FeatureKey> {
    if i > 0 && i + 1 < seq.len() {
        seq![
            FeatureKey::spec_char_3(
                FeatureType::TrigramPrev1SelfNext1,
                spec_cp_at(seq, i - 1),
                spec_cp_at(seq, i),
                spec_cp_at(seq, i + 1),
            ),
            FeatureKey::spec_type_3(
                FeatureType::TypeTriPrev1SelfNext1,
                spec_ct_at(seq, i - 1),
                spec_ct_at(seq, i),
                spec_ct_at(seq, i + 1),
            ),
        ]
    } else {
        Seq::empty()
    }
}

/// Run keys of a kanji: its run length, whether it starts the run, and the
/// length of a kanji-numeral run right before it.
pub open spec fn spec_kanji_group(seq: Seq<SourceEntry>, i: int) -> Seq<FeatureKey> {
    if seq[i].ctype == CharType::Kanji {
        seq![
            FeatureKey::spec_u8(
                FeatureType::KanjiRunLen,
                spec_clamp_run(spec_run_len(seq, i, CharType::Kanji)),
            ),
        ] + (if i == 0 || seq[i - 1].ctype != CharType::Kanji {
            seq![FeatureKey::spec_zero(FeatureType::KanjiPosFirst)]
        } else {
            Seq::empty()
        }) + (if i > 0 && seq[i - 1].ctype == CharType::JapaneseNumeric {
            seq![
                FeatureKey::spec_u8(
                    FeatureType::PrevJapaneseNumericRunLen,
                    spec_clamp_run(spec_count_before(seq, i, CharType::JapaneseNumeric)),
                ),
            ]
        } else {
            Seq::empty()
        })
    } else {
        Seq::empty()
    }
}

/// Run key of a kanji numeral.
pub open spec fn spec_numeric_group(seq: Seq<SourceEntry>, i: int) -> Seq<FeatureKey> {
    if seq[i].ctype == CharType::JapaneseNumeric {
        seq![
            FeatureKey::spec_u8(
                FeatureType::JapaneseNumericRunLen,
                spec_clamp_run(spec_run_len(seq, i, CharType::JapaneseNumeric)),
            ),
        ]
    } else {
        Seq::empty()
    }
}

/// Name-flag keys of unit `i` and its two neighbours; an outside flag gives
/// no key.
pub open spec fn spec_name_group(seq: Seq<SourceEntry>, flags: Seq<u8>, i: int) -> Seq<FeatureKey> {
    (if flags[i] != NAME_FLAG_OUT {
        seq![FeatureKey::spec_u8(FeatureType::NameFlagSelf, flags[i])]
    } else {
        Seq::empty()
    }) + (if i > 0 && flags[i - 1] != NAME_FLAG_OUT {
        seq![FeatureKey::spec_u8(FeatureType::NameFlagPrev1, flags[i - 1])]
    } else {
        Seq::empty()
    }) + (if i + 1 < seq.len() && flags[i + 1] != NAME_FLAG_OUT {
        seq![FeatureKey::spec_u8(FeatureType::NameFlagNext1, flags[i + 1])]
    } else {
        Seq::empty()
    })
}

/// All keys of unit `i`, in the order the models were trained with.
pub open spec fn spec_unit_features(seq: Seq<SourceEntry>, flags: Seq<u8>, i: int) -> Seq<
    FeatureKey,
> {
    spec_self_group(seq, i) + spec_prev_group(seq, i) + spec_next_group(seq, i) + spec_mid_group(
        seq,
        i,
    ) + spec_kanji_group(seq, i) + spec_numeric_group(seq, i) + spec_name_group(seq, flags, i)
}

/// A key of unit `i` that is about a neighbour is the key of that
/// neighbour, and stands only where that neighbour exists.
pub open spec fn spec_neighbour_ok(seq: Seq<SourceEntry>, i: int, x: FeatureKey) -> bool {
    let n = seq.len();
    &&& x.feature_type == FeatureType::CharPrev1 ==> i >= 1 && x == FeatureKey::spec_char_1(FeatureType::CharPrev1, seq[i - 1].cp)
    &&& x.feature_type == FeatureType::CharPrev2 ==> i >= 2 && x == FeatureKey::spec_char_1(FeatureType::CharPrev2, seq[i - 2].cp)
    &&& x.feature_type == FeatureType::CharPrev3 ==> i >= 3 && x == FeatureKey::spec_char_1(FeatureType::CharPrev3, seq[i - 3].cp)
    &&& x.feature_type == FeatureType::CharNext1 ==> i + 1 < n && x == FeatureKey::spec_char_1(FeatureType::CharNext1, seq[i + 1].cp)
    &&& x.feature_type == FeatureType::CharNext2 ==> i + 2 < n && x == FeatureKey::spec_char_1(FeatureType::CharNext2, seq[i + 2].cp)
    &&& x.feature_type == FeatureType::CharNext3 ==> i + 3 < n && x == FeatureKey::spec_char_1(FeatureType::CharNext3, seq[i + 3].cp)
    &&& x.feature_type == FeatureType::TypePrev1 ==> i >= 1 && x == FeatureKey::spec_type_1(FeatureType::TypePrev1, seq[i - 1].ctype)
    &&& x.feature_type == FeatureType::TypeNext1 ==> i + 1 < n && x == FeatureKey::spec_type_1(FeatureType::TypeNext1, seq[i + 1].ctype)
    &&& x.feature_type == FeatureType::TypePrev2 ==> i >= 2 && x == FeatureKey::spec_type_1(FeatureType::TypePrev2, seq[i - 2].ctype)
    &&& x.feature_type == FeatureType::TypePrev3 ==> i >= 3 && x == FeatureKey::spec_type_1(FeatureType::TypePrev3, seq[i - 3].ctype)
    &&& x.feature_type == FeatureType::TypeNext2 ==> i + 2 < n && x == FeatureKey::spec_type_1(FeatureType::TypeNext2, seq[i + 2].ctype)
    &&& x.feature_type == FeatureType::TypeNext3 ==> i + 3 < n && x == FeatureKey::spec_type_1(FeatureType::TypeNext3, seq[i + 3].ctype)
    &&& x.feature_type == FeatureType::TrigramPrev1SelfNext1 ==> 0 < i && i + 1 < n && x == FeatureKey::spec_char_3(
        FeatureType::TrigramPrev1SelfNext1,
        seq[i - 1].cp,
        seq[i].cp,
        seq[i + 1].cp,
    )
}

proof fn lemma_all_neighbour_ok(a: Seq<FeatureKey>, b: Seq<FeatureKey>, seq: Seq<SourceEntry>, i: int)
    requires
        forall|j: int| 0 <= j < a.len() ==> spec_neighbour_ok(seq, i, #[trigger] a[j]),
        forall|j: int| 0 <= j < b.len() ==> spec_neighbour_ok(seq, i, #[trigger] b[j]),
    ensures
        forall|j: int| 0 <= j < (a + b).len() ==> spec_neighbour_ok(seq, i, #[trigger] (a + b)[j]),
{
    assert forall|j: int| 0 <= j < (a + b).len() implies spec_neighbour_ok(seq, i, #[trigger] (a + b)[j]) by {
        if j < a.len() {
            assert((a + b)[j] == a[j]);
        } else {
            assert((a + b)[j] == b[j - a.len()]);
        }
    }
}

proof fn lemma_group_ok_self(seq: Seq<SourceEntry>, flags: Seq<u8>, i: int)
    requires
        0 <= i < seq.len(),
        flags.len() == seq.len(),
    ensures
        forall|j: int| 0 <= j < spec_self_group(seq, i).len() ==> spec_neighbour_ok(seq, i, #[trigger] spec_self_group(seq, i)[j]),
{
    assert(spec_char_self_key(seq[i]).feature_type == FeatureType::CharSelf || spec_char_self_key(seq[i]).feature_type
        == FeatureType::CharSelfCompound2 || spec_char_self_key(seq[i]).feature_type == FeatureType::CharSelfCompound3);
    let g = spec_self_group(seq, i);
    assert forall|j: int| 0 <= j < g.len() implies spec_neighbour_ok(seq, i, #[trigger] g[j]) by {
    }
}

proof fn lemma_group_ok_prev(seq: Seq<SourceEntry>, flags: Seq<u8>, i: int)
    requires
        0 <= i < seq.len(),
        flags.len() == seq.len(),
    ensures
        forall|j: int| 0 <= j < spec_prev_group(seq, i).len() ==> spec_neighbour_ok(seq, i, #[trigger] spec_prev_group(seq, i)[j]),
{
    let g = spec_prev_group(seq, i);
    assert forall|j: int| 0 <= j < g.len() implies spec_neighbour_ok(seq, i, #[trigger] g[j]) by {
    }
}

proof fn lemma_group_ok_next(seq: Seq<SourceEntry>, flags: Seq<u8>, i: int)
    requires
        0 <= i < seq.len(),
        flags.len() == seq.len(),
    ensures
        forall|j: int| 0 <= j < spec_next_group(seq, i).len() ==> spec_neighbour_ok(seq, i, #[trigger] spec_next_group(seq, i)[j]),
{
    let g = spec_next_group(seq, i);
    assert forall|j: int| 0 <= j < g.len() implies spec_neighbour_ok(seq, i, #[trigger] g[j]) by {
    }
}

proof fn lemma_group_ok_mid(seq: Seq<SourceEntry>, flags: Seq<u8>, i: int)
    requires
        0 <= i < seq.len(),
        flags.len() == seq.len(),
    ensures
        forall|j: int| 0 <= j < spec_mid_group(seq, i).len() ==> spec_neighbour_ok(seq, i, #[trigger] spec_mid_group(seq, i)[j]),
{
    let g = spec_mid_group(seq, i);
    assert forall|j: int| 0 <= j < g.len() implies spec_neighbour_ok(seq, i, #[trigger] g[j]) by {
    }
}

proof fn lemma_group_ok_kanji(seq: Seq<SourceEntry>, flags: Seq<u8>, i: int)
    requires
        0 <= i < seq.len(),
        flags.len() == seq.len(),
    ensures
        forall|j: int| 0 <= j < spec_kanji_group(seq, i).len() ==> spec_neighbour_ok(seq, i, #[trigger] spec_kanji_group(seq, i)[j]),
{
    let g = spec_kanji_group(seq, i);
    assert forall|j: int| 0 <= j < g.len() implies spec_neighbour_ok(seq, i, #[trigger] g[j]) by {
    }
}

proof fn lemma_group_ok_numeric(seq: Seq<SourceEntry>, flags: Seq<u8>, i: int)
    requires
        0 <= i < seq.len(),
        flags.len() == seq.len(),
    ensures
        forall|j: int| 0 <= j < spec_numeric_group(seq, i).len() ==> spec_neighbour_ok(seq, i, #[trigger] spec_numeric_group(seq, i)[j]),
{
    let g = spec_numeric_group(seq, i);
    assert forall|j: int| 0 <= j < g.len() implies spec_neighbour_ok(seq, i, #[trigger] g[j]) by {
    }
}

proof fn lemma_group_ok_name(seq: Seq<SourceEntry>, flags: Seq<u8>, i: int)
    requires
        0 <= i < seq.len(),
        flags.len() == seq.len(),
    ensures
        forall|j: int| 0 <= j < spec_name_group(seq, flags, i).len() ==> spec_neighbour_ok(seq, i, #[trigger] spec_name_group(seq, flags, i)[j]),
{
    let g = spec_name_group(seq, flags, i);
    assert forall|j: int| 0 <= j < g.len() implies spec_neighbour_ok(seq, i, #[trigger] g[j]) by {
    }
}

proof fn lemma_concat_has(a: Seq<FeatureKey>, b: Seq<FeatureKey>)
    ensures
        forall|x: FeatureKey| a.contains(x) ==> #[trigger] (a + b).contains(x),
        forall|x: FeatureKey| b.contains(x) ==> #[trigger] (a + b).contains(x),
{
    assert forall|x: FeatureKey| a.contains(x) implies #[trigger] (a + b).contains(x) by {
        let m = choose|m: int| 0 <= m < a.len() && a[m] == x;
        assert((a + b)[m] == x);
    }
    assert forall|x: FeatureKey| b.contains(x) implies #[trigger] (a + b).contains(x) by {
        let m = choose|m: int| 0 <= m < b.len() && b[m] == x;
        assert((a + b)[a.len() + m] == x);
    }
}

proof fn lemma_prev_present(seq: Seq<SourceEntry>, i: int)
    requires
        0 <= i < seq.len(),
    ensures
        ({
            let g = spec_prev_group(seq, i);
            &&& i >= 1 ==> g.contains(FeatureKey::spec_char_1(FeatureType::CharPrev1, seq[i - 1].cp))
            &&& i >= 1 ==> g.contains(FeatureKey::spec_type_1(FeatureType::TypePrev1, seq[i - 1].ctype))
            &&& i >= 2 ==> g.contains(FeatureKey::spec_char_1(FeatureType::CharPrev2, seq[i - 2].cp))
            &&& i >= 2 ==> g.contains(FeatureKey::spec_type_1(FeatureType::TypePrev2, seq[i - 2].ctype))
            &&& i >= 3 ==> g.contains(FeatureKey::spec_char_1(FeatureType::CharPrev3, seq[i - 3].cp))
            &&& i >= 3 ==> g.contains(FeatureKey::spec_type_1(FeatureType::TypePrev3, seq[i - 3].ctype))
        }),
{
    let g = spec_prev_group(seq, i);
    if i >= 1 {
        assert(g[0] == FeatureKey::spec_char_1(FeatureType::CharPrev1, seq[i - 1].cp));
        assert(g[1] == FeatureKey::spec_type_1(FeatureType::TypePrev1, seq[i - 1].ctype));
    }
    if i >= 2 {
        assert(g[4] == FeatureKey::spec_char_1(FeatureType::CharPrev2, seq[i - 2].cp));
        assert(g[5] == FeatureKey::spec_type_1(FeatureType::TypePrev2, seq[i - 2].ctype));
    }
    if i >= 3 {
        assert(g[9] == FeatureKey::spec_char_1(FeatureType::CharPrev3, seq[i - 3].cp));
        assert(g[10] == FeatureKey::spec_type_1(FeatureType::TypePrev3, seq[i - 3].ctype));
    }
}

proof fn lemma_next_present(seq: Seq<SourceEntry>, i: int)
    requires
        0 <= i < seq.len(),
    ensures
        ({
            let g = spec_next_group(seq, i);
            &&& i + 1 < seq.len() ==> g.contains(FeatureKey::spec_char_1(FeatureType::CharNext1, seq[i + 1].cp))
            &&& i + 1 < seq.len() ==> g.contains(FeatureKey::spec_type_1(FeatureType::TypeNext1, seq[i + 1].ctype))
            &&& i + 2 < seq.len() ==> g.contains(FeatureKey::spec_char_1(FeatureType::CharNext2, seq[i + 2].cp))
            &&& i + 2 < seq.len() ==> g.contains(FeatureKey::spec_type_1(FeatureType::TypeNext2, seq[i + 2].ctype))
            &&& i + 3 < seq.len() ==> g.contains(FeatureKey::spec_char_1(FeatureType::CharNext3, seq[i + 3].cp))
            &&& i + 3 < seq.len() ==> g.contains(FeatureKey::spec_type_1(FeatureType::TypeNext3, seq[i + 3].ctype))
        }),
{
    let g = spec_next_group(seq, i);
    if i + 1 < seq.len() {
        assert(g[0] == FeatureKey::spec_char_1(FeatureType::CharNext1, seq[i + 1].cp));
        assert(g[1] == FeatureKey::spec_type_1(FeatureType::TypeNext1, seq[i + 1].ctype));
    }
    if i + 2 < seq.len() {
        assert(g[3] == FeatureKey::spec_char_1(FeatureType::CharNext2, seq[i + 2].cp));
        assert(g[4] == FeatureKey::spec_type_1(FeatureType::TypeNext2, seq[i + 2].ctype));
    }
    if i + 3 < seq.len() {
        assert(g[8] == FeatureKey::spec_char_1(FeatureType::CharNext3, seq[i + 3].cp));
        assert(g[9] == FeatureKey::spec_type_1(FeatureType::TypeNext3, seq[i + 3].ctype));
    }
}

proof fn lemma_mid_present(seq: Seq<SourceEntry>, i: int)
    requires
        0 <= i < seq.len(),
    ensures
        0 < i && i + 1 < seq.len() ==> spec_mid_group(seq, i).contains(
            FeatureKey::spec_char_3(FeatureType::TrigramPrev1SelfNext1, seq[i - 1].cp, seq[i].cp, seq[i + 1].cp),
        ),
{
    if 0 < i && i + 1 < seq.len() {
        assert(spec_mid_group(seq, i)[0] == FeatureKey::spec_char_3(
            FeatureType::TrigramPrev1SelfNext1,
            seq[i - 1].cp,
            seq[i].cp,
            seq[i + 1].cp,
        ));
    }
}

/// The keys of every unit: first the bias, the unit itself and its class;
/// and the keys about the units before and after unit `i` (their code points up to three units away, their classes
/// one unit away, and the trigram around `i`) are exactly those of the
/// neighbours that exist; none is made from a unit past either end.
pub proof fn lemma_neighbour_keys(seq: Seq<SourceEntry>, flags: Seq<u8>, i: int)
    requires
        0 <= i < seq.len(),
        flags.len() == seq.len(),
    ensures
        ({
            let ks = spec_unit_features(seq, flags, i);
            &&& ks[0] == FeatureKey::spec_zero(FeatureType::Bias)
            &&& ks[1] == spec_char_self_key(seq[i])
            &&& ks[2] == FeatureKey::spec_type_1(FeatureType::TypeSelf, seq[i].ctype)
            &&& forall|j: int| 0 <= j < ks.len() ==> spec_neighbour_ok(seq, i, #[trigger] ks[j])
            &&& i >= 1 ==> ks.contains(FeatureKey::spec_char_1(FeatureType::CharPrev1, seq[i - 1].cp))
            &&& i >= 2 ==> ks.contains(FeatureKey::spec_char_1(FeatureType::CharPrev2, seq[i - 2].cp))
            &&& i >= 3 ==> ks.contains(FeatureKey::spec_char_1(FeatureType::CharPrev3, seq[i - 3].cp))
            &&& i + 1 < seq.len() ==> ks.contains(FeatureKey::spec_char_1(FeatureType::CharNext1, seq[i + 1].cp))
            &&& i + 2 < seq.len() ==> ks.contains(FeatureKey::spec_char_1(FeatureType::CharNext2, seq[i + 2].cp))
            &&& i + 3 < seq.len() ==> ks.contains(FeatureKey::spec_char_1(FeatureType::CharNext3, seq[i + 3].cp))
            &&& i >= 1 ==> ks.contains(FeatureKey::spec_type_1(FeatureType::TypePrev1, seq[i - 1].ctype))
            &&& i + 1 < seq.len() ==> ks.contains(FeatureKey::spec_type_1(FeatureType::TypeNext1, seq[i + 1].ctype))
            &&& i >= 2 ==> ks.contains(FeatureKey::spec_type_1(FeatureType::TypePrev2, seq[i - 2].ctype))
            &&& i >= 3 ==> ks.contains(FeatureKey::spec_type_1(FeatureType::TypePrev3, seq[i - 3].ctype))
            &&& i + 2 < seq.len() ==> ks.contains(FeatureKey::spec_type_1(FeatureType::TypeNext2, seq[i + 2].ctype))
            &&& i + 3 < seq.len() ==> ks.contains(FeatureKey::spec_type_1(FeatureType::TypeNext3, seq[i + 3].ctype))
            &&& 0 < i && i + 1 < seq.len() ==> ks.contains(FeatureKey::spec_char_3(
                FeatureType::TrigramPrev1SelfNext1,
                seq[i - 1].cp,
                seq[i].cp,
                seq[i + 1].cp,
            ))
        }),
{
    let g1 = spec_self_group(seq, i);
    let g2 = spec_prev_group(seq, i);
    let g3 = spec_next_group(seq, i);
    let g4 = spec_mid_group(seq, i);
    let g5 = spec_kanji_group(seq, i);
    let g6 = spec_numeric_group(seq, i);
    let g7 = spec_name_group(seq, flags, i);
    let ks = spec_unit_features(seq, flags, i);
    lemma_group_ok_self(seq, flags, i);
    lemma_group_ok_prev(seq, flags, i);
    lemma_group_ok_next(seq, flags, i);
    lemma_group_ok_mid(seq, flags, i);
    lemma_group_ok_kanji(seq, flags, i);
    lemma_group_ok_numeric(seq, flags, i);
    lemma_group_ok_name(seq, flags, i);
    lemma_all_neighbour_ok(g1, g2, seq, i);
    lemma_all_neighbour_ok(g1 + g2, g3, seq, i);
    lemma_all_neighbour_ok(g1 + g2 + g3, g4, seq, i);
    lemma_all_neighbour_ok(g1 + g2 + g3 + g4, g5, seq, i);
    lemma_all_neighbour_ok(g1 + g2 + g3 + g4 + g5, g6, seq, i);
    lemma_all_neighbour_ok(g1 + g2 + g3 + g4 + g5 + g6, g7, seq, i);
    assert(ks == g1 + g2 + g3 + g4 + g5 + g6 + g7);
    assert(ks[0] == g1[0] && ks[1] == g1[1] && ks[2] == g1[2]);
    lemma_prev_present(seq, i);
    lemma_next_present(seq, i);
    lemma_mid_present(seq, i);
    lemma_concat_has(g1, g2);
    lemma_concat_has(g1 + g2, g3);
    lemma_concat_has(g1 + g2 + g3, g4);
    lemma_concat_has(g1 + g2 + g3 + g4, g5);
    lemma_concat_has(g1 + g2 + g3 + g4 + g5, g6);
    lemma_concat_has(g1 + g2 + g3 + g4 + g5 + g6, g7);
}

/// Where a key of each type stands among the keys of a unit: the keys of a
/// unit come in this order, and a type's rank is its place in it.
spec fn spec_type_rank(t: FeatureType) -> int {
    match t {
        FeatureType::Bias => 0,
        FeatureType::CharSelf => 1,
        FeatureType::CharSelfCompound2 => 1,
        FeatureType::CharSelfCompound3 => 1,
        FeatureType::TypeSelf => 2,
        FeatureType::CharPrev1 => 3,
        FeatureType::TypePrev1 => 4,
        FeatureType::BigramPrev1Self => 5,
        FeatureType::TypeTransition => 6,
        FeatureType::CharPrev2 => 7,
        FeatureType::TypePrev2 => 8,
        FeatureType::BigramPrev2Prev1 => 9,
        FeatureType::TrigramPrev2Prev1Self => 10,
        FeatureType::TypeTriPrev2Prev1Self => 11,
        FeatureType::CharPrev3 => 12,
        FeatureType::TypePrev3 => 13,
        FeatureType::BigramPrev3Prev2 => 14,
        FeatureType::TrigramPrev3Prev2Prev1 => 15,
        FeatureType::TypeTriPrev3Prev2Prev1 => 16,
        FeatureType::CharNext1 => 17,
        FeatureType::TypeNext1 => 18,
        FeatureType::BigramSelfNext1 => 19,
        FeatureType::CharNext2 => 20,
        FeatureType::TypeNext2 => 21,
        FeatureType::BigramNext1Next2 => 22,
        FeatureType::TrigramSelfNext1Next2 => 23,
        FeatureType::TypeTriSelfNext1Next2 => 24,
        FeatureType::CharNext3 => 25,
        FeatureType::TypeNext3 => 26,
        FeatureType::BigramNext2Next3 => 27,
        FeatureType::TrigramNext1Next2Next3 => 28,
        FeatureType::TypeTriNext1Next2Next3 => 29,
        FeatureType::TrigramPrev1SelfNext1 => 30,
        FeatureType::TypeTriPrev1SelfNext1 => 31,
        FeatureType::KanjiRunLen => 32,
        FeatureType::KanjiPosFirst => 33,
        FeatureType::PrevJapaneseNumericRunLen => 34,
        FeatureType::JapaneseNumericRunLen => 35,
        FeatureType::NameFlagSelf => 36,
        FeatureType::NameFlagPrev1 => 37,
        FeatureType::NameFlagNext1 => 38,
    }
}

/// The ranks of the types of `ks` strictly increase and lie in `lo..hi`.
spec fn spec_ranks_rise(ks: Seq<FeatureKey>, lo: int, hi: int) -> bool {
    &&& forall|a: int, b: int|
        0 <= a < b < ks.len() ==> spec_type_rank((#[trigger] ks[a]).feature_type) < spec_type_rank(
            (#[trigger] ks[b]).feature_type,
        )
    &&& forall|j: int|
        0 <= j < ks.len() ==> lo <= spec_type_rank((#[trigger] ks[j]).feature_type) < hi
}

proof fn lemma_ranks_concat(a: Seq<FeatureKey>, b: Seq<FeatureKey>, lo: int, mid: int, hi: int)
    requires
        lo <= mid <= hi,
        spec_ranks_rise(a, lo, mid),
        spec_ranks_rise(b, mid, hi),
    ensures
        spec_ranks_rise(a + b, lo, hi),
{
    let c = a + b;
    assert forall|x: int, y: int| 0 <= x < y < c.len() implies spec_type_rank(
        (#[trigger] c[x]).feature_type,
    ) < spec_type_rank((#[trigger] c[y]).feature_type) by {
        if y < a.len() {
            assert(c[x] == a[x] && c[y] == a[y]);
        } else if x < a.len() {
            assert(c[x] == a[x] && c[y] == b[y - a.len()]);
        } else {
            assert(c[x] == b[x - a.len()] && c[y] == b[y - a.len()]);
        }
    }
    assert forall|j: int| 0 <= j < c.len() implies lo <= spec_type_rank(
        (#[trigger] c[j]).feature_type,
    ) < hi by {
        if j < a.len() {
            assert(c[j] == a[j]);
        } else {
            assert(c[j] == b[j - a.len()]);
        }
    }
}

proof fn lemma_ranks_prev(seq: Seq<SourceEntry>, i: int)
    ensures
        spec_ranks_rise(spec_prev_group(seq, i), 3, 17),
{
    let g = spec_prev_group(seq, i);
    if i > 0 {
        let c = spec_cp_at(seq, i);
        let t = spec_ct_at(seq, i);
        let p1 = spec_cp_at(seq, i - 1);
        let q1 = spec_ct_at(seq, i - 1);
        let p2 = spec_cp_at(seq, i - 2);
        let q2 = spec_ct_at(seq, i - 2);
        let p3 = spec_cp_at(seq, i - 3);
        let q3 = spec_ct_at(seq, i - 3);
        let g1 = seq![
            FeatureKey::spec_char_1(FeatureType::CharPrev1, p1),
            FeatureKey::spec_type_1(FeatureType::TypePrev1, q1),
            FeatureKey::spec_char_2(FeatureType::BigramPrev1Self, p1, c),
            FeatureKey::spec_type_2(FeatureType::TypeTransition, q1, t),
        ];
        let g2 = seq![
            FeatureKey::spec_char_1(FeatureType::CharPrev2, p2),
            FeatureKey::spec_type_1(FeatureType::TypePrev2, q2),
            FeatureKey::spec_char_2(FeatureType::BigramPrev2Prev1, p2, p1),
            FeatureKey::spec_char_3(FeatureType::TrigramPrev2Prev1Self, p2, p1, c),
            FeatureKey::spec_type_3(FeatureType::TypeTriPrev2Prev1Self, q2, q1, t),
        ];
        let g3 = seq![
            FeatureKey::spec_char_1(FeatureType::CharPrev3, p3),
            FeatureKey::spec_type_1(FeatureType::TypePrev3, q3),
            FeatureKey::spec_char_2(FeatureType::BigramPrev3Prev2, p3, p2),
            FeatureKey::spec_char_3(FeatureType::TrigramPrev3Prev2Prev1, p3, p2, p1),
            FeatureKey::spec_type_3(FeatureType::TypeTriPrev3Prev2Prev1, q3, q2, q1),
        ];
        assert(spec_ranks_rise(g1, 3, 7));
        assert(spec_ranks_rise(g2, 7, 12));
        assert(spec_ranks_rise(g3, 12, 17));
        let tail3: Seq<FeatureKey> = if i > 2 { g3 } else { Seq::empty() };
        let tail2: Seq<FeatureKey> = if i > 1 { g2 + tail3 } else { Seq::empty() };
        lemma_ranks_concat(g2, tail3, 7, 12, 17);
        lemma_ranks_concat(g1, tail2, 3, 7, 17);
        assert(g == g1 + tail2);
    }
}

proof fn lemma_ranks_next(seq: Seq<SourceEntry>, i: int)
    ensures
        spec_ranks_rise(spec_next_group(seq, i), 17, 30),
{
    let n = seq.len();
    let g = spec_next_group(seq, i);
    if i + 1 < n {
        let c = spec_cp_at(seq, i);
        let t = spec_ct_at(seq, i);
        let n1 = spec_cp_at(seq, i + 1);
        let u1 = spec_ct_at(seq, i + 1);
        let n2 = spec_cp_at(seq, i + 2);
        let u2 = spec_ct_at(seq, i + 2);
        let n3 = spec_cp_at(seq, i + 3);
        let u3 = spec_ct_at(seq, i + 3);
        let g1 = seq![
            FeatureKey::spec_char_1(FeatureType::CharNext1, n1),
            FeatureKey::spec_type_1(FeatureType::TypeNext1, u1),
            FeatureKey::spec_char_2(FeatureType::BigramSelfNext1, c, n1),
        ];
        let g2 = seq![
            FeatureKey::spec_char_1(FeatureType::CharNext2, n2),
            FeatureKey::spec_type_1(FeatureType::TypeNext2, u2),
            FeatureKey::spec_char_2(FeatureType::BigramNext1Next2, n1, n2),
            FeatureKey::spec_char_3(FeatureType::TrigramSelfNext1Next2, c, n1, n2),
            FeatureKey::spec_type_3(FeatureType::TypeTriSelfNext1Next2, t, u1, u2),
        ];
        let g3 = seq![
            FeatureKey::spec_char_1(FeatureType::CharNext3, n3),
            FeatureKey::spec_type_1(FeatureType::TypeNext3, u3),
            FeatureKey::spec_char_2(FeatureType::BigramNext2Next3, n2, n3),
            FeatureKey::spec_char_3(FeatureType::TrigramNext1Next2Next3, n1, n2, n3),
            FeatureKey::spec_type_3(FeatureType::TypeTriNext1Next2Next3, u1, u2, u3),
        ];
        assert(spec_ranks_rise(g1, 17, 20));
        assert(spec_ranks_rise(g2, 20, 25));
        assert(spec_ranks_rise(g3, 25, 30));
        let tail3: Seq<FeatureKey> = if i + 3 < n { g3 } else { Seq::empty() };
        let tail2: Seq<FeatureKey> = if i + 2 < n { g2 + tail3 } else { Seq::empty() };
        lemma_ranks_concat(g2, tail3, 20, 25, 30);
        lemma_ranks_concat(g1, tail2, 17, 20, 30);
        assert(g == g1 + tail2);
    }
}

proof fn lemma_ranks_tail(seq: Seq<SourceEntry>, flags: Seq<u8>, i: int)
    requires
        0 <= i < seq.len(),
        flags.len() == seq.len(),
    ensures
        spec_ranks_rise(
            spec_mid_group(seq, i) + spec_kanji_group(seq, i) + spec_numeric_group(seq, i)
                + spec_name_group(seq, flags, i),
            30,
            39,
        ),
{
    let m = spec_mid_group(seq, i);
    assert(spec_ranks_rise(m, 30, 32));
    let ka = if seq[i].ctype == CharType::Kanji {
        seq![
            FeatureKey::spec_u8(
                FeatureType::KanjiRunLen,
                spec_clamp_run(spec_run_len(seq, i, CharType::Kanji)),
            ),
        ]
    } else {
        Seq::<FeatureKey>::empty()
    };
    let kb = if seq[i].ctype == CharType::Kanji && (i == 0 || seq[i - 1].ctype != CharType::Kanji) {
        seq![FeatureKey::spec_zero(FeatureType::KanjiPosFirst)]
    } else {
        Seq::<FeatureKey>::empty()
    };
    let kc = if seq[i].ctype == CharType::Kanji && i > 0 && seq[i - 1].ctype == CharType::JapaneseNumeric {
        seq![
            FeatureKey::spec_u8(
                FeatureType::PrevJapaneseNumericRunLen,
                spec_clamp_run(spec_count_before(seq, i, CharType::JapaneseNumeric)),
            ),
        ]
    } else {
        Seq::<FeatureKey>::empty()
    };
    assert(spec_ranks_rise(ka, 32, 33));
    assert(spec_ranks_rise(kb, 33, 34));
    assert(spec_ranks_rise(kc, 34, 35));
    lemma_ranks_concat(ka, kb, 32, 33, 34);
    lemma_ranks_concat(ka + kb, kc, 32, 34, 35);
    let k = spec_kanji_group(seq, i);
    assert(k == ka + kb + kc);
    let nu = spec_numeric_group(seq, i);
    assert(spec_ranks_rise(nu, 35, 36));
    let na = if flags[i] != NAME_FLAG_OUT {
        seq![FeatureKey::spec_u8(FeatureType::NameFlagSelf, flags[i])]
    } else {
        Seq::<FeatureKey>::empty()
    };
    let nb = if i > 0 && flags[i - 1] != NAME_FLAG_OUT {
        seq![FeatureKey::spec_u8(FeatureType::NameFlagPrev1, flags[i - 1])]
    } else {
        Seq::<FeatureKey>::empty()
    };
    let nc = if i + 1 < seq.len() && flags[i + 1] != NAME_FLAG_OUT {
        seq![FeatureKey::spec_u8(FeatureType::NameFlagNext1, flags[i + 1])]
    } else {
        Seq::<FeatureKey>::empty()
    };
    assert(spec_ranks_rise(na, 36, 37));
    assert(spec_ranks_rise(nb, 37, 38));
    assert(spec_ranks_rise(nc, 38, 39));
    lemma_ranks_concat(na, nb, 36, 37, 38);
    lemma_ranks_concat(na + nb, nc, 36, 38, 39);
    assert(spec_name_group(seq, flags, i) == na + nb + nc);
    lemma_ranks_concat(m, k, 30, 32, 35);
    lemma_ranks_concat(m + k, nu, 30, 35, 36);
    lemma_ranks_concat(m + k + nu, spec_name_group(seq, flags, i), 30, 36, 39);
}

/// No two keys of a unit share a feature type.
pub proof fn lemma_feature_types_distinct(seq: Seq<SourceEntry>, flags: Seq<u8>, i: int)
    requires
        0 <= i < seq.len(),
        flags.len() == seq.len(),
    ensures
        ({
            let ks = spec_unit_features(seq, flags, i);
            forall|a: int, b: int|
                0 <= a < b < ks.len() ==> (#[trigger] ks[a]).feature_type != (#[trigger] ks[b]).feature_type
        }),
{
    let s = spec_self_group(seq, i);
    assert(spec_char_self_key(seq[i]).feature_type == FeatureType::CharSelf || spec_char_self_key(seq[i]).feature_type
        == FeatureType::CharSelfCompound2 || spec_char_self_key(seq[i]).feature_type == FeatureType::CharSelfCompound3);
    assert(spec_ranks_rise(s, 0, 3));
    lemma_ranks_prev(seq, i);
    lemma_ranks_next(seq, i);
    lemma_ranks_tail(seq, flags, i);
    let p = spec_prev_group(seq, i);
    let nx = spec_next_group(seq, i);
    let tl = spec_mid_group(seq, i) + spec_kanji_group(seq, i) + spec_numeric_group(seq, i)
        + spec_name_group(seq, flags, i);
    lemma_ranks_concat(s, p, 0, 3, 17);
    lemma_ranks_concat(s + p, nx, 0, 17, 30);
    lemma_ranks_concat(s + p + nx, tl, 0, 30, 39);
    let ks = spec_unit_features(seq, flags, i);
    assert(ks =~= s + p + nx + tl);
}

/// The types whose key carries a one-byte payload.
pub open spec fn spec_is_u8_type(t: FeatureType) -> bool {
    ||| t == FeatureType::KanjiRunLen
    ||| t == FeatureType::JapaneseNumericRunLen
    ||| t == FeatureType::PrevJapaneseNumericRunLen
    ||| t == FeatureType::NameFlagSelf
    ||| t == FeatureType::NameFlagPrev1
    ||| t == FeatureType::NameFlagNext1
}

spec fn spec_payload_ok(x: FeatureKey) -> bool {
    spec_is_u8_type(x.feature_type) ==> 1 <= x.u8val <= 5
}

proof fn lemma_payload_concat(a: Seq<FeatureKey>, b: Seq<FeatureKey>)
    requires
        forall|j: int| 0 <= j < a.len() ==> spec_payload_ok(#[trigger] a[j]),
        forall|j: int| 0 <= j < b.len() ==> spec_payload_ok(#[trigger] b[j]),
    ensures
        forall|j: int| 0 <= j < (a + b).len() ==> spec_payload_ok(#[trigger] (a + b)[j]),
{
    assert forall|j: int| 0 <= j < (a + b).len() implies spec_payload_ok(#[trigger] (a + b)[j]) by {
        if j < a.len() {
            assert((a + b)[j] == a[j]);
        } else {
            assert((a + b)[j] == b[j - a.len()]);
        }
    }
}

proof fn lemma_payload_low(ks: Seq<FeatureKey>, hi: int)
    requires
        hi <= 32,
        spec_ranks_rise(ks, 0, hi),
    ensures
        forall|j: int| 0 <= j < ks.len() ==> spec_payload_ok(#[trigger] ks[j]),
{
    assert forall|j: int| 0 <= j < ks.len() implies spec_payload_ok(#[trigger] ks[j]) by {
        assert(spec_type_rank(ks[j].feature_type) < 32);
    }
}

/// Every key with a one-byte payload carries a value from 1 to 5: a run
/// length counts the unit itself (or the numeral before it) and is capped
/// at 5, and a name flag that is set is one of the flags given, all of
/// them at most 5.
pub proof fn lemma_u8_payloads(seq: Seq<SourceEntry>, flags: Seq<u8>, i: int)
    requires
        0 <= i < seq.len(),
        flags.len() == seq.len(),
        forall|j: int| 0 <= j < flags.len() ==> #[trigger] flags[j] <= 5,
    ensures
        ({
            let ks = spec_unit_features(seq, flags, i);
            forall|j: int|
                0 <= j < ks.len() && spec_is_u8_type((#[trigger] ks[j]).feature_type) ==> 1 <= ks[j].u8val <= 5
        }),
{
    let s = spec_self_group(seq, i);
    let p = spec_prev_group(seq, i);
    let nx = spec_next_group(seq, i);
    assert(spec_char_self_key(seq[i]).feature_type == FeatureType::CharSelf || spec_char_self_key(seq[i]).feature_type
        == FeatureType::CharSelfCompound2 || spec_char_self_key(seq[i]).feature_type == FeatureType::CharSelfCompound3);
    assert(spec_ranks_rise(s, 0, 3));
    lemma_ranks_prev(seq, i);
    lemma_ranks_next(seq, i);
    lemma_ranks_concat(s, p, 0, 3, 17);
    lemma_ranks_concat(s + p, nx, 0, 17, 30);
    lemma_payload_low(s + p + nx, 30);
    let m = spec_mid_group(seq, i);
    assert(spec_ranks_rise(m, 30, 32));
    lemma_payload_low(m, 32);
    let k = spec_kanji_group(seq, i);
    assert forall|j: int| 0 <= j < k.len() implies spec_payload_ok(#[trigger] k[j]) by {
        if i > 0 && seq[i - 1].ctype == CharType::JapaneseNumeric {
            assert(spec_count_before(seq, i, CharType::JapaneseNumeric) >= 1);
        }
    }
    let nu = spec_numeric_group(seq, i);
    assert forall|j: int| 0 <= j < nu.len() implies spec_payload_ok(#[trigger] nu[j]) by {}
    let nm = spec_name_group(seq, flags, i);
    assert forall|j: int| 0 <= j < nm.len() implies spec_payload_ok(#[trigger] nm[j]) by {
        assert(flags[i] <= 5);
        if i > 0 {
            assert(flags[i - 1] <= 5);
        }
        if i + 1 < seq.len() {
            assert(flags[i + 1] <= 5);
        }
    }
    lemma_payload_concat(s + p + nx, m);
    lemma_payload_concat(s + p + nx + m, k);
    lemma_payload_concat(s + p + nx + m + k, nu);
    lemma_payload_concat(s + p + nx + m + k + nu, nm);
    let ks = spec_unit_features(seq, flags, i);
    assert(ks =~= s + p + nx + m + k + nu + nm);
}

/// Number of units of class `t` right before unit `i`.
fn count_before(seq: &[SourceEntry], i: usize, t: CharType) -> (r: usize)
    requires
        i <= seq@.len(),
    ensures
        r == spec_count_before(seq@, i as int, t),
        r <= i,
{
    let mut j = i;
    while j > 0 && seq[j - 1].ctype == t
        invariant
            j <= i <= seq@.len(),
            spec_count_before(seq@, i as int, t) == (i - j) + spec_count_before(seq@, j as int, t),
        decreases j,
    {
        j = j - 1;
    }
    i - j
}

/// Number of units of class `t` right after unit `i`.
fn count_after(seq: &[SourceEntry], i: usize, t: CharType) -> (r: usize)
    requires
        i < seq@.len(),
    ensures
        r == spec_count_after(seq@, i as int, t),
        i + r < seq@.len(),
{
    let n = seq.len();
    let mut j = i;
    while j + 1 < n && seq[j + 1].ctype == t
        invariant
            n == seq@.len(),
            i <= j < n,
            spec_count_after(seq@, i as int, t) == (j - i) + spec_count_after(seq@, j as int, t),
        decreases n - j,
    {
        j = j + 1;
    }
    j - i
}

/// Length of the kanji run that holds unit `i`.
fn kanji_run_length(seq: &[SourceEntry], i: usize) -> (r: usize)
    requires
        i < seq@.len(),
    ensures
        r == spec_run_len(seq@, i as int, CharType::Kanji),
{
    let _n = seq.len();
    let before = count_before(seq, i, CharType::Kanji);
    let after = count_after(seq, i, CharType::Kanji);
    before + (after + 1)
}

/// Length of the kanji-numeral run that holds unit `i`.
fn numeric_run_length(seq: &[SourceEntry], i: usize) -> (r: usize)
    requires
        i < seq@.len(),
    ensures
        r == spec_run_len(seq@, i as int, CharType::JapaneseNumeric),
{
    let _n = seq.len();
    let before = count_before(seq, i, CharType::JapaneseNumeric);
    let after = count_after(seq, i, CharType::JapaneseNumeric);
    before + (after + 1)
}

/// Clamps a run length to 1..=5, five standing for five and more.
pub fn clamp_run(run: usize) -> (r: u8)
    ensures
        r == spec_clamp_run(run as nat),
{
    if run <= 4 {
        run as u8
    } else {
        5
    }
}


fn cp_at(seq: &[SourceEntry], j: usize, ok: bool) -> (r: u32)
    requires
        ok ==> j < seq@.len(),
    ensures
        ok ==> r == spec_cp_at(seq@, j as int),
        !ok ==> r == 0,
{
    if ok { seq[j].cp } else { 0 }
}

fn ct_at(seq: &[SourceEntry], j: usize, ok: bool) -> (r: CharType)
    requires
        ok ==> j < seq@.len(),
    ensures
        ok ==> r == spec_ct_at(seq@, j as int),
        !ok ==> r == CharType::Other,
{
    if ok { seq[j].ctype } else { CharType::Other }
}

fn push_self_group(feats: &mut Vec<FeatureKey>, seq: &[SourceEntry], i: usize)
    requires
        i < seq@.len(),
    ensures
        final(feats)@ == old(feats)@ + spec_self_group(seq@, i as int),
{
    let e = seq[i];
    feats.push(FeatureKey::no_payload(FeatureType::Bias));
    if e.compound_len == 2 {
        feats.push(FeatureKey::char_2(FeatureType::CharSelfCompound2, e.cp, e.cp2));
    } else if e.compound_len == 3 {
        feats.push(FeatureKey::char_3(FeatureType::CharSelfCompound3, e.cp, e.cp2, e.cp3));
    } else {
        feats.push(FeatureKey::char_1(FeatureType::CharSelf, e.cp));
    }
    feats.push(FeatureKey::type_1(FeatureType::TypeSelf, e.ctype));
    proof {
        assert(final(feats)@ =~= old(feats)@ + spec_self_group(seq@, i as int));
    }
}

fn push_prev_group(feats: &mut Vec<FeatureKey>, seq: &[SourceEntry], i: usize)
    requires
        i < seq@.len(),
    ensures
        final(feats)@ == old(feats)@ + spec_prev_group(seq@, i as int),
{
    let ghost s = seq@;
    let c = seq[i].cp;
    let t = seq[i].ctype;
    let p1 = cp_at(seq, if i > 0 { i - 1 } else { 0 }, i > 0);
    let q1 = ct_at(seq, if i > 0 { i - 1 } else { 0 }, i > 0);
    let p2 = cp_at(seq, if i > 1 { i - 2 } else { 0 }, i > 1);
    let q2 = ct_at(seq, if i > 1 { i - 2 } else { 0 }, i > 1);
    let p3 = cp_at(seq, if i > 2 { i - 3 } else { 0 }, i > 2);
    let q3 = ct_at(seq, if i > 2 { i - 3 } else { 0 }, i > 2);
    if i > 0 {
        feats.push(FeatureKey::char_1(FeatureType::CharPrev1, p1));
        feats.push(FeatureKey::type_1(FeatureType::TypePrev1, q1));
        feats.push(FeatureKey::char_2(FeatureType::BigramPrev1Self, p1, c));
        feats.push(FeatureKey::type_2(FeatureType::TypeTransition, q1, t));
        if i > 1 {
            feats.push(FeatureKey::char_1(FeatureType::CharPrev2, p2));
            feats.push(FeatureKey::type_1(FeatureType::TypePrev2, q2));
            feats.push(FeatureKey::char_2(FeatureType::BigramPrev2Prev1, p2, p1));
            feats.push(FeatureKey::char_3(FeatureType::TrigramPrev2Prev1Self, p2, p1, c));
            feats.push(FeatureKey::type_3(FeatureType::TypeTriPrev2Prev1Self, q2, q1, t));
            if i > 2 {
                feats.push(FeatureKey::char_1(FeatureType::CharPrev3, p3));
                feats.push(FeatureKey::type_1(FeatureType::TypePrev3, q3));
                feats.push(FeatureKey::char_2(FeatureType::BigramPrev3Prev2, p3, p2));
                feats.push(FeatureKey::char_3(FeatureType::TrigramPrev3Prev2Prev1, p3, p2, p1));
                feats.push(FeatureKey::type_3(FeatureType::TypeTriPrev3Prev2Prev1, q3, q2, q1));
            }
        }
    }
    proof {
        assert(final(feats)@ =~= old(feats)@ + spec_prev_group(s, i as int));
    }
}

fn push_next_group(feats: &mut Vec<FeatureKey>, seq: &[SourceEntry], i: usize)
    requires
        i < seq@.len(),
    ensures
        final(feats)@ == old(feats)@ + spec_next_group(seq@, i as int),
{
    let ghost s = seq@;
    let n = seq.len();
    let c = seq[i].cp;
    let t = seq[i].ctype;
    let rem = n - 1 - i;
    let n1 = cp_at(seq, if rem >= 1 { i + 1 } else { 0 }, rem >= 1);
    let u1 = ct_at(seq, if rem >= 1 { i + 1 } else { 0 }, rem >= 1);
    let n2 = cp_at(seq, if rem >= 2 { i + 2 } else { 0 }, rem >= 2);
    let u2 = ct_at(seq, if rem >= 2 { i + 2 } else { 0 }, rem >= 2);
    let n3 = cp_at(seq, if rem >= 3 { i + 3 } else { 0 }, rem >= 3);
    let u3 = ct_at(seq, if rem >= 3 { i + 3 } else { 0 }, rem >= 3);
    if rem >= 1 {
        feats.push(FeatureKey::char_1(FeatureType::CharNext1, n1));
        feats.push(FeatureKey::type_1(FeatureType::TypeNext1, u1));
        feats.push(FeatureKey::char_2(FeatureType::BigramSelfNext1, c, n1));
        if rem >= 2 {
            feats.push(FeatureKey::char_1(FeatureType::CharNext2, n2));
            feats.push(FeatureKey::type_1(FeatureType::TypeNext2, u2));
            feats.push(FeatureKey::char_2(FeatureType::BigramNext1Next2, n1, n2));
            feats.push(FeatureKey::char_3(FeatureType::TrigramSelfNext1Next2, c, n1, n2));
            feats.push(FeatureKey::type_3(FeatureType::TypeTriSelfNext1Next2, t, u1, u2));
            if rem >= 3 {
                feats.push(FeatureKey::char_1(FeatureType::CharNext3, n3));
                feats.push(FeatureKey::type_1(FeatureType::TypeNext3, u3));
                feats.push(FeatureKey::char_2(FeatureType::BigramNext2Next3, n2, n3));
                feats.push(FeatureKey::char_3(FeatureType::TrigramNext1Next2Next3, n1, n2, n3));
                feats.push(FeatureKey::type_3(FeatureType::TypeTriNext1Next2Next3, u1, u2, u3));
            }
        }
    }
    proof {
        assert(final(feats)@ =~= old(feats)@ + spec_next_group(s, i as int));
    }
}

fn push_run_groups(feats: &mut Vec<FeatureKey>, seq: &[SourceEntry], i: usize)
    requires
        i < seq@.len(),
    ensures
        final(feats)@ == old(feats)@ + spec_mid_group(seq@, i as int) + spec_kanji_group(
            seq@,
            i as int,
        ) + spec_numeric_group(seq@, i as int),
{
    let ghost s = seq@;
    let n = seq.len();
    let ctype = seq[i].ctype;
    if i > 0 && i + 1 < n {
        feats.push(
            FeatureKey::char_3(
                FeatureType::TrigramPrev1SelfNext1,
                seq[i - 1].cp,
                seq[i].cp,
                seq[i + 1].cp,
            ),
        );
        feats.push(
            FeatureKey::type_3(
                FeatureType::TypeTriPrev1SelfNext1,
                seq[i - 1].ctype,
                ctype,
                seq[i + 1].ctype,
            ),
        );
    }
    let ghost after_mid = feats@;
    if ctype == CharType::Kanji {
        let run = kanji_run_length(seq, i);
        feats.push(FeatureKey::u8_payload(FeatureType::KanjiRunLen, clamp_run(run)));
        if i == 0 || seq[i - 1].ctype != CharType::Kanji {
            feats.push(FeatureKey::no_payload(FeatureType::KanjiPosFirst));
        }
        if i > 0 && seq[i - 1].ctype == CharType::JapaneseNumeric {
            let num_run = count_before(seq, i, CharType::JapaneseNumeric);
            feats.push(
                FeatureKey::u8_payload(FeatureType::PrevJapaneseNumericRunLen, clamp_run(num_run)),
            );
        }
    }
    let ghost after_kanji = feats@;
    if ctype == CharType::JapaneseNumeric {
        let run = numeric_run_length(seq, i);
        feats.push(FeatureKey::u8_payload(FeatureType::JapaneseNumericRunLen, clamp_run(run)));
    }
    proof {
        assert(after_mid =~= old(feats)@ + spec_mid_group(s, i as int));
        assert(after_kanji =~= after_mid + spec_kanji_group(s, i as int));
        assert(feats@ =~= after_kanji + spec_numeric_group(s, i as int));
        assert(final(feats)@ =~= old(feats)@ + spec_mid_group(s, i as int) + spec_kanji_group(
            s,
            i as int,
        ) + spec_numeric_group(s, i as int));
    }
}

fn push_name_group(feats: &mut Vec<FeatureKey>, seq: &[SourceEntry], flags: &[u8], i: usize)
    requires
        i < seq@.len(),
        flags@.len() == seq@.len(),
    ensures
        final(feats)@ == old(feats)@ + spec_name_group(seq@, flags@, i as int),
{
    let n = seq.len();
    if flags[i] != NAME_FLAG_OUT {
        feats.push(FeatureKey::u8_payload(FeatureType::NameFlagSelf, flags[i]));
    }
    if i > 0 && flags[i - 1] != NAME_FLAG_OUT {
        feats.push(FeatureKey::u8_payload(FeatureType::NameFlagPrev1, flags[i - 1]));
    }
    if i + 1 < n && flags[i + 1] != NAME_FLAG_OUT {
        feats.push(FeatureKey::u8_payload(FeatureType::NameFlagNext1, flags[i + 1]));
    }
    proof {
        assert(final(feats)@ =~= old(feats)@ + spec_name_group(seq@, flags@, i as int));
    }
}

/// All feature keys of unit `i` (see [`spec_unit_features`]).
fn unit_features(seq: &[SourceEntry], flags: &[u8], i: usize) -> (r: Vec<FeatureKey>)
    requires
        i < seq@.len(),
        flags@.len() == seq@.len(),
    ensures
        r@ == spec_unit_features(seq@, flags@, i as int),
{
    let mut feats: Vec<FeatureKey> = Vec::new();
    push_self_group(&mut feats, seq, i);
    push_prev_group(&mut feats, seq, i);
    push_next_group(&mut feats, seq, i);
    push_run_groups(&mut feats, seq, i);
    push_name_group(&mut feats, seq, flags, i);
    proof {
        assert(feats@ =~= spec_unit_features(seq@, flags@, i as int));
    }
    feats
}

/// The feature keys of every unit of `seq`: entry `i` of the result holds
/// those of unit `i`. `name_flags` holds the name-dictionary flag of each
/// unit.
pub fn compute_source_features(seq: &[SourceEntry], name_flags: &[u8]) -> (r: Vec<Vec<FeatureKey>>)
    requires
        name_flags@.len() == seq@.len(),
    ensures
        r@.len() == seq@.len(),
        forall|i: int|
            0 <= i < seq@.len() ==> #[trigger] r@[i]@ == spec_unit_features(seq@, name_flags@, i),
{
    let n = seq.len();
    let mut result: Vec<Vec<FeatureKey>> = Vec::new();
    let mut i: usize = 0;
    while i < n
        invariant
            n == seq@.len(),
            name_flags@.len() == n,
            i <= n,
            result@.len() == i,
            forall|k: int|
                0 <= k < i ==> #[trigger] result@[k]@ == spec_unit_features(seq@, name_flags@, k),
        decreases n - i,
    {
        result.push(unit_features(seq, name_flags, i));
        i = i + 1;
    }
    result
}

} // verus!
