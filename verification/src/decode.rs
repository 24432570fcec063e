//! From the models' answers to the reading: the decisions taken unit by unit.
//!
//! For every unit the caller gives what the models said of it
//! ([`UnitScore`]): the reading class chosen, its confidence, whether that
//! confidence is below the numeral threshold and below one half, and whether
//! the boundary model puts a space after the unit. [`decide_readings`] then
//! writes the reading, unit by unit:
//!
//! - units that are skipped leave nothing; symbols and spaces are written
//!   as they are; katakana and Latin letters are written as they are, the
//!   boundary model deciding the space after them;
//! - an unsure kanji numeral takes its rule-based reading, unless the next
//!   unit reads as a kun counter (三日 みっか);
//! - a digit keeps its digit when the model's reading is another digit, or a
//!   kana reading not followed by a kun counter;
//! - a unit read "---" (part of the previous reading) is written as itself
//!   when there is no kanji to join, a digit is written as itself, and a
//!   small kana is added to the previous reading;
//! - a unit read "_" is dropped, but a digit is written as itself;
//! - otherwise the reading is the model's, with 々 repeating the previous
//!   kanji's reading when the model's is not a valid repeat, hiragana read
//!   directly when the model's reading of it is not valid, and the name
//!   dictionary's reading where the model is unsure inside a name.
//!
//! A space follows a written unit where the boundary model says so. The
//! result keeps, for every byte of the reading, the byte offset of the source
//! unit it came from, its confidence and the reason of the choice.

use vstd::prelude::*;

use crate::char_type::CharType;
use crate::prediction::{invert_index, space_table, spec_inverse, spec_space_table, spec_trim, string_of_chars, trim_boundary_spaces_of, PredictionResult};
use crate::featurize::SourceEntry;
use crate::numeric::{
    convert_japanese_numeric, is_digit_label, is_kun_counter_signal, spec_fallback_text,
    spec_is_digit_label, spec_is_kun_counter_signal, spec_numeric_fallback, NumericFallback,
};
use crate::reading::{
    hiragana_direct, is_counter_small_kana, is_small_kana, is_valid_kana_prediction,
    is_valid_repeat, katakana_passthrough, small_kana_to_kana, spec_hiragana_to_katakana,
    spec_is_small_kana, spec_small_kana_to_kana, spec_unit_cps, spec_valid_chars,
    spec_valid_kana_prediction, spec_valid_repeat, DecisionSource,
};
use crate::text::{byte_len, lemma_byte_len_concat, char_from_u32, chars_of, push_char, str_byte_len, str_eq, utf8_width, char_width};

verus! {

/// The bit pattern of the confidence 1.0 (`f32`).
pub const CONFIDENCE_ONE: u32 = 0x3F80_0000;

/// What the models said of one unit.
#[derive(Debug, Clone)]
pub struct UnitScore {
    /// The reading class chosen (empty when the class has no label).
    pub label: String,
    /// Its confidence, as the bits of an `f32`.
    pub confidence_bits: u32,
    /// The confidence is below the threshold of the numeral rules.
    pub below_numeric_threshold: bool,
    /// The confidence is below one half.
    pub below_half: bool,
    /// The boundary model puts a space after the unit.
    pub split_after: bool,
}

/// What the contracts see of a [`UnitScore`].
pub struct ScoreView {
    pub label: Seq<char>,
    pub conf: u32,
    pub low_numeric: bool,
    pub low: bool,
    pub split: bool,
}

pub open spec fn spec_score_view(u: UnitScore) -> ScoreView {
    ScoreView {
        label: u.label@,
        conf: u.confidence_bits,
        low_numeric: u.below_numeric_threshold,
        low: u.below_half,
        split: u.split_after,
    }
}

/// The reading being written, and what the rules remember.
pub struct DecodeState {
    pub kana: Seq<char>,
    pub srcs: Seq<usize>,
    pub confs: Seq<u32>,
    pub decs: Seq<DecisionSource>,
    /// Unit whose reading a following "---" joins.
    pub parent: Option<int>,
    pub parent_bypass: bool,
    pub parent_kanji: bool,
    pub parent_small: bool,
    /// Byte and character length of the reading right after the parent's.
    pub parent_end: int,
    pub parent_end_chars: int,
    /// Reading of the last kanji, for 々.
    pub last: Seq<char>,
}

pub open spec fn spec_initial() -> DecodeState {
    DecodeState {
        kana: Seq::empty(),
        srcs: Seq::empty(),
        confs: Seq::empty(),
        decs: Seq::empty(),
        parent: None,
        parent_bypass: false,
        parent_kanji: false,
        parent_small: false,
        parent_end: 0,
        parent_end_chars: 0,
        last: Seq::empty(),
    }
}

/// `st` with `s` written, every byte credited to `src`.
pub open spec fn spec_emit(st: DecodeState, s: Seq<char>, src: usize, conf: u32, dec: DecisionSource) -> DecodeState {
    let w = byte_len(s);
    DecodeState {
        kana: st.kana + s,
        srcs: st.srcs + Seq::new(w, |j: int| src),
        confs: st.confs + Seq::new(w, |j: int| conf),
        decs: st.decs + Seq::new(w, |j: int| dec),
        ..st
    }
}

/// The text of a code point: the character, or U+FFFD for no character.
pub open spec fn spec_cp_char(cp: u32) -> char {
    if cp > 0x10FFFF || (0xD800 <= cp && cp <= 0xDFFF) {
        '\u{FFFD}'
    } else {
        cp as char
    }
}

/// The text of a code point as the counter checks see it: the character, or
/// nothing for no character.
pub open spec fn spec_cp_text(cp: u32) -> Seq<char> {
    if cp > 0x10FFFF || (0xD800 <= cp && cp <= 0xDFFF) {
        Seq::empty()
    } else {
        seq![cp as char]
    }
}

/// `st` where unit `i` becomes the parent.
pub open spec fn spec_set_parent(st: DecodeState, i: int, bypass: bool, kanji: bool, small: bool) -> DecodeState {
    DecodeState {
        parent: Some(i),
        parent_bypass: bypass,
        parent_kanji: kanji,
        parent_small: small,
        parent_end: st.srcs.len() as int,
        parent_end_chars: st.kana.len() as int,
        ..st
    }
}

/// A boundary space after unit `e`, if the boundary model says so.
pub open spec fn spec_space(st: DecodeState, e: SourceEntry, split: bool, conf: u32, dec: DecisionSource) -> DecodeState {
    if split {
        spec_emit(st, seq![' '], e.orig_idx as usize, conf, dec)
    } else {
        st
    }
}

/// `st` with the small kana `c` added right after the parent's reading.
pub open spec fn spec_insert_small(st: DecodeState, c: char, src: usize, conf: u32, dec: DecisionSource) -> DecodeState {
    let w = utf8_width(c);
    let p = st.parent_end;
    DecodeState {
        kana: st.kana.insert(st.parent_end_chars, c),
        srcs: st.srcs.take(p) + Seq::new(w, |j: int| src) + st.srcs.skip(p),
        confs: st.confs.take(p) + Seq::new(w, |j: int| conf) + st.confs.skip(p),
        decs: st.decs.take(p) + Seq::new(w, |j: int| dec) + st.decs.skip(p),
        parent_end: p + w,
        parent_end_chars: st.parent_end_chars + 1,
        parent_small: true,
        ..st
    }
}

/// The model's reading of the next unit is a kun counter signal.
pub open spec fn spec_next_kun(seq: Seq<SourceEntry>, scores: Seq<ScoreView>, i: int) -> bool {
    i + 1 < seq.len() && spec_is_kun_counter_signal(spec_cp_text(seq[i + 1].cp), scores[i + 1].label)
}

pub open spec fn spec_label_continue() -> Seq<char> {
    seq!['-', '-', '-']
}

pub open spec fn spec_label_skip() -> Seq<char> {
    seq!['_']
}

/// Whether any character of `s` is a small kana.
pub open spec fn spec_has_small(s: Seq<char>) -> bool {
    exists|k: int| 0 <= k < s.len() && spec_is_small_kana(#[trigger] s[k] as u32)
}

/// The reading of a unit taken on the model's word, and why.
pub open spec fn spec_effective(st: DecodeState, e: SourceEntry, u: ScoreView, name: Option<Seq<char>>) -> (Seq<char>, DecisionSource) {
    let dec = if u.low { DecisionSource::LrLow } else { DecisionSource::Lr };
    if e.cp == 0x3005 && st.last.len() > 0 && !spec_valid_repeat(u.label, st.last) {
        (st.last, DecisionSource::FallbackRepeat)
    } else if e.ctype == CharType::Hiragana {
        let direct = spec_valid_chars(spec_unit_cps(e).map_values(|cp: u32| spec_hiragana_to_katakana(cp)));
        if spec_valid_kana_prediction(e, u.label, direct) {
            (u.label, dec)
        } else {
            (direct, DecisionSource::FallbackKana)
        }
    } else if name matches Some(r) && u.low && r != u.label {
        (name->Some_0, DecisionSource::DictName)
    } else {
        (u.label, dec)
    }
}

/// What unit `i` does to the state.
pub open spec fn spec_step(seq: Seq<SourceEntry>, names: Seq<Option<Seq<char>>>, scores: Seq<ScoreView>, st: DecodeState, i: int) -> DecodeState {
    let e = seq[i];
    let u = scores[i];
    let src = e.orig_idx as usize;
    if e.ctype == CharType::Skip {
        st
    } else if e.ctype.spec_is_bypass() {
        let s1 = spec_emit(st, seq![spec_cp_char(e.cp)], src, CONFIDENCE_ONE, DecisionSource::Bypass);
        DecodeState { last: Seq::empty(), ..spec_set_parent(s1, i, true, false, false) }
    } else if e.ctype == CharType::Katakana && !(e.cp == 0x30F5 || e.cp == 0x30F6) {
        let s1 = spec_emit(st, spec_valid_chars(spec_unit_cps(e)), src, CONFIDENCE_ONE, DecisionSource::Lr);
        let s2 = DecodeState {
            last: Seq::empty(),
            ..spec_set_parent(s1, i, false, false, e.compound_len >= 2 && spec_is_small_kana(e.cp2))
        };
        spec_space(s2, e, u.split, CONFIDENCE_ONE, DecisionSource::Lr)
    } else if e.ctype == CharType::Alpha {
        let s1 = spec_emit(st, seq![spec_cp_char(e.cp)], src, CONFIDENCE_ONE, DecisionSource::Lr);
        let s2 = DecodeState { last: Seq::empty(), ..spec_set_parent(s1, i, false, false, false) };
        spec_space(s2, e, u.split, CONFIDENCE_ONE, DecisionSource::Lr)
    } else if e.ctype == CharType::JapaneseNumeric && u.low_numeric && !(u.low_numeric && spec_next_kun(seq, scores, i)) {
        match spec_numeric_fallback(seq, i) {
            None => st,
            Some(f) => {
                let s1 = spec_emit(st, f, src, u.conf, DecisionSource::FallbackNumeric);
                let s2 = DecodeState { last: Seq::empty(), ..spec_set_parent(s1, i, false, false, false) };
                spec_space(s2, e, u.split, u.conf, DecisionSource::FallbackNumeric)
            },
        }
    } else if e.ctype == CharType::Numeric && u.label != spec_label_continue() && u.label != spec_label_skip()
        && (if spec_is_digit_label(u.label) { u.label != spec_cp_text(e.cp) } else { !spec_next_kun(seq, scores, i) }) {
        let s1 = spec_emit(st, seq![spec_cp_char(e.cp)], src, u.conf, DecisionSource::FallbackNumeric);
        let s2 = DecodeState { last: Seq::empty(), ..spec_set_parent(s1, i, false, false, false) };
        spec_space(s2, e, u.split, u.conf, DecisionSource::FallbackNumeric)
    } else if u.label == spec_label_continue() {
        if st.parent is None || st.parent_bypass || !st.parent_kanji {
            let s1 = spec_emit(st, seq![spec_cp_char(e.cp)], src, u.conf, DecisionSource::FallbackOrphan);
            let s2 = spec_set_parent(s1, i, false, e.ctype == CharType::Kanji, false);
            spec_space(s2, e, u.split, u.conf, DecisionSource::FallbackOrphan)
        } else if e.ctype == CharType::Numeric {
            spec_emit(st, seq![spec_cp_char(e.cp)], src, u.conf, DecisionSource::Lr)
        } else if spec_is_small_kana(e.cp) && !st.parent_small {
            spec_insert_small(
                st,
                spec_cp_char(spec_small_kana_to_kana(e.cp)),
                seq[st.parent->Some_0].orig_idx as usize,
                u.conf,
                DecisionSource::Lr,
            )
        } else {
            st
        }
    } else if u.label == spec_label_skip() {
        if e.ctype == CharType::Numeric {
            spec_emit(st, seq![spec_cp_char(e.cp)], src, u.conf, DecisionSource::Lr)
        } else {
            st
        }
    } else {
        let (eff, dec) = spec_effective(st, e, u, names[i]);
        let s1 = spec_emit(st, eff, src, u.conf, dec);
        let s2 = DecodeState {
            last: if e.ctype == CharType::Kanji { eff } else { Seq::empty() },
            ..spec_set_parent(s1, i, false, e.ctype == CharType::Kanji, spec_has_small(eff))
        };
        spec_space(s2, e, u.split, u.conf, dec)
    }
}

/// A 々 read by the model as a valid repeat of the kanji before it (the same
/// reading, or that reading with its first kana voiced) keeps the model's
/// reading: the reading grows by exactly the label (and a boundary space
/// where the boundary model splits), its bytes are tagged as the model's
/// decision, and the label becomes the reading a next 々 repeats. Only a
/// name reading of a doubtful unit takes precedence, so the law is stated
/// where no such name reading applies.
pub proof fn lemma_repeat_mark_keeps_valid_label(
    seq: Seq<SourceEntry>,
    names: Seq<Option<Seq<char>>>,
    scores: Seq<ScoreView>,
    i: int,
)
    requires
        0 <= i < seq.len(),
        names.len() == seq.len(),
        scores.len() == seq.len(),
        seq[i].cp == 0x3005,
        seq[i].ctype == CharType::Kanji,
        scores[i].label != seq!['-', '-', '-'],
        scores[i].label != seq!['_'],
        !(names[i] is Some && scores[i].low),
        scores[i].label == spec_run(seq, names, scores, i).last || crate::reading::spec_voiced_first(
            scores[i].label,
            spec_run(seq, names, scores, i).last,
        ),
    ensures
        ({
            let st = spec_run(seq, names, scores, i);
            let nx = spec_run(seq, names, scores, i + 1);
            let l = scores[i].label;
            let dec = if scores[i].low { DecisionSource::LrLow } else { DecisionSource::Lr };
            &&& nx.kana.len() >= st.kana.len() + l.len()
            &&& nx.kana.subrange(st.kana.len() as int, (st.kana.len() + l.len()) as int) == l
            &&& nx.kana.len() <= st.kana.len() + l.len() + 1
            &&& forall|j: int| st.decs.len() <= j < nx.decs.len() ==> #[trigger] nx.decs[j] == dec
            &&& nx.last == l
        }),
{
    let st = spec_run(seq, names, scores, i);
    let l = scores[i].label;
    crate::reading::lemma_valid_repeat_forms(l, st.last);
    assert(spec_valid_repeat(l, st.last));
    let (eff, dec) = spec_effective(st, seq[i], scores[i], names[i]);
    assert(eff == l);
    assert(!CharType::Kanji.spec_is_bypass());
    let nx = spec_run(seq, names, scores, i + 1);
    assert(nx == spec_step(seq, names, scores, st, i));
    assert(nx.kana.subrange(st.kana.len() as int, (st.kana.len() + l.len()) as int) =~= l);
}

/// A 々 whose model reading is no valid repeat of the kanji reading before
/// it (neither that reading nor it with its first kana voiced) is read as
/// that previous reading, tagged as the repeat fallback.
pub proof fn lemma_repeat_mark_falls_back(
    seq: Seq<SourceEntry>,
    names: Seq<Option<Seq<char>>>,
    scores: Seq<ScoreView>,
    i: int,
)
    requires
        0 <= i < seq.len(),
        names.len() == seq.len(),
        scores.len() == seq.len(),
        seq[i].cp == 0x3005,
        seq[i].ctype == CharType::Kanji,
        scores[i].label != seq!['-', '-', '-'],
        scores[i].label != seq!['_'],
        spec_run(seq, names, scores, i).last.len() > 0,
        scores[i].label != spec_run(seq, names, scores, i).last,
        !crate::reading::spec_voiced_first(scores[i].label, spec_run(seq, names, scores, i).last),
    ensures
        ({
            let st = spec_run(seq, names, scores, i);
            let nx = spec_run(seq, names, scores, i + 1);
            &&& nx.kana.len() >= st.kana.len() + st.last.len()
            &&& nx.kana.subrange(st.kana.len() as int, (st.kana.len() + st.last.len()) as int) == st.last
            &&& nx.kana.len() <= st.kana.len() + st.last.len() + 1
            &&& forall|j: int| st.decs.len() <= j < nx.decs.len() ==> #[trigger] nx.decs[j]
                == DecisionSource::FallbackRepeat
            &&& nx.last == st.last
        }),
{
    let st = spec_run(seq, names, scores, i);
    crate::reading::lemma_valid_repeat_forms(scores[i].label, st.last);
    assert(!CharType::Kanji.spec_is_bypass());
    let nx = spec_run(seq, names, scores, i + 1);
    assert(nx == spec_step(seq, names, scores, st, i));
    assert(nx.kana.subrange(st.kana.len() as int, (st.kana.len() + st.last.len()) as int) =~= st.last);
}

/// A kanji (other than 々) takes the model's reading, unless the model is in
/// doubt and the name dictionary reads the unit otherwise: then the name
/// reading is written, tagged as the dictionary's decision.
pub proof fn lemma_kanji_reading_source(
    seq: Seq<SourceEntry>,
    names: Seq<Option<Seq<char>>>,
    scores: Seq<ScoreView>,
    i: int,
)
    requires
        0 <= i < seq.len(),
        names.len() == seq.len(),
        scores.len() == seq.len(),
        seq[i].cp != 0x3005,
        seq[i].ctype == CharType::Kanji,
        scores[i].label != seq!['-', '-', '-'],
        scores[i].label != seq!['_'],
    ensures
        ({
            let st = spec_run(seq, names, scores, i);
            let nx = spec_run(seq, names, scores, i + 1);
            let by_name = names[i] is Some && scores[i].low && names[i]->Some_0 != scores[i].label;
            let w = if by_name { names[i]->Some_0 } else { scores[i].label };
            let dec = if by_name {
                DecisionSource::DictName
            } else if scores[i].low {
                DecisionSource::LrLow
            } else {
                DecisionSource::Lr
            };
            &&& nx.kana.len() >= st.kana.len() + w.len()
            &&& nx.kana.subrange(st.kana.len() as int, (st.kana.len() + w.len()) as int) == w
            &&& nx.kana.len() <= st.kana.len() + w.len() + 1
            &&& forall|j: int| st.decs.len() <= j < nx.decs.len() ==> #[trigger] nx.decs[j] == dec
            &&& nx.last == w
        }),
{
    let st = spec_run(seq, names, scores, i);
    assert(!CharType::Kanji.spec_is_bypass());
    let nx = spec_run(seq, names, scores, i + 1);
    assert(nx == spec_step(seq, names, scores, st, i));
    let by_name = names[i] is Some && scores[i].low && names[i]->Some_0 != scores[i].label;
    let w = if by_name { names[i]->Some_0 } else { scores[i].label };
    assert(nx.kana.subrange(st.kana.len() as int, (st.kana.len() + w.len()) as int) =~= w);
}

/// A hiragana unit is read as its katakana (each character moved U+60 on,
/// to the katakana block), unless the model read it so, or read the
/// particles は, へ, う as ワ, エ, ー: then the model's reading stands.
pub proof fn lemma_hiragana_reading(
    seq: Seq<SourceEntry>,
    names: Seq<Option<Seq<char>>>,
    scores: Seq<ScoreView>,
    i: int,
)
    requires
        0 <= i < seq.len(),
        names.len() == seq.len(),
        scores.len() == seq.len(),
        seq[i].ctype == CharType::Hiragana,
        0x3041 <= seq[i].cp <= 0x3096,
        seq[i].compound_len >= 2 ==> 0x3041 <= seq[i].cp2 <= 0x3096,
        scores[i].label != seq!['-', '-', '-'],
        scores[i].label != seq!['_'],
    ensures
        ({
            let e = seq[i];
            let l = scores[i].label;
            let kat = if e.compound_len >= 2 {
                seq![(e.cp + 0x60) as char, (e.cp2 + 0x60) as char]
            } else {
                seq![(e.cp + 0x60) as char]
            };
            let particle = e.compound_len == 1 && ((e.cp == 0x306F && l == seq!['ワ']) || (e.cp == 0x3078
                && l == seq!['エ']) || (e.cp == 0x3046 && l == seq!['ー']));
            let keep = l == kat || particle;
            let w = if keep { l } else { kat };
            let dec = if !keep {
                DecisionSource::FallbackKana
            } else if scores[i].low {
                DecisionSource::LrLow
            } else {
                DecisionSource::Lr
            };
            let st = spec_run(seq, names, scores, i);
            let nx = spec_run(seq, names, scores, i + 1);
            &&& nx.kana.len() >= st.kana.len() + w.len()
            &&& nx.kana.subrange(st.kana.len() as int, (st.kana.len() + w.len()) as int) == w
            &&& nx.kana.len() <= st.kana.len() + w.len() + 1
            &&& forall|j: int| st.decs.len() <= j < nx.decs.len() ==> #[trigger] nx.decs[j] == dec
        }),
{
    let e = seq[i];
    let st = spec_run(seq, names, scores, i);
    assert(!CharType::Hiragana.spec_is_bypass());
    let cps = spec_unit_cps(e).map_values(|cp: u32| spec_hiragana_to_katakana(cp));
    let kat = if e.compound_len >= 2 {
        seq![(e.cp + 0x60) as char, (e.cp2 + 0x60) as char]
    } else {
        seq![(e.cp + 0x60) as char]
    };
    if e.compound_len >= 2 {
        assert(cps =~= seq![(e.cp + 0x60) as u32, (e.cp2 + 0x60) as u32]);
        assert(cps.drop_last() =~= seq![(e.cp + 0x60) as u32]);
        assert(cps.drop_last().drop_last() =~= Seq::<u32>::empty());
    } else {
        assert(cps =~= seq![(e.cp + 0x60) as u32]);
        assert(cps.drop_last() =~= Seq::<u32>::empty());
    }
    assert(spec_valid_chars(cps) =~= kat) by {
        reveal_with_fuel(spec_valid_chars, 3);
    }
    let l = scores[i].label;
    let particle = e.compound_len == 1 && ((e.cp == 0x306F && l == seq!['ワ']) || (e.cp == 0x3078 && l
        == seq!['エ']) || (e.cp == 0x3046 && l == seq!['ー']));
    let keep = l == kat || particle;
    let w = if keep { l } else { kat };
    let nx = spec_run(seq, names, scores, i + 1);
    assert(nx == spec_step(seq, names, scores, st, i));
    assert(nx.kana.subrange(st.kana.len() as int, (st.kana.len() + w.len()) as int) =~= w);
}

/// The state after the units `0..i`.
pub open spec fn spec_run(seq: Seq<SourceEntry>, names: Seq<Option<Seq<char>>>, scores: Seq<ScoreView>, i: int) -> DecodeState
    decreases i,
{
    if i <= 0 {
        spec_initial()
    } else {
        spec_step(seq, names, scores, spec_run(seq, names, scores, i - 1), i - 1)
    }
}


// ------------------------------------------------------------
// The decoder
// ------------------------------------------------------------

struct Decoder {
    kana: Vec<char>,
    srcs: Vec<usize>,
    confs: Vec<u32>,
    decs: Vec<DecisionSource>,
    parent: Option<usize>,
    parent_bypass: bool,
    parent_kanji: bool,
    parent_small: bool,
    parent_end: usize,
    parent_end_chars: usize,
    last: Vec<char>,
}

spec fn spec_decoder_view(d: Decoder) -> DecodeState {
    DecodeState {
        kana: d.kana@,
        srcs: d.srcs@,
        confs: d.confs@,
        decs: d.decs@,
        parent: match d.parent {
            Some(p) => Some(p as int),
            None => None,
        },
        parent_bypass: d.parent_bypass,
        parent_kanji: d.parent_kanji,
        parent_small: d.parent_small,
        parent_end: d.parent_end as int,
        parent_end_chars: d.parent_end_chars as int,
        last: d.last@,
    }
}

/// The bookkeeping of a state is consistent: per-byte tables of equal
/// length, the parent inside the units, its end inside the reading.
pub open spec fn spec_state_wf(st: DecodeState, n: int) -> bool {
    &&& st.srcs.len() == byte_len(st.kana)
    &&& st.confs.len() == st.srcs.len()
    &&& st.decs.len() == st.srcs.len()
    &&& 0 <= st.parent_end <= st.srcs.len()
    &&& 0 <= st.parent_end_chars <= st.kana.len()
    &&& st.parent matches Some(p) ==> 0 <= p < n
}

impl Decoder {
    fn emit_chars(&mut self, s: &Vec<char>, src: usize, conf: u32, dec: DecisionSource)
        requires
            old(self).confs@.len() == old(self).srcs@.len(),
            old(self).decs@.len() == old(self).srcs@.len(),
        ensures
            spec_decoder_view(*final(self)) == spec_emit(spec_decoder_view(*old(self)), s@, src, conf, dec),
            final(self).confs@.len() == final(self).srcs@.len(),
            final(self).decs@.len() == final(self).srcs@.len(),
            final(self).srcs@.len() >= old(self).srcs@.len(),
            final(self).kana@.len() >= old(self).kana@.len(),
    {
        let ghost st = spec_decoder_view(*self);
        let mut k: usize = 0;
        let mut w: usize = 0;
        while k < s.len()
            invariant
                k <= s@.len(),
                self.kana@ == st.kana + s@.take(k as int),
                w == byte_len(s@.take(k as int)),
                self.srcs@ == st.srcs + Seq::new(w as nat, |j: int| src),
                self.confs@ == st.confs + Seq::new(w as nat, |j: int| conf),
                self.decs@ == st.decs + Seq::new(w as nat, |j: int| dec),
                self.parent == old(self).parent,
                self.parent_bypass == old(self).parent_bypass,
                self.parent_kanji == old(self).parent_kanji,
                self.parent_small == old(self).parent_small,
                self.parent_end == old(self).parent_end,
                self.parent_end_chars == old(self).parent_end_chars,
                self.last@ == old(self).last@,
                st == spec_decoder_view(*old(self)),
            decreases s@.len() - k,
        {
            let c = s[k];
            self.kana.push(c);
            proof {
                assert(self.kana@ =~= st.kana + s@.take(k as int).push(c));
            }
            let cw = char_width(c);
            let mut t: usize = 0;
            while t < cw
                invariant
                    t <= cw,
                    cw <= 4,
                    self.srcs@ == st.srcs + Seq::new((w + t) as nat, |j: int| src),
                    self.confs@ == st.confs + Seq::new((w + t) as nat, |j: int| conf),
                    self.decs@ == st.decs + Seq::new((w + t) as nat, |j: int| dec),
                    self.kana@ == st.kana + s@.take(k as int).push(c),
                    self.parent == old(self).parent,
                    self.parent_bypass == old(self).parent_bypass,
                    self.parent_kanji == old(self).parent_kanji,
                    self.parent_small == old(self).parent_small,
                    self.parent_end == old(self).parent_end,
                    self.parent_end_chars == old(self).parent_end_chars,
                    self.last@ == old(self).last@,
                decreases cw - t,
            {
                self.srcs.push(src);
                self.confs.push(conf);
                self.decs.push(dec);
                proof {
                    assert(self.srcs@ =~= st.srcs + Seq::new((w + t + 1) as nat, |j: int| src));
                    assert(self.confs@ =~= st.confs + Seq::new((w + t + 1) as nat, |j: int| conf));
                    assert(self.decs@ =~= st.decs + Seq::new((w + t + 1) as nat, |j: int| dec));
                }
                t = t + 1;
            }
            let _n = self.srcs.len();
            proof {
                assert(s@.take(k + 1).drop_last() =~= s@.take(k as int));
                assert(s@.take(k + 1) =~= s@.take(k as int).push(c));
                assert(self.kana@ =~= st.kana + s@.take(k + 1));
            }
            w = w + cw;
            k = k + 1;
        }
        proof {
            assert(s@.take(s@.len() as int) =~= s@);
        }
    }

    fn emit_str(&mut self, s: &str, src: usize, conf: u32, dec: DecisionSource)
        requires
            old(self).confs@.len() == old(self).srcs@.len(),
            old(self).decs@.len() == old(self).srcs@.len(),
        ensures
            spec_decoder_view(*final(self)) == spec_emit(spec_decoder_view(*old(self)), s@, src, conf, dec),
            final(self).confs@.len() == final(self).srcs@.len(),
            final(self).decs@.len() == final(self).srcs@.len(),
            final(self).srcs@.len() >= old(self).srcs@.len(),
            final(self).kana@.len() >= old(self).kana@.len(),
    {
        let cs = chars_of(s);
        self.emit_chars(&cs, src, conf, dec);
    }

    fn emit_cp(&mut self, cp: u32, src: usize, conf: u32, dec: DecisionSource)
        requires
            old(self).confs@.len() == old(self).srcs@.len(),
            old(self).decs@.len() == old(self).srcs@.len(),
        ensures
            spec_decoder_view(*final(self)) == spec_emit(spec_decoder_view(*old(self)), seq![spec_cp_char(cp)], src, conf, dec),
            final(self).confs@.len() == final(self).srcs@.len(),
            final(self).decs@.len() == final(self).srcs@.len(),
            final(self).srcs@.len() >= old(self).srcs@.len(),
            final(self).kana@.len() >= old(self).kana@.len(),
    {
        let c = match char_from_u32(cp) {
            Some(c) => c,
            None => '\u{FFFD}',
        };
        let mut v: Vec<char> = Vec::new();
        v.push(c);
        proof {
            assert(v@ =~= seq![spec_cp_char(cp)]);
        }
        self.emit_chars(&v, src, conf, dec);
    }

    fn set_parent(&mut self, i: usize, bypass: bool, kanji: bool, small: bool)
        ensures
            spec_decoder_view(*final(self)) == spec_set_parent(spec_decoder_view(*old(self)), i as int, bypass, kanji, small),
            final(self).kana@ == old(self).kana@,
            final(self).srcs@ == old(self).srcs@,
            final(self).confs@ == old(self).confs@,
            final(self).decs@ == old(self).decs@,
            final(self).last@ == old(self).last@,
    {
        self.parent = Some(i);
        self.parent_bypass = bypass;
        self.parent_kanji = kanji;
        self.parent_small = small;
        self.parent_end = self.srcs.len();
        self.parent_end_chars = self.kana.len();
    }

    fn clear_last(&mut self)
        ensures
            spec_decoder_view(*final(self)) == (DecodeState { last: Seq::empty(), ..spec_decoder_view(*old(self)) }),
    {
        self.last = Vec::new();
    }

    fn space(&mut self, e: &SourceEntry, split: bool, conf: u32, dec: DecisionSource)
        requires
            old(self).confs@.len() == old(self).srcs@.len(),
            old(self).decs@.len() == old(self).srcs@.len(),
        ensures
            spec_decoder_view(*final(self)) == spec_space(spec_decoder_view(*old(self)), *e, split, conf, dec),
            final(self).confs@.len() == final(self).srcs@.len(),
            final(self).decs@.len() == final(self).srcs@.len(),
            final(self).srcs@.len() >= old(self).srcs@.len(),
            final(self).kana@.len() >= old(self).kana@.len(),
    {
        if split {
            let mut v: Vec<char> = Vec::new();
            v.push(' ');
            proof {
                assert(v@ =~= seq![' ']);
            }
            self.emit_chars(&v, e.orig_idx as usize, conf, dec);
        }
    }

    fn insert_small(&mut self, c: char, src: usize, conf: u32, dec: DecisionSource)
        requires
            old(self).confs@.len() == old(self).srcs@.len(),
            old(self).decs@.len() == old(self).srcs@.len(),
            old(self).parent_end <= old(self).srcs@.len(),
            old(self).parent_end_chars <= old(self).kana@.len(),
        ensures
            spec_decoder_view(*final(self)) == spec_insert_small(spec_decoder_view(*old(self)), c, src, conf, dec),
            final(self).confs@.len() == final(self).srcs@.len(),
            final(self).decs@.len() == final(self).srcs@.len(),
            final(self).parent_end <= final(self).srcs@.len(),
            final(self).parent_end_chars <= final(self).kana@.len(),
    {
        let ghost st = spec_decoder_view(*self);
        let p = self.parent_end;
        self.kana.insert(self.parent_end_chars, c);
        let w = char_width(c);
        let mut t: usize = 0;
        while t < w
            invariant
                t <= w,
                w == utf8_width(c),
                p == st.parent_end,
                p <= st.srcs.len(),
                st.confs.len() == st.srcs.len(),
                st.decs.len() == st.srcs.len(),
                self.srcs@ == st.srcs.take(p as int) + Seq::new(t as nat, |j: int| src) + st.srcs.skip(p as int),
                self.confs@ == st.confs.take(p as int) + Seq::new(t as nat, |j: int| conf) + st.confs.skip(p as int),
                self.decs@ == st.decs.take(p as int) + Seq::new(t as nat, |j: int| dec) + st.decs.skip(p as int),
                self.kana@ == st.kana.insert(st.parent_end_chars, c),
                self.parent == old(self).parent,
                self.parent_bypass == old(self).parent_bypass,
                self.parent_kanji == old(self).parent_kanji,
                self.parent_small == old(self).parent_small,
                self.parent_end == old(self).parent_end,
                self.parent_end_chars == old(self).parent_end_chars,
                self.last@ == old(self).last@,
                st == spec_decoder_view(*old(self)),
            decreases w - t,
        {
            let _len = self.srcs.len();
            self.srcs.insert(p + t, src);
            self.confs.insert(p + t, conf);
            self.decs.insert(p + t, dec);
            proof {
                assert(self.srcs@ =~= st.srcs.take(p as int) + Seq::new((t + 1) as nat, |j: int| src) + st.srcs.skip(p as int));
                assert(self.confs@ =~= st.confs.take(p as int) + Seq::new((t + 1) as nat, |j: int| conf) + st.confs.skip(p as int));
                assert(self.decs@ =~= st.decs.take(p as int) + Seq::new((t + 1) as nat, |j: int| dec) + st.decs.skip(p as int));
            }
            t = t + 1;
        }
        let _len = self.srcs.len();
        let _klen = self.kana.len();
        self.parent_end = p + w;
        self.parent_end_chars = self.parent_end_chars + 1;
        self.parent_small = true;
    }
}

fn cp_text(cp: u32) -> (r: String)
    ensures
        r@ == spec_cp_text(cp),
{
    let mut s = String::new();
    match char_from_u32(cp) {
        Some(c) => {
            push_char(&mut s, c);
        },
        None => {},
    }
    proof {
        assert(s@ =~= spec_cp_text(cp));
    }
    s
}

fn next_kun(seq: &[SourceEntry], scores: &[UnitScore], i: usize) -> (b: bool)
    requires
        scores@.len() == seq@.len(),
        i < seq@.len(),
    ensures
        b == spec_next_kun(seq@, scores@.map_values(|u: UnitScore| spec_score_view(u)), i as int),
{
    if i < seq.len() - 1 {
        let t = cp_text(seq[i + 1].cp);
        is_kun_counter_signal(t.as_str(), scores[i + 1].label.as_str())
    } else {
        false
    }
}

fn has_small(s: &Vec<char>) -> (b: bool)
    ensures
        b == spec_has_small(s@),
{
    let mut k: usize = 0;
    while k < s.len()
        invariant
            k <= s@.len(),
            forall|j: int| 0 <= j < k ==> !spec_is_small_kana(#[trigger] s@[j] as u32),
        decreases s@.len() - k,
    {
        if is_small_kana(s[k] as u32) {
            proof {
                assert(spec_is_small_kana(s@[k as int] as u32));
            }
            return true;
        }
        k = k + 1;
    }
    false
}

fn is_label(label: &String, want: &str) -> (b: bool)
    ensures
        b == (label@ == want@),
{
    str_eq(label.as_str(), want)
}

/// The reading on the model's word (see [`spec_effective`]).
fn effective(d: &Decoder, e: &SourceEntry, u: &UnitScore, name: &Option<String>) -> (r: (Vec<char>, DecisionSource))
    ensures
        (r.0@, r.1) == spec_effective(spec_decoder_view(*d), *e, spec_score_view(*u), crate::name_dict::spec_opt_view(*name)),
{
    let dec = if u.below_half {
        DecisionSource::LrLow
    } else {
        DecisionSource::Lr
    };
    if e.cp == 0x3005 && d.last.len() > 0 {
        let mut last = String::new();
        let mut k: usize = 0;
        while k < d.last.len()
            invariant
                k <= d.last@.len(),
                last@ == d.last@.take(k as int),
            decreases d.last@.len() - k,
        {
            push_char(&mut last, d.last[k]);
            proof {
                assert(last@ =~= d.last@.take(k + 1));
            }
            k = k + 1;
        }
        proof {
            assert(d.last@.take(d.last@.len() as int) =~= d.last@);
        }
        if !is_valid_repeat(u.label.as_str(), last.as_str()) {
            return (d.last.clone(), DecisionSource::FallbackRepeat);
        }
    }
    if e.ctype == CharType::Hiragana {
        let direct = hiragana_direct(e);
        if is_valid_kana_prediction(e, u.label.as_str(), direct.as_str()) {
            return (chars_of(u.label.as_str()), dec);
        } else {
            return (chars_of(direct.as_str()), DecisionSource::FallbackKana);
        }
    }
    match name {
        Some(r) => {
            if u.below_half && !str_eq(r.as_str(), u.label.as_str()) {
                return (chars_of(r.as_str()), DecisionSource::DictName);
            }
        },
        None => {},
    }
    (chars_of(u.label.as_str()), dec)
}

proof fn lemma_wf_emit(st: DecodeState, s: Seq<char>, src: usize, conf: u32, dec: DecisionSource, n: int)
    requires
        spec_state_wf(st, n),
    ensures
        spec_state_wf(spec_emit(st, s, src, conf, dec), n),
{
    lemma_byte_len_concat(st.kana, s);
}

proof fn lemma_wf_space(st: DecodeState, e: SourceEntry, split: bool, conf: u32, dec: DecisionSource, n: int)
    requires
        spec_state_wf(st, n),
    ensures
        spec_state_wf(spec_space(st, e, split, conf, dec), n),
{
    if split {
        lemma_wf_emit(st, seq![' '], e.orig_idx as usize, conf, dec, n);
    }
}

proof fn lemma_wf_insert(st: DecodeState, c: char, src: usize, conf: u32, dec: DecisionSource, n: int)
    requires
        spec_state_wf(st, n),
    ensures
        spec_state_wf(spec_insert_small(st, c, src, conf, dec), n),
{
    let k = st.kana;
    let pc = st.parent_end_chars;
    lemma_byte_len_concat(k.take(pc), k.skip(pc));
    assert(k.take(pc) + k.skip(pc) =~= k);
    lemma_byte_len_concat(k.take(pc), seq![c]);
    lemma_byte_len_concat(k.take(pc) + seq![c], k.skip(pc));
    assert(k.insert(pc, c) =~= k.take(pc) + seq![c] + k.skip(pc));
    assert(seq![c].drop_last() =~= Seq::<char>::empty());
    assert(byte_len(Seq::<char>::empty()) == 0);
    assert(seq![c].last() == c);
    assert(byte_len(seq![c]) == utf8_width(c));
}

/// `x` is the byte offset of some unit of `seq`.
pub open spec fn spec_unit_offset(seq: Seq<SourceEntry>, x: int) -> bool {
    exists|u: int| 0 <= u < seq.len() && #[trigger] seq[u].orig_idx as int == x
}

/// The units' offsets strictly increase (as in a text's units).
pub open spec fn spec_offsets_increase(seq: Seq<SourceEntry>) -> bool {
    forall|a: int, b: int| 0 <= a < b < seq.len() ==> #[trigger] seq[a].orig_idx < #[trigger] seq[b].orig_idx
}

/// The units of a text have strictly increasing offsets, and each unit's
/// offset is the start of a character of the text: so the reading of a text
/// from its own units points, byte by byte, at character starts of the text
/// that never go back.
pub proof fn lemma_text_units_order(text: Seq<char>)
    requires
        byte_len(text) <= u32::MAX,
    ensures
        spec_offsets_increase(crate::featurize::spec_source_seq(text)),
        forall|x: int|
            spec_unit_offset(crate::featurize::spec_source_seq(text), x) ==> exists|c: int|
                0 <= c < text.len() && x == #[trigger] crate::text::byte_offset(text, c),
{
    let seq = crate::featurize::spec_source_seq(text);
    crate::featurize::lemma_source_seq_offsets(text);
    assert forall|x: int| spec_unit_offset(seq, x) implies exists|c: int|
        0 <= c < text.len() && x == #[trigger] crate::text::byte_offset(text, c) by {
        let u = choose|u: int| 0 <= u < seq.len() && #[trigger] seq[u].orig_idx as int == x;
        assert(exists|c: int| 0 <= c < text.len() && (#[trigger] seq[u]).orig_idx as int == crate::text::byte_offset(text, c));
    }
}

/// The reading's source offsets never decrease, each is a unit's offset and
/// at most `bound`; those before the parent's end are at most the parent's
/// offset, those after it at least.
pub open spec fn spec_mono(st: DecodeState, seq: Seq<SourceEntry>, bound: int) -> bool {
    &&& forall|a: int, b: int| 0 <= a < b < st.srcs.len() ==> #[trigger] st.srcs[a] <= #[trigger] st.srcs[b]
    &&& forall|j: int| 0 <= j < st.srcs.len() ==> (#[trigger] st.srcs[j]) <= bound
    &&& forall|j: int| 0 <= j < st.srcs.len() ==> spec_unit_offset(seq, #[trigger] st.srcs[j] as int)
    &&& st.parent matches Some(p) ==> {
        &&& 0 <= p < seq.len()
        &&& seq[p].orig_idx <= bound
        &&& forall|j: int| 0 <= j < st.parent_end ==> (#[trigger] st.srcs[j]) <= seq[p].orig_idx
        &&& forall|j: int| st.parent_end <= j < st.srcs.len() ==> seq[p].orig_idx <= #[trigger] st.srcs[j]
    }
}

proof fn lemma_mono_weaken(st: DecodeState, seq: Seq<SourceEntry>, b1: int, b2: int)
    requires
        spec_mono(st, seq, b1),
        b1 <= b2,
    ensures
        spec_mono(st, seq, b2),
{
}

proof fn lemma_mono_emit(st: DecodeState, seq: Seq<SourceEntry>, bound: int, s: Seq<char>, src: usize, conf: u32, dec: DecisionSource)
    requires
        spec_mono(st, seq, bound),
        0 <= st.parent_end <= st.srcs.len(),
        bound <= src,
        spec_unit_offset(seq, src as int),
    ensures
        spec_mono(spec_emit(st, s, src, conf, dec), seq, src as int),
{
    let st2 = spec_emit(st, s, src, conf, dec);
    let n = st.srcs.len();
    assert forall|j: int| 0 <= j < st2.srcs.len() implies spec_unit_offset(seq, #[trigger] st2.srcs[j] as int) by {
        if j < n {
            assert(st2.srcs[j] == st.srcs[j]);
        } else {
            assert(st2.srcs[j] == src);
        }
    }
    assert forall|a: int, b: int| 0 <= a < b < st2.srcs.len() implies #[trigger] st2.srcs[a] <= #[trigger] st2.srcs[b] by {
        if b < n {
            assert(st2.srcs[a] == st.srcs[a] && st2.srcs[b] == st.srcs[b]);
        } else if a < n {
            assert(st2.srcs[a] == st.srcs[a] && st2.srcs[b] == src);
        }
    }
    assert forall|j: int| 0 <= j < st2.srcs.len() implies (#[trigger] st2.srcs[j]) <= src by {
        if j < n {
            assert(st2.srcs[j] == st.srcs[j]);
        }
    }
    if let Some(p) = st.parent {
        assert forall|j: int| 0 <= j < st2.parent_end implies (#[trigger] st2.srcs[j]) <= seq[p].orig_idx by {
            assert(st2.srcs[j] == st.srcs[j]);
        }
        assert forall|j: int| st2.parent_end <= j < st2.srcs.len() implies seq[p].orig_idx <= #[trigger] st2.srcs[j] by {
            if j < n {
                assert(st2.srcs[j] == st.srcs[j]);
            }
        }
    }
}

proof fn lemma_mono_space(st: DecodeState, seq: Seq<SourceEntry>, bound: int, e: SourceEntry, split: bool, conf: u32, dec: DecisionSource)
    requires
        spec_mono(st, seq, bound),
        0 <= st.parent_end <= st.srcs.len(),
        bound <= e.orig_idx,
        spec_unit_offset(seq, e.orig_idx as int),
    ensures
        spec_mono(spec_space(st, e, split, conf, dec), seq, e.orig_idx as int),
{
    if split {
        lemma_mono_emit(st, seq, bound, seq![' '], e.orig_idx as usize, conf, dec);
    }
}

proof fn lemma_mono_parent(st: DecodeState, seq: Seq<SourceEntry>, i: int, bypass: bool, kanji: bool, small: bool)
    requires
        spec_mono(st, seq, seq[i].orig_idx as int),
        0 <= i < seq.len(),
    ensures
        spec_mono(spec_set_parent(st, i, bypass, kanji, small), seq, seq[i].orig_idx as int),
{
}

proof fn lemma_mono_insert(st: DecodeState, seq: Seq<SourceEntry>, bound: int, c: char, conf: u32, dec: DecisionSource)
    requires
        spec_mono(st, seq, bound),
        0 <= st.parent_end <= st.srcs.len(),
        st.parent is Some,
    ensures
        spec_mono(spec_insert_small(st, c, seq[st.parent->Some_0].orig_idx as usize, conf, dec), seq, bound),
{
    let p = st.parent->Some_0;
    let v = seq[p].orig_idx as usize;
    let st2 = spec_insert_small(st, c, v, conf, dec);
    let pe = st.parent_end;
    let w = utf8_width(c) as int;
    let old_s = st.srcs;
    assert(st2.srcs == old_s.take(pe) + Seq::new(w as nat, |j: int| v) + old_s.skip(pe));
    assert forall|j: int| 0 <= j < st2.srcs.len() implies #[trigger] st2.srcs[j] == (if j < pe { old_s[j] } else if j < pe + w {
        v
    } else {
        old_s[j - w]
    }) by {
    }
    assert forall|j: int| 0 <= j < st2.srcs.len() implies spec_unit_offset(seq, #[trigger] st2.srcs[j] as int) by {
        if j < pe {
        } else if j < pe + w {
            assert(seq[p].orig_idx as int == st2.srcs[j] as int);
        } else {
            assert(st2.srcs[j] == old_s[j - w]);
        }
    }
    assert forall|a: int, b: int| 0 <= a < b < st2.srcs.len() implies #[trigger] st2.srcs[a] <= #[trigger] st2.srcs[b] by {
        if a < pe && b >= pe + w {
            assert(old_s[a] <= old_s[b - w]);
        } else if a >= pe + w {
            assert(old_s[a - w] <= old_s[b - w]);
        }
    }
}

/// Every step keeps the reading's source offsets in order, where the units'
/// offsets increase.
proof fn lemma_mono_step(seq: Seq<SourceEntry>, names: Seq<Option<Seq<char>>>, scores: Seq<ScoreView>, st: DecodeState, i: int, bound: int)
    requires
        spec_state_wf(st, seq.len() as int),
        spec_mono(st, seq, bound),
        0 <= i < seq.len(),
        bound <= seq[i].orig_idx,
    ensures
        spec_mono(spec_step(seq, names, scores, st, i), seq, seq[i].orig_idx as int),
{
    let n = seq.len() as int;
    let e = seq[i];
    let u = scores[i];
    let src = e.orig_idx as usize;
    let b = e.orig_idx as int;
    assert(spec_unit_offset(seq, src as int)) by {
        assert(seq[i].orig_idx as int == src as int);
    }
    if e.ctype == CharType::Skip {
        lemma_mono_weaken(st, seq, bound, b);
    } else if e.ctype.spec_is_bypass() {
        let s1 = spec_emit(st, seq![spec_cp_char(e.cp)], src, CONFIDENCE_ONE, DecisionSource::Bypass);
        lemma_mono_emit(st, seq, bound, seq![spec_cp_char(e.cp)], src, CONFIDENCE_ONE, DecisionSource::Bypass);
        lemma_mono_parent(s1, seq, i, true, false, false);
    } else if e.ctype == CharType::Katakana && !(e.cp == 0x30F5 || e.cp == 0x30F6) {
        let s1 = spec_emit(st, spec_valid_chars(spec_unit_cps(e)), src, CONFIDENCE_ONE, DecisionSource::Lr);
        lemma_mono_emit(st, seq, bound, spec_valid_chars(spec_unit_cps(e)), src, CONFIDENCE_ONE, DecisionSource::Lr);
        lemma_mono_parent(s1, seq, i, false, false, e.compound_len >= 2 && spec_is_small_kana(e.cp2));
        lemma_wf_emit(st, spec_valid_chars(spec_unit_cps(e)), src, CONFIDENCE_ONE, DecisionSource::Lr, n);
        let s2 = DecodeState {
            last: Seq::empty(),
            ..spec_set_parent(s1, i, false, false, e.compound_len >= 2 && spec_is_small_kana(e.cp2))
        };
        lemma_mono_space(s2, seq, b, e, u.split, CONFIDENCE_ONE, DecisionSource::Lr);
    } else if e.ctype == CharType::Alpha {
        let s1 = spec_emit(st, seq![spec_cp_char(e.cp)], src, CONFIDENCE_ONE, DecisionSource::Lr);
        lemma_mono_emit(st, seq, bound, seq![spec_cp_char(e.cp)], src, CONFIDENCE_ONE, DecisionSource::Lr);
        lemma_mono_parent(s1, seq, i, false, false, false);
        lemma_wf_emit(st, seq![spec_cp_char(e.cp)], src, CONFIDENCE_ONE, DecisionSource::Lr, n);
        let s2 = DecodeState { last: Seq::empty(), ..spec_set_parent(s1, i, false, false, false) };
        lemma_mono_space(s2, seq, b, e, u.split, CONFIDENCE_ONE, DecisionSource::Lr);
    } else if e.ctype == CharType::JapaneseNumeric && u.low_numeric && !(u.low_numeric && spec_next_kun(seq, scores, i)) {
        match spec_numeric_fallback(seq, i) {
            None => {
                lemma_mono_weaken(st, seq, bound, b);
            },
            Some(f) => {
                let s1 = spec_emit(st, f, src, u.conf, DecisionSource::FallbackNumeric);
                lemma_mono_emit(st, seq, bound, f, src, u.conf, DecisionSource::FallbackNumeric);
                lemma_mono_parent(s1, seq, i, false, false, false);
                lemma_wf_emit(st, f, src, u.conf, DecisionSource::FallbackNumeric, n);
                let s2 = DecodeState { last: Seq::empty(), ..spec_set_parent(s1, i, false, false, false) };
                lemma_mono_space(s2, seq, b, e, u.split, u.conf, DecisionSource::FallbackNumeric);
            },
        }
    } else if e.ctype == CharType::Numeric && u.label != spec_label_continue() && u.label != spec_label_skip()
        && (if spec_is_digit_label(u.label) { u.label != spec_cp_text(e.cp) } else { !spec_next_kun(seq, scores, i) }) {
        let s1 = spec_emit(st, seq![spec_cp_char(e.cp)], src, u.conf, DecisionSource::FallbackNumeric);
        lemma_mono_emit(st, seq, bound, seq![spec_cp_char(e.cp)], src, u.conf, DecisionSource::FallbackNumeric);
        lemma_mono_parent(s1, seq, i, false, false, false);
        lemma_wf_emit(st, seq![spec_cp_char(e.cp)], src, u.conf, DecisionSource::FallbackNumeric, n);
        let s2 = DecodeState { last: Seq::empty(), ..spec_set_parent(s1, i, false, false, false) };
        lemma_mono_space(s2, seq, b, e, u.split, u.conf, DecisionSource::FallbackNumeric);
    } else if u.label == spec_label_continue() {
        if st.parent is None || st.parent_bypass || !st.parent_kanji {
            let s1 = spec_emit(st, seq![spec_cp_char(e.cp)], src, u.conf, DecisionSource::FallbackOrphan);
            lemma_mono_emit(st, seq, bound, seq![spec_cp_char(e.cp)], src, u.conf, DecisionSource::FallbackOrphan);
            lemma_mono_parent(s1, seq, i, false, e.ctype == CharType::Kanji, false);
            lemma_wf_emit(st, seq![spec_cp_char(e.cp)], src, u.conf, DecisionSource::FallbackOrphan, n);
            let s2 = spec_set_parent(s1, i, false, e.ctype == CharType::Kanji, false);
            lemma_mono_space(s2, seq, b, e, u.split, u.conf, DecisionSource::FallbackOrphan);
        } else if e.ctype == CharType::Numeric {
            lemma_mono_emit(st, seq, bound, seq![spec_cp_char(e.cp)], src, u.conf, DecisionSource::Lr);
        } else if spec_is_small_kana(e.cp) && !st.parent_small {
            lemma_mono_insert(st, seq, bound, spec_cp_char(spec_small_kana_to_kana(e.cp)), u.conf, DecisionSource::Lr);
            lemma_mono_weaken(
                spec_insert_small(
                    st,
                    spec_cp_char(spec_small_kana_to_kana(e.cp)),
                    seq[st.parent->Some_0].orig_idx as usize,
                    u.conf,
                    DecisionSource::Lr,
                ),
                seq,
                bound,
                b,
            );
        } else {
            lemma_mono_weaken(st, seq, bound, b);
        }
    } else if u.label == spec_label_skip() {
        if e.ctype == CharType::Numeric {
            lemma_mono_emit(st, seq, bound, seq![spec_cp_char(e.cp)], src, u.conf, DecisionSource::Lr);
        } else {
            lemma_mono_weaken(st, seq, bound, b);
        }
    } else {
        let (eff, dec) = spec_effective(st, e, u, names[i]);
        let s1 = spec_emit(st, eff, src, u.conf, dec);
        lemma_mono_emit(st, seq, bound, eff, src, u.conf, dec);
        lemma_mono_parent(s1, seq, i, false, e.ctype == CharType::Kanji, spec_has_small(eff));
        lemma_wf_emit(st, eff, src, u.conf, dec, n);
        let s2 = DecodeState {
            last: if e.ctype == CharType::Kanji { eff } else { Seq::empty() },
            ..spec_set_parent(s1, i, false, e.ctype == CharType::Kanji, spec_has_small(eff))
        };
        lemma_mono_space(s2, seq, b, e, u.split, u.conf, dec);
    }
}

/// Every step keeps the bookkeeping consistent.
proof fn lemma_wf_step(seq: Seq<SourceEntry>, names: Seq<Option<Seq<char>>>, scores: Seq<ScoreView>, st: DecodeState, i: int)
    requires
        spec_state_wf(st, seq.len() as int),
        0 <= i < seq.len(),
    ensures
        spec_state_wf(spec_step(seq, names, scores, st, i), seq.len() as int),
{
    let n = seq.len() as int;
    let e = seq[i];
    let u = scores[i];
    let src = e.orig_idx as usize;
    if e.ctype == CharType::Skip {
    } else if e.ctype.spec_is_bypass() {
        lemma_wf_emit(st, seq![spec_cp_char(e.cp)], src, CONFIDENCE_ONE, DecisionSource::Bypass, n);
    } else if e.ctype == CharType::Katakana && !(e.cp == 0x30F5 || e.cp == 0x30F6) {
        let s1 = spec_emit(st, spec_valid_chars(spec_unit_cps(e)), src, CONFIDENCE_ONE, DecisionSource::Lr);
        lemma_wf_emit(st, spec_valid_chars(spec_unit_cps(e)), src, CONFIDENCE_ONE, DecisionSource::Lr, n);
        let s2 = DecodeState {
            last: Seq::empty(),
            ..spec_set_parent(s1, i, false, false, e.compound_len >= 2 && spec_is_small_kana(e.cp2))
        };
        lemma_wf_space(s2, e, u.split, CONFIDENCE_ONE, DecisionSource::Lr, n);
    } else if e.ctype == CharType::Alpha {
        let s1 = spec_emit(st, seq![spec_cp_char(e.cp)], src, CONFIDENCE_ONE, DecisionSource::Lr);
        lemma_wf_emit(st, seq![spec_cp_char(e.cp)], src, CONFIDENCE_ONE, DecisionSource::Lr, n);
        let s2 = DecodeState { last: Seq::empty(), ..spec_set_parent(s1, i, false, false, false) };
        lemma_wf_space(s2, e, u.split, CONFIDENCE_ONE, DecisionSource::Lr, n);
    } else if e.ctype == CharType::JapaneseNumeric && u.low_numeric && !(u.low_numeric && spec_next_kun(seq, scores, i)) {
        match spec_numeric_fallback(seq, i) {
            None => {},
            Some(f) => {
                let s1 = spec_emit(st, f, src, u.conf, DecisionSource::FallbackNumeric);
                lemma_wf_emit(st, f, src, u.conf, DecisionSource::FallbackNumeric, n);
                let s2 = DecodeState { last: Seq::empty(), ..spec_set_parent(s1, i, false, false, false) };
                lemma_wf_space(s2, e, u.split, u.conf, DecisionSource::FallbackNumeric, n);
            },
        }
    } else if e.ctype == CharType::Numeric && u.label != spec_label_continue() && u.label != spec_label_skip()
        && (if spec_is_digit_label(u.label) { u.label != spec_cp_text(e.cp) } else { !spec_next_kun(seq, scores, i) }) {
        let s1 = spec_emit(st, seq![spec_cp_char(e.cp)], src, u.conf, DecisionSource::FallbackNumeric);
        lemma_wf_emit(st, seq![spec_cp_char(e.cp)], src, u.conf, DecisionSource::FallbackNumeric, n);
        let s2 = DecodeState { last: Seq::empty(), ..spec_set_parent(s1, i, false, false, false) };
        lemma_wf_space(s2, e, u.split, u.conf, DecisionSource::FallbackNumeric, n);
    } else if u.label == spec_label_continue() {
        if st.parent is None || st.parent_bypass || !st.parent_kanji {
            let s1 = spec_emit(st, seq![spec_cp_char(e.cp)], src, u.conf, DecisionSource::FallbackOrphan);
            lemma_wf_emit(st, seq![spec_cp_char(e.cp)], src, u.conf, DecisionSource::FallbackOrphan, n);
            let s2 = spec_set_parent(s1, i, false, e.ctype == CharType::Kanji, false);
            lemma_wf_space(s2, e, u.split, u.conf, DecisionSource::FallbackOrphan, n);
        } else if e.ctype == CharType::Numeric {
            lemma_wf_emit(st, seq![spec_cp_char(e.cp)], src, u.conf, DecisionSource::Lr, n);
        } else if spec_is_small_kana(e.cp) && !st.parent_small {
            lemma_wf_insert(
                st,
                spec_cp_char(spec_small_kana_to_kana(e.cp)),
                seq[st.parent->Some_0].orig_idx as usize,
                u.conf,
                DecisionSource::Lr,
                n,
            );
        }
    } else if u.label == spec_label_skip() {
        if e.ctype == CharType::Numeric {
            lemma_wf_emit(st, seq![spec_cp_char(e.cp)], src, u.conf, DecisionSource::Lr, n);
        }
    } else {
        let (eff, dec) = spec_effective(st, e, u, names[i]);
        let s1 = spec_emit(st, eff, src, u.conf, dec);
        lemma_wf_emit(st, eff, src, u.conf, dec, n);
        let s2 = DecodeState {
            last: if e.ctype == CharType::Kanji { eff } else { Seq::empty() },
            ..spec_set_parent(s1, i, false, e.ctype == CharType::Kanji, spec_has_small(eff))
        };
        lemma_wf_space(s2, e, u.split, u.conf, dec, n);
    }
}

/// Processes unit `i`.
#[verifier::rlimit(80)]
fn step(d: &mut Decoder, seq: &[SourceEntry], names: &Vec<Option<String>>, scores: &[UnitScore], i: usize)
    requires
        spec_state_wf(spec_decoder_view(*old(d)), seq@.len() as int),
        scores@.len() == seq@.len(),
        names@.len() == seq@.len(),
        i < seq@.len(),
    ensures
        spec_decoder_view(*final(d)) == spec_step(
            seq@,
            names@.map_values(|o: Option<String>| crate::name_dict::spec_opt_view(o)),
            scores@.map_values(|u: UnitScore| spec_score_view(u)),
            spec_decoder_view(*old(d)),
            i as int,
        ),
{
    proof {
        reveal_strlit("---");
        reveal_strlit("_");
        assert("---"@ =~= spec_label_continue());
        assert("_"@ =~= spec_label_skip());
    }
    let ghost sv = scores@.map_values(|u: UnitScore| spec_score_view(u));
    let ghost nv = names@.map_values(|o: Option<String>| crate::name_dict::spec_opt_view(o));
    let e = seq[i];
    let u = &scores[i];
    proof {
        assert(sv[i as int] == spec_score_view(*u));
    }
    let src = e.orig_idx as usize;
    if e.ctype.is_skip() {
        return;
    }
    if e.ctype.is_bypass() {
        d.emit_cp(e.cp, src, CONFIDENCE_ONE, DecisionSource::Bypass);
        d.set_parent(i, true, false, false);
        d.clear_last();
        return;
    }
    if e.ctype == CharType::Katakana && !is_counter_small_kana(e.cp) {
        let direct = katakana_passthrough(&e);
        d.emit_str(direct.as_str(), src, CONFIDENCE_ONE, DecisionSource::Lr);
        let small = e.compound_len >= 2 && is_small_kana(e.cp2);
        d.set_parent(i, false, false, small);
        d.clear_last();
        d.space(&e, u.split_after, CONFIDENCE_ONE, DecisionSource::Lr);
        return;
    }
    if e.ctype == CharType::Alpha {
        d.emit_cp(e.cp, src, CONFIDENCE_ONE, DecisionSource::Lr);
        d.set_parent(i, false, false, false);
        d.clear_last();
        d.space(&e, u.split_after, CONFIDENCE_ONE, DecisionSource::Lr);
        return;
    }
    let conf = u.confidence_bits;
    if e.ctype == CharType::JapaneseNumeric && u.below_numeric_threshold && !next_kun(seq, scores, i) {
        match convert_japanese_numeric(i, seq) {
            NumericFallback::Skip => {
                return;
            },
            NumericFallback::Output(f) => {
                d.emit_str(f, src, conf, DecisionSource::FallbackNumeric);
                d.set_parent(i, false, false, false);
                d.clear_last();
                d.space(&e, u.split_after, conf, DecisionSource::FallbackNumeric);
                return;
            },
        }
    }
    let is_cont = is_label(&u.label, "---");
    let is_skip_label = is_label(&u.label, "_");
    if e.ctype == CharType::Numeric && !is_cont && !is_skip_label {
        let revert = if is_digit_label(u.label.as_str()) {
            let t = cp_text(e.cp);
            !str_eq(u.label.as_str(), t.as_str())
        } else {
            !next_kun(seq, scores, i)
        };
        if revert {
            d.emit_cp(e.cp, src, conf, DecisionSource::FallbackNumeric);
            d.set_parent(i, false, false, false);
            d.clear_last();
            d.space(&e, u.split_after, conf, DecisionSource::FallbackNumeric);
            return;
        }
    }
    if is_cont {
        if d.parent.is_none() || d.parent_bypass || !d.parent_kanji {
            d.emit_cp(e.cp, src, conf, DecisionSource::FallbackOrphan);
            d.set_parent(i, false, e.ctype == CharType::Kanji, false);
            d.space(&e, u.split_after, conf, DecisionSource::FallbackOrphan);
            return;
        }
        if e.ctype == CharType::Numeric {
            d.emit_cp(e.cp, src, conf, DecisionSource::Lr);
            return;
        }
        if is_small_kana(e.cp) && !d.parent_small {
            let p = match d.parent {
                Some(p) => p,
                None => 0,
            };
            let k = small_kana_to_kana(e.cp);
            let c = match char_from_u32(k) {
                Some(c) => c,
                None => '\u{FFFD}',
            };
            d.insert_small(c, seq[p].orig_idx as usize, conf, DecisionSource::Lr);
        }
        return;
    }
    if is_skip_label {
        if e.ctype == CharType::Numeric {
            d.emit_cp(e.cp, src, conf, DecisionSource::Lr);
        }
        return;
    }
    let (eff, dec) = effective(d, &e, u, &names[i]);
    proof {
        assert(nv[i as int] == crate::name_dict::spec_opt_view(names@[i as int]));
    }
    d.emit_chars(&eff, src, conf, dec);
    let small = has_small(&eff);
    let kanji = e.ctype == CharType::Kanji;
    d.set_parent(i, false, kanji, small);
    if kanji {
        d.last = eff;
    } else {
        d.clear_last();
    }
    d.space(&e, u.split_after, conf, dec);
}

/// The reading of `text` from the models' answers `scores` for its units
/// `seq`, `names` being the name dictionary's reading of each unit (see the
/// module documentation), boundary spaces at the end taken off.
pub fn decide_readings(text: &str, seq: &[SourceEntry], names: &Vec<Option<String>>, scores: &[UnitScore]) -> (r: PredictionResult)
    requires
        scores@.len() == seq@.len(),
        names@.len() == seq@.len(),
    ensures
        ({
            let st = spec_run(
                seq@,
                names@.map_values(|o: Option<String>| crate::name_dict::spec_opt_view(o)),
                scores@.map_values(|u: UnitScore| spec_score_view(u)),
                seq@.len() as int,
            );
            let t = spec_trim(st.kana, st.srcs, st.confs, st.decs, spec_space_table(text@));
            &&& r.source_text@ == text@
            &&& r.kana_text@ == t.0
            &&& r.kana_to_src_index@ == t.1
            &&& r.confidences@ == t.2
            &&& r.decision_sources@ == t.3
            &&& r.src_to_kana_index@.map_values(|v: Vec<usize>| v@) == spec_inverse(t.1, byte_len(text@))
        }),
        spec_offsets_increase(seq@) ==> {
            &&& forall|a: int, b: int|
                0 <= a < b < r.kana_to_src_index@.len() ==> #[trigger] r.kana_to_src_index@[a]
                    <= #[trigger] r.kana_to_src_index@[b]
            &&& forall|j: int|
                0 <= j < r.kana_to_src_index@.len() ==> spec_unit_offset(seq@, #[trigger] r.kana_to_src_index@[j] as int)
        },
        r.kana_to_src_index@.len() == byte_len(r.kana_text@),
        r.confidences@.len() == r.kana_to_src_index@.len(),
        r.decision_sources@.len() == r.kana_to_src_index@.len(),
        r.src_to_kana_index@.len() == byte_len(text@),
        forall|b: int, j: usize|
            0 <= b < byte_len(text@) ==> (#[trigger] r.src_to_kana_index@[b]@.contains(j) <==> (j
                < r.kana_to_src_index@.len() && r.kana_to_src_index@[j as int] == b)),
{
    let ghost nv = names@.map_values(|o: Option<String>| crate::name_dict::spec_opt_view(o));
    let ghost sv = scores@.map_values(|u: UnitScore| spec_score_view(u));
    let mut d = Decoder {
        kana: Vec::new(),
        srcs: Vec::new(),
        confs: Vec::new(),
        decs: Vec::new(),
        parent: None,
        parent_bypass: false,
        parent_kanji: false,
        parent_small: false,
        parent_end: 0,
        parent_end_chars: 0,
        last: Vec::new(),
    };
    proof {
        assert(spec_decoder_view(d) =~= spec_initial());
        assert(byte_len(Seq::<char>::empty()) == 0);
    }
    let n = seq.len();
    let mut i: usize = 0;
    let ghost mut bound: int = 0;
    while i < n
        invariant
            spec_offsets_increase(seq@) ==> spec_mono(spec_decoder_view(d), seq@, bound),
            i > 0 ==> bound == seq@[i - 1].orig_idx,
            i == 0 ==> bound == 0,
            n == seq@.len(),
            scores@.len() == n,
            names@.len() == n,
            i <= n,
            nv == names@.map_values(|o: Option<String>| crate::name_dict::spec_opt_view(o)),
            sv == scores@.map_values(|u: UnitScore| spec_score_view(u)),
            spec_state_wf(spec_decoder_view(d), n as int),
            spec_decoder_view(d) == spec_run(seq@, nv, sv, i as int),
        decreases n - i,
    {
        proof {
            lemma_wf_step(seq@, nv, sv, spec_decoder_view(d), i as int);
            if spec_offsets_increase(seq@) {
                if i > 0 {
                    assert(seq@[i - 1].orig_idx < seq@[i as int].orig_idx);
                }
                lemma_mono_step(seq@, nv, sv, spec_decoder_view(d), i as int, bound);
            }
        }
        step(&mut d, seq, names, scores, i);
        proof {
            bound = seq@[i as int].orig_idx as int;
        }
        i = i + 1;
    }
    let tab = space_table(text);
    let ghost st = spec_decoder_view(d);
    let (k2, s2, c2, d2) = trim_boundary_spaces_of(d.kana, d.srcs, d.confs, d.decs, &tab);
    proof {
        let bc = crate::prediction::spec_byte_cuts(st.kana, st.srcs, tab@, st.kana.len() as int);
        assert(s2@ == crate::prediction::spec_filter_by(st.srcs, bc));
        crate::prediction::lemma_filter_sorted(st.srcs, bc);
        if spec_offsets_increase(seq@) {
            assert forall|j: int| 0 <= j < s2@.len() implies spec_unit_offset(seq@, #[trigger] s2@[j] as int) by {
                assert(st.srcs.contains(s2@[j]));
                let m = choose|m: int| 0 <= m < st.srcs.len() && st.srcs[m] == s2@[j];
                assert(spec_unit_offset(seq@, st.srcs[m] as int));
            }
        }
    }
    let total = str_byte_len(text);
    let inv = invert_index(&s2, total);
    let n_s2 = s2.len();
    proof {
        assert(s2@.len() == n_s2);
        crate::prediction::lemma_inverse_len(s2@, byte_len(text@));
        assert(inv@.len() == inv@.map_values(|v: Vec<usize>| v@).len());
        assert forall|b: int, j: usize|
            0 <= b < byte_len(text@) implies (#[trigger] inv@[b]@.contains(j) <==> (j < s2@.len() && s2@[j as int]
                == b)) by {
            crate::prediction::lemma_inverse_contains(s2@, byte_len(text@), b, j);
            assert(inv@[b]@ == inv@.map_values(|v: Vec<usize>| v@)[b]);
        }
    }
    PredictionResult {
        source_text: text.to_owned(),
        kana_text: string_of_chars(&k2),
        confidences: c2,
        decision_sources: d2,
        kana_to_src_index: s2,
        src_to_kana_index: inv,
    }
}
} // verus!
