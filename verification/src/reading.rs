//! Small rules about readings: kana conversions, the checks on the model's
//! readings of kana and of 々, and the single-kanji dictionary.

use vstd::prelude::*;

use crate::featurize::SourceEntry;
use crate::text::{char_from_u32, chars_of, push_char, str_eq};

verus! {

/// Why a reading was chosen (shown by the trace tools).
#[derive(Debug, Clone, Copy, PartialEq, Eq, Structural)]
pub enum DecisionSource {
    /// The reading model's reading.
    Lr,
    /// The reading model's reading, with low confidence.
    LrLow,
    /// The rule-based reading of a kanji numeral.
    FallbackNumeric,
    /// 々 repeating the reading of the kanji before it.
    FallbackRepeat,
    /// A kana read as itself because the model's reading was not valid.
    FallbackKana,
    /// A unit written as itself so that it is not lost.
    FallbackOrphan,
    /// The fixed reading of the name dictionary.
    DictName,
    /// Symbols, spaces and Latin letters written as they are.
    Bypass,
}

pub open spec fn spec_decision_name(d: DecisionSource) -> Seq<char> {
    match d {
        DecisionSource::Lr => seq!['L', 'R'],
        DecisionSource::LrLow => seq!['L', 'R', '_', 'L', 'O', 'W'],
        DecisionSource::FallbackNumeric => seq![
            'F', 'A', 'L', 'L', 'B', 'A', 'C', 'K', '_', 'N', 'U', 'M'
        ],
        DecisionSource::FallbackRepeat => seq!['F', 'A', 'L', 'L', 'B', 'A', 'C', 'K', '_', '々'],
        DecisionSource::FallbackKana => seq![
            'F', 'A', 'L', 'L', 'B', 'A', 'C', 'K', '_', 'K', 'A', 'N', 'A'
        ],
        DecisionSource::FallbackOrphan => seq![
            'F', 'A', 'L', 'L', 'B', 'A', 'C', 'K', '_', 'O', 'R', 'P', 'H'
        ],
        DecisionSource::DictName => seq!['D', 'I', 'C', 'T', '_', 'N', 'A', 'M', 'E'],
        DecisionSource::Bypass => seq!['B', 'Y', 'P', 'A', 'S', 'S'],
    }
}

impl DecisionSource {
    /// The short tag of the trace tools.
    pub fn as_str(self) -> (s: &'static str)
        ensures
            s@ == spec_decision_name(self),
    {
        proof {
            reveal_strlit("LR");
            reveal_strlit("LR_LOW");
            reveal_strlit("FALLBACK_NUM");
            reveal_strlit("FALLBACK_々");
            reveal_strlit("FALLBACK_KANA");
            reveal_strlit("FALLBACK_ORPH");
            reveal_strlit("DICT_NAME");
            reveal_strlit("BYPASS");
        }
        match self {
            DecisionSource::Lr => {
                proof {
                    assert("LR"@ =~= spec_decision_name(self));
                }
                "LR"
            },
            DecisionSource::LrLow => {
                proof {
                    assert("LR_LOW"@ =~= spec_decision_name(self));
                }
                "LR_LOW"
            },
            DecisionSource::FallbackNumeric => {
                proof {
                    assert("FALLBACK_NUM"@ =~= spec_decision_name(self));
                }
                "FALLBACK_NUM"
            },
            DecisionSource::FallbackRepeat => {
                proof {
                    assert("FALLBACK_々"@ =~= spec_decision_name(self));
                }
                "FALLBACK_々"
            },
            DecisionSource::FallbackKana => {
                proof {
                    assert("FALLBACK_KANA"@ =~= spec_decision_name(self));
                }
                "FALLBACK_KANA"
            },
            DecisionSource::FallbackOrphan => {
                proof {
                    assert("FALLBACK_ORPH"@ =~= spec_decision_name(self));
                }
                "FALLBACK_ORPH"
            },
            DecisionSource::DictName => {
                proof {
                    assert("DICT_NAME"@ =~= spec_decision_name(self));
                }
                "DICT_NAME"
            },
            DecisionSource::Bypass => {
                proof {
                    assert("BYPASS"@ =~= spec_decision_name(self));
                }
                "BYPASS"
            },
        }
    }
}

// ------------------------------------------------------------
// Kana
// ------------------------------------------------------------

/// The katakana of a hiragana (U+3041–U+3096); other code points unchanged.
pub open spec fn spec_hiragana_to_katakana(cp: u32) -> u32 {
    if 0x3041 <= cp <= 0x3096 {
        (cp + 0x60) as u32
    } else {
        cp
    }
}

/// The katakana of a hiragana (U+3041–U+3096); other code points unchanged.
pub fn hiragana_to_katakana(cp: u32) -> (r: u32)
    ensures
        r == spec_hiragana_to_katakana(cp),
{
    if 0x3041 <= cp && cp <= 0x3096 {
        cp + 0x60
    } else {
        cp
    }
}

/// The characters of the code points that are characters, in order.
pub open spec fn spec_valid_chars(cps: Seq<u32>) -> Seq<char>
    decreases cps.len(),
{
    if cps.len() == 0 {
        Seq::empty()
    } else {
        let prev = spec_valid_chars(cps.drop_last());
        let cp = cps.last();
        if cp > 0x10FFFF || (0xD800 <= cp && cp <= 0xDFFF) {
            prev
        } else {
            prev.push(spec_char_of(cp))
        }
    }
}

/// The character of a valid code point.
pub open spec fn spec_char_of(cp: u32) -> char {
    cp as char
}

/// The code points of unit `e`: one, or two for a compound unit.
pub open spec fn spec_unit_cps(e: SourceEntry) -> Seq<u32> {
    if e.compound_len >= 2 {
        seq![e.cp, e.cp2]
    } else {
        seq![e.cp]
    }
}

pub(crate) fn push_cp(s: &mut String, cp: u32)
    ensures
        cp > 0x10FFFF || (0xD800 <= cp && cp <= 0xDFFF) ==> final(s)@ == old(s)@,
        !(cp > 0x10FFFF || (0xD800 <= cp && cp <= 0xDFFF)) ==> final(s)@ == old(s)@.push(
            spec_char_of(cp),
        ),
{
    match char_from_u32(cp) {
        Some(c) => {
            proof {
                assert(c == spec_char_of(cp));
            }
            push_char(s, c);
        },
        None => {},
    }
}

/// A hiragana unit read directly: its kana in katakana.
pub fn hiragana_direct(entry: &SourceEntry) -> (s: String)
    ensures
        s@ == spec_valid_chars(spec_unit_cps(*entry).map_values(|cp: u32| spec_hiragana_to_katakana(cp))),
{
    let mut s = String::new();
    push_cp(&mut s, hiragana_to_katakana(entry.cp));
    if entry.compound_len >= 2 {
        push_cp(&mut s, hiragana_to_katakana(entry.cp2));
    }
    proof {
        reveal_with_fuel(spec_valid_chars, 3);
        let cps = spec_unit_cps(*entry).map_values(|cp: u32| spec_hiragana_to_katakana(cp));
        if entry.compound_len >= 2 {
            assert(cps.drop_last() =~= seq![spec_hiragana_to_katakana(entry.cp)]);
        }
        assert(seq![spec_hiragana_to_katakana(entry.cp)].drop_last() =~= Seq::<u32>::empty());
    }
    s
}

/// A katakana unit written as it is.
pub fn katakana_passthrough(entry: &SourceEntry) -> (s: String)
    ensures
        s@ == spec_valid_chars(spec_unit_cps(*entry)),
{
    let mut s = String::new();
    push_cp(&mut s, entry.cp);
    if entry.compound_len >= 2 {
        push_cp(&mut s, entry.cp2);
    }
    proof {
        reveal_with_fuel(spec_valid_chars, 3);
        if entry.compound_len >= 2 {
            assert(spec_unit_cps(*entry).drop_last() =~= seq![entry.cp]);
        }
        assert(seq![entry.cp].drop_last() =~= Seq::<u32>::empty());
    }
    s
}

/// The small kana: ぁぃぅぇぉっゃゅょゎ and ァィゥェォッャュョヮ.
pub open spec fn spec_is_small_kana(cp: u32) -> bool {
    cp == 0x3041 || cp == 0x3043 || cp == 0x3045 || cp == 0x3047 || cp == 0x3049 || cp == 0x3063
        || cp == 0x3083 || cp == 0x3085 || cp == 0x3087 || cp == 0x308E || cp == 0x30A1 || cp
        == 0x30A3 || cp == 0x30A5 || cp == 0x30A7 || cp == 0x30A9 || cp == 0x30C3 || cp == 0x30E3
        || cp == 0x30E5 || cp == 0x30E7 || cp == 0x30EE
}

/// Whether `cp` is a small kana (see [`spec_is_small_kana`]).
pub fn is_small_kana(cp: u32) -> (b: bool)
    ensures
        b == spec_is_small_kana(cp),
{
    cp == 0x3041 || cp == 0x3043 || cp == 0x3045 || cp == 0x3047 || cp == 0x3049 || cp == 0x3063
        || cp == 0x3083 || cp == 0x3085 || cp == 0x3087 || cp == 0x308E || cp == 0x30A1 || cp
        == 0x30A3 || cp == 0x30A5 || cp == 0x30A7 || cp == 0x30A9 || cp == 0x30C3 || cp == 0x30E3
        || cp == 0x30E5 || cp == 0x30E7 || cp == 0x30EE
}

/// Whether `cp` is ヵ or ヶ, the small katakana of counters.
pub fn is_counter_small_kana(cp: u32) -> (b: bool)
    ensures
        b == (cp == 0x30F5 || cp == 0x30F6),
{
    cp == 0x30F5 || cp == 0x30F6
}

/// The katakana of a hiragana (ぁ–ん, U+3041–U+3093); other code points
/// unchanged.
pub open spec fn spec_small_kana_to_kana(cp: u32) -> u32 {
    if 0x3041 <= cp <= 0x3093 {
        (cp + 0x60) as u32
    } else {
        cp
    }
}

/// The katakana of a hiragana (ぁ–ん); other code points unchanged.
pub fn small_kana_to_kana(cp: u32) -> (r: u32)
    ensures
        r == spec_small_kana_to_kana(cp),
{
    if 0x3041 <= cp && cp <= 0x3093 {
        cp + 0x60
    } else {
        cp
    }
}

// ------------------------------------------------------------
// Checks on the model's readings
// ------------------------------------------------------------

/// The voiced form of a katakana whose consonant voices in compounds
/// (カ→ガ ... ホ→ボ).
pub open spec fn spec_rendaku(c: char) -> Option<char> {
    if c == 'カ' { Some('ガ') } else if c == 'キ' { Some('ギ') } else if c == 'ク' { Some('グ') }
    else if c == 'ケ' { Some('ゲ') } else if c == 'コ' { Some('ゴ') } else if c == 'サ' { Some('ザ') }
    else if c == 'シ' { Some('ジ') } else if c == 'ス' { Some('ズ') } else if c == 'セ' { Some('ゼ') }
    else if c == 'ソ' { Some('ゾ') } else if c == 'タ' { Some('ダ') } else if c == 'チ' { Some('ヂ') }
    else if c == 'ツ' { Some('ヅ') } else if c == 'テ' { Some('デ') } else if c == 'ト' { Some('ド') }
    else if c == 'ハ' { Some('バ') } else if c == 'ヒ' { Some('ビ') } else if c == 'フ' { Some('ブ') }
    else if c == 'ヘ' { Some('ベ') } else if c == 'ホ' { Some('ボ') } else { None }
}

/// The voiced form of `c` (see [`spec_rendaku`]).
pub fn rendaku_first(c: char) -> (r: Option<char>)
    ensures
        r == spec_rendaku(c),
{
    if c == 'カ' { Some('ガ') } else if c == 'キ' { Some('ギ') } else if c == 'ク' { Some('グ') }
    else if c == 'ケ' { Some('ゲ') } else if c == 'コ' { Some('ゴ') } else if c == 'サ' { Some('ザ') }
    else if c == 'シ' { Some('ジ') } else if c == 'ス' { Some('ズ') } else if c == 'セ' { Some('ゼ') }
    else if c == 'ソ' { Some('ゾ') } else if c == 'タ' { Some('ダ') } else if c == 'チ' { Some('ヂ') }
    else if c == 'ツ' { Some('ヅ') } else if c == 'テ' { Some('デ') } else if c == 'ト' { Some('ド') }
    else if c == 'ハ' { Some('バ') } else if c == 'ヒ' { Some('ビ') } else if c == 'フ' { Some('ブ') }
    else if c == 'ヘ' { Some('ベ') } else if c == 'ホ' { Some('ボ') } else { None }
}

/// The voiced obstruents ガ–ゴ, ザ–ゾ, ダ–ド, バ–ボ.
pub open spec fn spec_is_voiced_obstruent(c: char) -> bool {
    c == 'ガ' || c == 'ギ' || c == 'グ' || c == 'ゲ' || c == 'ゴ' || c == 'ザ' || c == 'ジ' || c
        == 'ズ' || c == 'ゼ' || c == 'ゾ' || c == 'ダ' || c == 'ヂ' || c == 'ヅ' || c == 'デ' || c
        == 'ド' || c == 'バ' || c == 'ビ' || c == 'ブ' || c == 'ベ' || c == 'ボ'
}

/// Whether `c` is a voiced obstruent.
pub fn is_voiced_obstruent(c: char) -> (b: bool)
    ensures
        b == spec_is_voiced_obstruent(c),
{
    c == 'ガ' || c == 'ギ' || c == 'グ' || c == 'ゲ' || c == 'ゴ' || c == 'ザ' || c == 'ジ' || c
        == 'ズ' || c == 'ゼ' || c == 'ゾ' || c == 'ダ' || c == 'ヂ' || c == 'ヅ' || c == 'デ' || c
        == 'ド' || c == 'バ' || c == 'ビ' || c == 'ブ' || c == 'ベ' || c == 'ボ'
}

/// A valid reading of 々 after the reading `prev`: `prev` itself, or `prev`
/// with its first kana voiced when `prev` holds no voiced obstruent
/// (Lyman's law).
pub open spec fn spec_valid_repeat(label: Seq<char>, prev: Seq<char>) -> bool {
    ||| label == prev
    ||| (prev.len() > 0 && spec_rendaku(prev[0]) is Some && !(exists|k: int|
        0 <= k < prev.len() && spec_is_voiced_obstruent(#[trigger] prev[k])) && label
        == seq![spec_rendaku(prev[0])->Some_0] + prev.drop_first())
}

/// The unvoiced obstruent katakana カキクケコサシスセソタチ (odd code points
/// U+30AB–U+30C1), ツテト (U+30C4, U+30C6, U+30C8) and ハヒフヘホ (every
/// third code point from U+30CF): each one's voiced form is the code point
/// right after it.
pub open spec fn spec_unvoiced_cp(cp: int) -> bool {
    ||| (0x30AB <= cp <= 0x30C1 && cp % 2 == 1)
    ||| cp == 0x30C4
    ||| cp == 0x30C6
    ||| cp == 0x30C8
    ||| (0x30CF <= cp <= 0x30DB && (cp - 0x30CF) % 3 == 0)
}

/// `label` is `prev` with its first kana voiced (moved to the next code
/// point), `prev` starting with an unvoiced obstruent and holding no voiced
/// one.
pub open spec fn spec_voiced_first(label: Seq<char>, prev: Seq<char>) -> bool {
    &&& prev.len() > 0
    &&& spec_unvoiced_cp(prev[0] as int)
    &&& forall|k: int| 0 <= k < prev.len() ==> !spec_unvoiced_cp(#[trigger] prev[k] as int - 1)
    &&& label.len() == prev.len()
    &&& label[0] as int == prev[0] as int + 1
    &&& label.drop_first() == prev.drop_first()
}

/// A reading of 々 is valid after the reading `prev` exactly when it is
/// `prev` itself or `prev` with its first kana voiced (rendaku), which
/// Lyman's law allows only where `prev` holds no voiced obstruent.
pub proof fn lemma_valid_repeat_forms(label: Seq<char>, prev: Seq<char>)
    ensures
        spec_valid_repeat(label, prev) <==> (label == prev || spec_voiced_first(label, prev)),
{
    if spec_voiced_first(label, prev) {
        let v = spec_rendaku(prev[0]);
        assert(v is Some && v->Some_0 as int == prev[0] as int + 1);
        assert(v->Some_0 == label[0]);
        assert forall|k: int| 0 <= k < prev.len() implies !spec_is_voiced_obstruent(#[trigger] prev[k]) by {
            assert(!spec_unvoiced_cp(prev[k] as int - 1));
        }
        assert(label =~= seq![v->Some_0] + prev.drop_first());
    }
    if label != prev && spec_valid_repeat(label, prev) {
        let v = spec_rendaku(prev[0]);
        assert(v is Some);
        assert(spec_unvoiced_cp(prev[0] as int));
        assert(v->Some_0 as int == prev[0] as int + 1);
        assert forall|k: int| 0 <= k < prev.len() implies !spec_unvoiced_cp(#[trigger] prev[k] as int - 1) by {
            assert(!spec_is_voiced_obstruent(prev[k]));
        }
        assert(label.drop_first() =~= prev.drop_first());
    }
}

/// Whether the model's reading `label` of 々 is valid after `last_fallback`.
pub fn is_valid_repeat(label: &str, last_fallback: &str) -> (b: bool)
    ensures
        b == spec_valid_repeat(label@, last_fallback@),
{
    if str_eq(label, last_fallback) {
        return true;
    }
    let prev = chars_of(last_fallback);
    if prev.len() == 0 {
        return false;
    }
    let voiced = match rendaku_first(prev[0]) {
        Some(v) => v,
        None => {
            return false;
        },
    };
    let mut k: usize = 0;
    while k < prev.len()
        invariant
            prev@ == last_fallback@,
            label@ != last_fallback@,
            k <= prev@.len(),
            forall|j: int| 0 <= j < k ==> !spec_is_voiced_obstruent(#[trigger] prev@[j]),
        decreases prev@.len() - k,
    {
        if is_voiced_obstruent(prev[k]) {
            proof {
                assert(spec_is_voiced_obstruent(prev@[k as int]));
            }
            return false;
        }
        k = k + 1;
    }
    let lab = chars_of(label);
    if lab.len() != prev.len() || lab[0] != voiced {
        proof {
            if lab@ == seq![voiced] + prev@.drop_first() {
                assert(lab@.len() == prev@.len());
                assert(lab@[0] == voiced);
            }
        }
        return false;
    }
    let mut j: usize = 1;
    while j < lab.len()
        invariant
            prev@ == last_fallback@,
            label@ != last_fallback@,
            prev@.len() > 0,
            spec_rendaku(prev@[0]) == Some(voiced),
            forall|t: int| 0 <= t < prev@.len() ==> !spec_is_voiced_obstruent(#[trigger] prev@[t]),
            lab@ == label@,
            lab@.len() == prev@.len(),
            1 <= j <= lab@.len(),
            lab@[0] == voiced,
            forall|t: int| 1 <= t < j ==> lab@[t] == prev@[t],
        decreases lab@.len() - j,
    {
        if lab[j] != prev[j] {
            proof {
                let want = seq![voiced] + prev@.drop_first();
                assert(want[j as int] == prev@[j as int]);
            }
            return false;
        }
        j = j + 1;
    }
    proof {
        assert(lab@ =~= seq![voiced] + prev@.drop_first());
    }
    true
}

/// A valid reading of a hiragana unit: its direct katakana, or ワ for a lone
/// は, エ for a lone へ, ー for a lone う.
pub open spec fn spec_valid_kana_prediction(e: SourceEntry, label: Seq<char>, direct: Seq<char>) -> bool {
    ||| label == direct
    ||| (e.compound_len == 1 && ((e.cp == 0x306F && label == seq!['ワ']) || (e.cp == 0x3078
        && label == seq!['エ']) || (e.cp == 0x3046 && label == seq!['ー'])))
}

/// Whether the model's reading `label` of the hiragana unit `entry` is
/// valid, `direct` being its direct katakana.
pub fn is_valid_kana_prediction(entry: &SourceEntry, label: &str, direct: &str) -> (b: bool)
    ensures
        b == spec_valid_kana_prediction(*entry, label@, direct@),
{
    proof {
        reveal_strlit("ワ");
        reveal_strlit("エ");
        reveal_strlit("ー");
        assert("ワ"@ =~= seq!['ワ']);
        assert("エ"@ =~= seq!['エ']);
        assert("ー"@ =~= seq!['ー']);
    }
    if str_eq(label, direct) {
        return true;
    }
    if entry.compound_len == 1 {
        if entry.cp == 0x306F && str_eq(label, "ワ") {
            return true;
        }
        if entry.cp == 0x3078 && str_eq(label, "エ") {
            return true;
        }
        if entry.cp == 0x3046 && str_eq(label, "ー") {
            return true;
        }
    }
    false
}

} // verus!
