//! Rule-based readings of kanji numerals, used when the reading model is
//! unsure of one.
//!
//! Numeral kanji (〇一二三四五六七八九, 壱弐参) become one ASCII digit; the
//! place-value kanji (十百千万億兆) depend on whether kanji numerals stand
//! next to them: 十 alone is "10", after a numeral "0", before one "1", and
//! between two it is dropped; 百 gives "100", "00", "1", "0"; 千 before a
//! numeral is "0", else "セン", or "ゼン" right after 三; 万, 億, 兆 give
//! "マン", "オク", "チョー".

use vstd::prelude::*;

use crate::char_type::CharType;
use crate::featurize::SourceEntry;
use crate::text::{chars_of, str_eq};

verus! {

/// What the rules make of a kanji numeral.
#[derive(Debug, Clone, Copy, PartialEq, Eq)]
pub enum NumericFallback {
    /// Nothing is written for this unit (十 in 三百二十).
    Skip,
    /// This text is written.
    Output(&'static str),
}

/// The digit a numeral kanji stands for.
pub open spec fn spec_digit(cp: u32) -> Option<char> {
    if cp == 0x3007 {
        Some('0')
    } else if cp == 0x4E00 || cp == 0x58F1 {
        Some('1')
    } else if cp == 0x4E8C || cp == 0x5F10 {
        Some('2')
    } else if cp == 0x4E09 || cp == 0x53C2 {
        Some('3')
    } else if cp == 0x56DB {
        Some('4')
    } else if cp == 0x4E94 {
        Some('5')
    } else if cp == 0x516D {
        Some('6')
    } else if cp == 0x4E03 {
        Some('7')
    } else if cp == 0x516B {
        Some('8')
    } else if cp == 0x4E5D {
        Some('9')
    } else {
        None
    }
}

/// The reading of a place-value kanji `cp` given the code point on its left
/// and whether kanji numerals stand on its left and right; `None` means the
/// unit is dropped (also for anything that is no place-value kanji).
pub open spec fn spec_kurai(cp: u32, left_cp: u32, left: bool, right: bool) -> Option<Seq<char>> {
    if cp == 0x5341 {
        if left && right {
            None
        } else if left {
            Some(seq!['0'])
        } else if right {
            Some(seq!['1'])
        } else {
            Some(seq!['1', '0'])
        }
    } else if cp == 0x767E {
        if left && right {
            Some(seq!['0'])
        } else if left {
            Some(seq!['0', '0'])
        } else if right {
            Some(seq!['1'])
        } else {
            Some(seq!['1', '0', '0'])
        }
    } else if cp == 0x5343 {
        if right {
            Some(seq!['0'])
        } else if left_cp == 0x4E09 {
            Some(seq!['ゼ', 'ン'])
        } else {
            Some(seq!['セ', 'ン'])
        }
    } else if cp == 0x4E07 {
        Some(seq!['マ', 'ン'])
    } else if cp == 0x5104 {
        Some(seq!['オ', 'ク'])
    } else if cp == 0x5146 {
        Some(seq!['チ', 'ョ', 'ー'])
    } else {
        None
    }
}

/// Whether unit `i` of `seq` has a kanji numeral on its left.
pub open spec fn spec_left_numeric(seq: Seq<SourceEntry>, i: int) -> bool {
    i > 0 && seq[i - 1].ctype == CharType::JapaneseNumeric
}

/// Whether unit `i` of `seq` has a kanji numeral on its right.
pub open spec fn spec_right_numeric(seq: Seq<SourceEntry>, i: int) -> bool {
    i + 1 < seq.len() && seq[i + 1].ctype == CharType::JapaneseNumeric
}

/// What the rules make of unit `i`: its digit, else its place-value reading.
pub open spec fn spec_numeric_fallback(seq: Seq<SourceEntry>, i: int) -> Option<Seq<char>> {
    match spec_digit(seq[i].cp) {
        Some(d) => Some(seq![d]),
        None => spec_kurai(
            seq[i].cp,
            if i > 0 { seq[i - 1].cp } else { 0 },
            spec_left_numeric(seq, i),
            spec_right_numeric(seq, i),
        ),
    }
}

/// The result as text: `None` for [`NumericFallback::Skip`].
pub open spec fn spec_fallback_text(r: NumericFallback) -> Option<Seq<char>> {
    match r {
        NumericFallback::Skip => None,
        NumericFallback::Output(s) => Some(s@),
    }
}

/// The one-digit string of a numeral kanji, `None` for any other code point
/// (the place-value kanji included).
pub fn digit_table(cp: u32) -> (r: Option<&'static str>)
    ensures
        match r {
            Some(s) => spec_digit(cp) == Some(s@[0]) && s@.len() == 1,
            None => spec_digit(cp) is None,
        },
{
    proof {
        reveal_strlit("0");
        reveal_strlit("1");
        reveal_strlit("2");
        reveal_strlit("3");
        reveal_strlit("4");
        reveal_strlit("5");
        reveal_strlit("6");
        reveal_strlit("7");
        reveal_strlit("8");
        reveal_strlit("9");
    }
    if cp == 0x3007 {
        Some("0")
    } else if cp == 0x4E00 || cp == 0x58F1 {
        Some("1")
    } else if cp == 0x4E8C || cp == 0x5F10 {
        Some("2")
    } else if cp == 0x4E09 || cp == 0x53C2 {
        Some("3")
    } else if cp == 0x56DB {
        Some("4")
    } else if cp == 0x4E94 {
        Some("5")
    } else if cp == 0x516D {
        Some("6")
    } else if cp == 0x4E03 {
        Some("7")
    } else if cp == 0x516B {
        Some("8")
    } else if cp == 0x4E5D {
        Some("9")
    } else {
        None
    }
}

/// The reading of a place-value kanji (see [`spec_kurai`]).
pub fn kurai_fallback(cp: u32, left_cp: u32, left_is_numeric: bool, right_is_numeric: bool) -> (r:
    NumericFallback)
    ensures
        spec_fallback_text(r) == spec_kurai(cp, left_cp, left_is_numeric, right_is_numeric),
{
    proof {
        reveal_strlit("0");
        reveal_strlit("1");
        reveal_strlit("10");
        reveal_strlit("00");
        reveal_strlit("100");
        reveal_strlit("ゼン");
        reveal_strlit("セン");
        reveal_strlit("マン");
        reveal_strlit("オク");
        reveal_strlit("チョー");
    }
    if cp == 0x5341 {
        if left_is_numeric && right_is_numeric {
            NumericFallback::Skip
        } else if left_is_numeric {
            NumericFallback::Output("0")
        } else if right_is_numeric {
            NumericFallback::Output("1")
        } else {
            NumericFallback::Output("10")
        }
    } else if cp == 0x767E {
        if left_is_numeric && right_is_numeric {
            NumericFallback::Output("0")
        } else if left_is_numeric {
            NumericFallback::Output("00")
        } else if right_is_numeric {
            NumericFallback::Output("1")
        } else {
            NumericFallback::Output("100")
        }
    } else if cp == 0x5343 {
        if right_is_numeric {
            NumericFallback::Output("0")
        } else if left_cp == 0x4E09 {
            NumericFallback::Output("ゼン")
        } else {
            NumericFallback::Output("セン")
        }
    } else if cp == 0x4E07 {
        NumericFallback::Output("マン")
    } else if cp == 0x5104 {
        NumericFallback::Output("オク")
    } else if cp == 0x5146 {
        NumericFallback::Output("チョー")
    } else {
        NumericFallback::Skip
    }
}

/// The rule-based reading of unit `i` (see [`spec_numeric_fallback`]).
pub fn convert_japanese_numeric(i: usize, seq: &[SourceEntry]) -> (r: NumericFallback)
    requires
        i < seq@.len(),
    ensures
        spec_fallback_text(r) == spec_numeric_fallback(seq@, i as int),
{
    let n = seq.len();
    let cp = seq[i].cp;
    let left_cp = if i > 0 {
        seq[i - 1].cp
    } else {
        0
    };
    let left_is_numeric = i > 0 && seq[i - 1].ctype == CharType::JapaneseNumeric;
    let right_is_numeric = i + 1 < n && seq[i + 1].ctype == CharType::JapaneseNumeric;
    match digit_table(cp) {
        Some(d) => {
            proof {
                assert(d@ =~= seq![d@[0]]);
            }
            NumericFallback::Output(d)
        },
        None => kurai_fallback(cp, left_cp, left_is_numeric, right_is_numeric),
    }
}

/// The kun readings of numeral kanji that start a counter word (ひとつ,
/// ふたり, みっか, ここのつ, とおか, ...).
pub open spec fn spec_is_kun_numeral_reading(l: Seq<char>) -> bool {
    ||| l == seq!['ヒ', 'ト']
    ||| l == seq!['ツ', 'イ']
    ||| l == seq!['フ', 'ツ']
    ||| l == seq!['フ', 'タ']
    ||| l == seq!['ミ', 'ッ']
    ||| l == seq!['ヨ', 'ッ']
    ||| l == seq!['ヨ']
    ||| l == seq!['イ', 'ツ']
    ||| l == seq!['ム', 'イ']
    ||| l == seq!['ム', 'ッ']
    ||| l == seq!['ナ', 'ノ']
    ||| l == seq!['ナ', 'ナ']
    ||| l == seq!['ヨ', 'ー']
    ||| l == seq!['ヤ', 'ッ']
    ||| l == seq!['コ', 'コ', 'ノ']
    ||| l == seq!['ト', 'オ']
}

/// Whether `label` is the kun reading of a numeral kanji that starts a
/// counter word.
pub fn is_kun_numeral_reading(label: &str) -> (b: bool)
    ensures
        b == spec_is_kun_numeral_reading(label@),
{
    proof {
        reveal_strlit("ヒト");
        reveal_strlit("ツイ");
        reveal_strlit("フツ");
        reveal_strlit("フタ");
        reveal_strlit("ミッ");
        reveal_strlit("ヨッ");
        reveal_strlit("ヨ");
        reveal_strlit("イツ");
        reveal_strlit("ムイ");
        reveal_strlit("ムッ");
        reveal_strlit("ナノ");
        reveal_strlit("ナナ");
        reveal_strlit("ヨー");
        reveal_strlit("ヤッ");
        reveal_strlit("ココノ");
        reveal_strlit("トオ");
        assert("ヒト"@ =~= seq!['ヒ', 'ト']);
        assert("ツイ"@ =~= seq!['ツ', 'イ']);
        assert("フツ"@ =~= seq!['フ', 'ツ']);
        assert("フタ"@ =~= seq!['フ', 'タ']);
        assert("ミッ"@ =~= seq!['ミ', 'ッ']);
        assert("ヨッ"@ =~= seq!['ヨ', 'ッ']);
        assert("ヨ"@ =~= seq!['ヨ']);
        assert("イツ"@ =~= seq!['イ', 'ツ']);
        assert("ムイ"@ =~= seq!['ム', 'イ']);
        assert("ムッ"@ =~= seq!['ム', 'ッ']);
        assert("ナノ"@ =~= seq!['ナ', 'ノ']);
        assert("ナナ"@ =~= seq!['ナ', 'ナ']);
        assert("ヨー"@ =~= seq!['ヨ', 'ー']);
        assert("ヤッ"@ =~= seq!['ヤ', 'ッ']);
        assert("ココノ"@ =~= seq!['コ', 'コ', 'ノ']);
        assert("トオ"@ =~= seq!['ト', 'オ']);
    }
    str_eq(label, "ヒト") || str_eq(label, "ツイ") || str_eq(label, "フツ") || str_eq(label, "フタ")
        || str_eq(label, "ミッ") || str_eq(label, "ヨッ") || str_eq(label, "ヨ") || str_eq(
        label,
        "イツ",
    ) || str_eq(label, "ムイ") || str_eq(label, "ムッ") || str_eq(label, "ナノ") || str_eq(
        label,
        "ナナ",
    ) || str_eq(label, "ヨー") || str_eq(label, "ヤッ") || str_eq(label, "ココノ") || str_eq(
        label,
        "トオ",
    )
}

/// Whether unit `i`, read `label`, is a kun numeral that must not be turned
/// into digits: its reading starts a counter word and no kanji numeral stands
/// next to it (三日 read ミッ is kept; 十三日 is a number).
pub fn is_protected_kun_numeral(label: &str, i: usize, seq: &[SourceEntry]) -> (b: bool)
    requires
        i < seq@.len(),
    ensures
        b == (spec_is_kun_numeral_reading(label@) && !spec_left_numeric(seq@, i as int)
            && !spec_right_numeric(seq@, i as int)),
{
    if !is_kun_numeral_reading(label) {
        return false;
    }
    let n = seq.len();
    let left_is_numeric = i > 0 && seq[i - 1].ctype == CharType::JapaneseNumeric;
    let right_is_numeric = i + 1 < n && seq[i + 1].ctype == CharType::JapaneseNumeric;
    !left_is_numeric && !right_is_numeric
}

/// A reading made of ASCII digits only (and at least one).
pub open spec fn spec_is_digit_label(l: Seq<char>) -> bool {
    l.len() > 0 && forall|k: int| 0 <= k < l.len() ==> '0' <= #[trigger] l[k] <= '9'
}

/// Whether the model read a unit as digits.
pub fn is_digit_label(label: &str) -> (b: bool)
    ensures
        b == spec_is_digit_label(label@),
{
    let cs = chars_of(label);
    if cs.len() == 0 {
        return false;
    }
    let mut k: usize = 0;
    while k < cs.len()
        invariant
            cs@ == label@,
            k <= cs@.len(),
            forall|j: int| 0 <= j < k ==> '0' <= #[trigger] cs@[j] <= '9',
        decreases cs@.len() - k,
    {
        let c = cs[k];
        if !('0' <= c && c <= '9') {
            return false;
        }
        k = k + 1;
    }
    true
}

/// The unit after a number reads as a kun counter: 日 read カ or タチ (みっか,
/// ついたち), つ read ツ (みっつ), 人 read リ (ふたり).
pub open spec fn spec_is_kun_counter_signal(next_char: Seq<char>, next_label: Seq<char>) -> bool {
    ||| (next_char == seq!['日'] && (next_label == seq!['カ'] || next_label == seq!['タ', 'チ']))
    ||| (next_char == seq!['つ'] && next_label == seq!['ツ'])
    ||| (next_char == seq!['人'] && next_label == seq!['リ'])
}

/// Whether the next unit, `next_char` read `next_label`, is a kun counter.
pub fn is_kun_counter_signal(next_char: &str, next_label: &str) -> (b: bool)
    ensures
        b == spec_is_kun_counter_signal(next_char@, next_label@),
{
    proof {
        reveal_strlit("日");
        reveal_strlit("カ");
        reveal_strlit("タチ");
        reveal_strlit("つ");
        reveal_strlit("ツ");
        reveal_strlit("人");
        reveal_strlit("リ");
        assert("日"@ =~= seq!['日']);
        assert("カ"@ =~= seq!['カ']);
        assert("タチ"@ =~= seq!['タ', 'チ']);
        assert("つ"@ =~= seq!['つ']);
        assert("ツ"@ =~= seq!['ツ']);
        assert("人"@ =~= seq!['人']);
        assert("リ"@ =~= seq!['リ']);
    }
    (str_eq(next_char, "日") && (str_eq(next_label, "カ") || str_eq(next_label, "タチ"))) || (
    str_eq(next_char, "つ") && str_eq(next_label, "ツ")) || (str_eq(next_char, "人") && str_eq(
        next_label,
        "リ",
    ))
}

} // verus!
