//! Readings of numbers written in Arabic digits before a counter.
//!
//! One-digit readings (2日 ふつか, 1人 ひとり) are the model's business. These
//! rules keep multi-digit numbers from taking a one-digit reading: a run of
//! two or more digits before 日 or 人 keeps its digits and takes the plain
//! suffix (21日 → 21ニチ, 21人 → 21ニン), except where braille digits would
//! be misread: 10日 and 20日 are spelled トオカ and ハツカ, 14日 and 24日 take
//! カ. For 日 the rule fires only when the model read 日 as ニチ, カ or タチ
//! (so 2024日本 is left alone).
//!
//! Counters whose first consonant changes with the last digit (匹, 階, 本, 分,
//! 版) get their reading from that digit alone; 分 only after two digits or
//! more, since a single digit may be a ratio (ブ).

use vstd::prelude::*;

use crate::char_type::CharType;
use crate::featurize::SourceEntry;
use crate::text::str_eq;

verus! {

/// What the counter rules do with a multi-digit run and its counter.
#[derive(Debug, Clone, Copy, PartialEq, Eq)]
pub enum CounterAction {
    /// The digits and the counter are replaced by this reading (10日 → トオカ).
    Spell(&'static str),
    /// The digits are kept and the counter is read with this suffix (21日 →
    /// 21 + ニチ).
    DigitsPlus(&'static str),
}

pub open spec fn spec_action_text(a: CounterAction) -> (bool, Seq<char>) {
    match a {
        CounterAction::Spell(s) => (true, s@),
        CounterAction::DigitsPlus(s) => (false, s@),
    }
}

pub open spec fn cp_day() -> u32 {
    0x65E5
}

pub open spec fn cp_person() -> u32 {
    0x4EBA
}

/// Whether the counter `cp` has rules for multi-digit runs.
pub open spec fn spec_is_counter(cp: u32) -> bool {
    cp == cp_day() || cp == cp_person()
}

/// Whether the counter only fires when the model's reading of it confirms it.
pub open spec fn spec_needs_gate(cp: u32) -> bool {
    cp == cp_day()
}

/// Whether the model's reading of the counter lets the rule fire.
pub open spec fn spec_gate_ok(cp: u32, reading: Seq<char>) -> bool {
    !spec_needs_gate(cp) || reading == seq!['ニ', 'チ'] || reading == seq!['カ'] || reading
        == seq!['タ', 'チ']
}

/// The multi-digit rule of 日 fires exactly when the model read 日 as ニチ,
/// カ or タチ; that of 人 fires whatever the model read; no other code point
/// has the rule.
pub proof fn lemma_multi_gate(cp: u32, reading: Seq<char>)
    ensures
        (spec_is_counter(cp) && spec_gate_ok(cp, reading)) <==> ((cp == 0x65E5 && (reading
            == seq!['ニ', 'チ'] || reading == seq!['カ'] || reading == seq!['タ', 'チ'])) || cp
            == 0x4EBA),
{
}

/// The action for a multi-digit run of value `value` before counter `cp`.
pub open spec fn spec_action(cp: u32, value: u32) -> (bool, Seq<char>) {
    if cp == cp_day() {
        if value == 10 {
            (true, seq!['ト', 'オ', 'カ'])
        } else if value == 20 {
            (true, seq!['ハ', 'ツ', 'カ'])
        } else if value == 14 || value == 24 {
            (false, seq!['カ'])
        } else {
            (false, seq!['ニ', 'チ'])
        }
    } else {
        (false, seq!['ニ', 'ン'])
    }
}

/// Whether the counter `counter_cp` checks the model's reading before firing.
pub fn counter_needs_gate(counter_cp: u32) -> (b: bool)
    ensures
        b == spec_needs_gate(counter_cp),
{
    counter_cp == 0x65E5
}

/// The action for a multi-digit run of value `value` before the counter
/// `counter_cp`, which the model read `model_reading`; `None` for a code point
/// that is no counter with rules, or when the reading does not confirm it.
pub fn resolve_multi(counter_cp: u32, value: u32, model_reading: &str) -> (r: Option<
    CounterAction,
>)
    ensures
        match r {
            Some(a) => spec_is_counter(counter_cp) && spec_gate_ok(counter_cp, model_reading@)
                && spec_action_text(a) == spec_action(counter_cp, value),
            None => !spec_is_counter(counter_cp) || !spec_gate_ok(counter_cp, model_reading@),
        },
        counter_cp == 0x65E5 && (model_reading@ == seq!['ニ', 'チ'] || model_reading@ == seq!['カ']
            || model_reading@ == seq!['タ', 'チ']) ==> r is Some,
        counter_cp == 0x4EBA ==> r is Some,
        r is Some ==> counter_cp == 0x65E5 || counter_cp == 0x4EBA,
{
    proof {
        reveal_strlit("ニチ");
        reveal_strlit("カ");
        reveal_strlit("タチ");
        reveal_strlit("トオカ");
        reveal_strlit("ハツカ");
        reveal_strlit("ニン");
        assert("ニチ"@ =~= seq!['ニ', 'チ']);
        assert("カ"@ =~= seq!['カ']);
        assert("タチ"@ =~= seq!['タ', 'チ']);
        assert("トオカ"@ =~= seq!['ト', 'オ', 'カ']);
        assert("ハツカ"@ =~= seq!['ハ', 'ツ', 'カ']);
        assert("ニン"@ =~= seq!['ニ', 'ン']);
    }
    if counter_cp == 0x65E5 {
        if !(str_eq(model_reading, "ニチ") || str_eq(model_reading, "カ") || str_eq(
            model_reading,
            "タチ",
        )) {
            return None;
        }
        if value == 10 {
            Some(CounterAction::Spell("トオカ"))
        } else if value == 20 {
            Some(CounterAction::Spell("ハツカ"))
        } else if value == 14 || value == 24 {
            Some(CounterAction::DigitsPlus("カ"))
        } else {
            Some(CounterAction::DigitsPlus("ニチ"))
        }
    } else if counter_cp == 0x4EBA {
        Some(CounterAction::DigitsPlus("ニン"))
    } else {
        None
    }
}

// ------------------------------------------------------------
// Counters read by the last digit
// ------------------------------------------------------------

/// The reading of the counter `cp` after a number ending in digit `last`
/// (`last == 0` standing for a number that ends in 0 and is not 0 itself),
/// for the counters that have such rules.
pub open spec fn spec_phono_reading(cp: u32, last: u32) -> Option<Seq<char>> {
    if cp == 0x5339 {
        // 匹
        Some(
            if last == 1 || last == 6 || last == 8 || last == 0 {
                seq!['ピ', 'キ']
            } else if last == 3 {
                seq!['ビ', 'キ']
            } else {
                seq!['ヒ', 'キ']
            },
        )
    } else if cp == 0x968E {
        // 階
        Some(if last == 3 { seq!['ガ', 'イ'] } else { seq!['カ', 'イ'] })
    } else if cp == 0x672C {
        // 本
        Some(
            if last == 1 || last == 6 || last == 8 || last == 0 {
                seq!['ポ', 'ン']
            } else if last == 3 {
                seq!['ボ', 'ン']
            } else {
                seq!['ホ', 'ン']
            },
        )
    } else if cp == 0x5206 {
        // 分
        Some(
            if last == 1 || last == 3 || last == 4 || last == 6 || last == 8 || last == 0 {
                seq!['プ', 'ン']
            } else {
                seq!['フ', 'ン']
            },
        )
    } else if cp == 0x7248 {
        // 版
        Some(
            if last == 1 || last == 6 || last == 8 || last == 0 || last == 3 {
                seq!['パ', 'ン']
            } else {
                seq!['ハ', 'ン']
            },
        )
    } else {
        None
    }
}

/// The reading of a counter after the value 0 itself (no tens digit).
pub open spec fn spec_phono_default(cp: u32) -> Seq<char> {
    spec_phono_reading(cp, 2)->Some_0
}

/// Fewest digits the counter needs before the rule fires.
pub open spec fn spec_phono_min_digits(cp: u32) -> nat {
    if cp == 0x5206 { 2 } else { 1 }
}

/// The reading of counter `cp` after a run of `digit_count` digits of value
/// `value`; `None` for other counters, or for 分 after a single digit.
pub open spec fn spec_phono(cp: u32, value: u32, digit_count: nat) -> Option<Seq<char>> {
    if spec_phono_reading(cp, 0) is None || digit_count < spec_phono_min_digits(cp) {
        None
    } else if value == 0 {
        Some(spec_phono_default(cp))
    } else {
        spec_phono_reading(cp, value % 10)
    }
}

fn phono_reading(cp: u32, last: u32) -> (r: Option<&'static str>)
    requires
        last < 10,
    ensures
        match r {
            Some(s) => spec_phono_reading(cp, last) == Some(s@),
            None => spec_phono_reading(cp, last) is None,
        },
{
    proof {
        reveal_strlit("ピキ");
        reveal_strlit("ビキ");
        reveal_strlit("ヒキ");
        reveal_strlit("ガイ");
        reveal_strlit("カイ");
        reveal_strlit("ポン");
        reveal_strlit("ボン");
        reveal_strlit("ホン");
        reveal_strlit("プン");
        reveal_strlit("フン");
        reveal_strlit("パン");
        reveal_strlit("ハン");
        assert("ピキ"@ =~= seq!['ピ', 'キ']);
        assert("ビキ"@ =~= seq!['ビ', 'キ']);
        assert("ヒキ"@ =~= seq!['ヒ', 'キ']);
        assert("ガイ"@ =~= seq!['ガ', 'イ']);
        assert("カイ"@ =~= seq!['カ', 'イ']);
        assert("ポン"@ =~= seq!['ポ', 'ン']);
        assert("ボン"@ =~= seq!['ボ', 'ン']);
        assert("ホン"@ =~= seq!['ホ', 'ン']);
        assert("プン"@ =~= seq!['プ', 'ン']);
        assert("フン"@ =~= seq!['フ', 'ン']);
        assert("パン"@ =~= seq!['パ', 'ン']);
        assert("ハン"@ =~= seq!['ハ', 'ン']);
    }
    if cp == 0x5339 {
        Some(
            if last == 1 || last == 6 || last == 8 || last == 0 {
                "ピキ"
            } else if last == 3 {
                "ビキ"
            } else {
                "ヒキ"
            },
        )
    } else if cp == 0x968E {
        Some(
            if last == 3 {
                "ガイ"
            } else {
                "カイ"
            },
        )
    } else if cp == 0x672C {
        Some(
            if last == 1 || last == 6 || last == 8 || last == 0 {
                "ポン"
            } else if last == 3 {
                "ボン"
            } else {
                "ホン"
            },
        )
    } else if cp == 0x5206 {
        Some(
            if last == 1 || last == 3 || last == 4 || last == 6 || last == 8 || last == 0 {
                "プン"
            } else {
                "フン"
            },
        )
    } else if cp == 0x7248 {
        Some(
            if last == 1 || last == 6 || last == 8 || last == 0 || last == 3 {
                "パン"
            } else {
                "ハン"
            },
        )
    } else {
        None
    }
}

/// The reading of counter `counter_cp` after a run of `digit_count` digits of
/// value `value` (see [`spec_phono`]).
pub fn resolve_phono(counter_cp: u32, value: u32, digit_count: usize) -> (r: Option<&'static str>)
    ensures
        match r {
            Some(s) => spec_phono(counter_cp, value, digit_count as nat) == Some(s@),
            None => spec_phono(counter_cp, value, digit_count as nat) is None,
        },
{
    if phono_reading(counter_cp, 0).is_none() {
        return None;
    }
    let min_digits: usize = if counter_cp == 0x5206 {
        2
    } else {
        1
    };
    if digit_count < min_digits {
        return None;
    }
    if value == 0 {
        return phono_reading(counter_cp, 2);
    }
    phono_reading(counter_cp, value % 10)
}

// ------------------------------------------------------------
// Runs of Arabic digits
// ------------------------------------------------------------

/// The value of an ASCII or full-width digit.
pub open spec fn spec_ascii_digit(cp: u32) -> Option<u32> {
    if 0x30 <= cp <= 0x39 {
        Some((cp - 0x30) as u32)
    } else if 0xFF10 <= cp <= 0xFF19 {
        Some((cp - 0xFF10) as u32)
    } else {
        None
    }
}

/// A unit that continues a run of digits.
pub open spec fn spec_is_run_digit(e: SourceEntry) -> bool {
    spec_ascii_digit(e.cp) is Some && e.ctype == CharType::Numeric
}

/// End (exclusive) of the run of digits that starts at unit `j`.
pub open spec fn spec_run_end(seq: Seq<SourceEntry>, j: int) -> int
    decreases seq.len() - j,
{
    if 0 <= j < seq.len() && spec_is_run_digit(seq[j]) {
        spec_run_end(seq, j + 1)
    } else {
        j
    }
}

/// The decimal value of the digits of units `start..end`.
pub open spec fn spec_run_value(seq: Seq<SourceEntry>, start: int, end: int) -> nat
    decreases end - start,
{
    if end <= start {
        0
    } else {
        spec_run_value(seq, start, end - 1) * 10 + (spec_ascii_digit(seq[end - 1].cp)->Some_0 as nat)
    }
}

proof fn lemma_run_end_ge(seq: Seq<SourceEntry>, j: int)
    ensures
        spec_run_end(seq, j) >= j,
    decreases seq.len() - j,
{
    if 0 <= j < seq.len() && spec_is_run_digit(seq[j]) {
        lemma_run_end_ge(seq, j + 1);
    }
}

proof fn lemma_run_value_mono(seq: Seq<SourceEntry>, start: int, e1: int, e2: int)
    requires
        start <= e1 <= e2,
    ensures
        spec_run_value(seq, start, e1) <= spec_run_value(seq, start, e2),
    decreases e2 - e1,
{
    if e1 < e2 {
        lemma_run_value_mono(seq, start, e1, e2 - 1);
        assert(spec_run_value(seq, start, e2 - 1) <= spec_run_value(seq, start, e2 - 1) * 10)
            by (nonlinear_arith);
    }
}

/// The value of an ASCII or full-width digit.
fn ascii_digit_value(cp: u32) -> (r: Option<u32>)
    ensures
        r == spec_ascii_digit(cp),
{
    if 0x30 <= cp && cp <= 0x39 {
        Some(cp - 0x30)
    } else if 0xFF10 <= cp && cp <= 0xFF19 {
        Some(cp - 0xFF10)
    } else {
        None
    }
}

/// The value and end (exclusive) of the run of Arabic digits (ASCII or
/// full width) that starts at unit `start`: `None` when that unit is no digit
/// or the value does not fit in a `u32`.
pub fn arabic_run(seq: &[SourceEntry], start: usize) -> (r: Option<(u32, usize)>)
    ensures
        match r {
            Some((v, e)) => start < seq@.len() && spec_ascii_digit(seq@[start as int].cp) is Some
                && e == spec_run_end(seq@, start as int) && v == spec_run_value(
                seq@,
                start as int,
                e as int,
            ),
            None => start >= seq@.len() || spec_ascii_digit(seq@[start as int].cp) is None
                || spec_run_value(seq@, start as int, spec_run_end(seq@, start as int))
                > u32::MAX,
        },
{
    let n = seq.len();
    if start >= n {
        return None;
    }
    if ascii_digit_value(seq[start].cp).is_none() {
        return None;
    }
    let mut end = start;
    let mut val: u64 = 0;
    while end < n
        invariant_except_break
            n == seq@.len(),
            start <= end <= n,
            val == spec_run_value(seq@, start as int, end as int),
            val <= u32::MAX,
            spec_run_end(seq@, start as int) == spec_run_end(seq@, end as int),
        ensures
            start <= end <= n,
            val == spec_run_value(seq@, start as int, end as int),
            val <= u32::MAX,
            spec_run_end(seq@, start as int) == end,
        decreases n - end,
    {
        let e = seq[end];
        match ascii_digit_value(e.cp) {
            Some(d) => {
                if e.ctype == CharType::Numeric {
                    val = val * 10 + d as u64;
                    if val > 0xFFFF_FFFF {
                        proof {
                            lemma_run_end_ge(seq@, end as int + 1);
                            lemma_run_value_mono(
                                seq@,
                                start as int,
                                end as int + 1,
                                spec_run_end(seq@, start as int),
                            );
                        }
                        return None;
                    }
                    end = end + 1;
                } else {
                    break;
                }
            },
            None => {
                break;
            },
        }
    }
    Some((val as u32, end))
}

} // verus!
