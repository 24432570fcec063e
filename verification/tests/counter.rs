use momors_core::counter::{arabic_run, counter_needs_gate, resolve_multi, resolve_phono, CounterAction};
use momors_core::featurize::to_source_seq;

#[test]
fn day_spell_exceptions() {
    assert_eq!(resolve_multi('日' as u32, 10, "カ"), Some(CounterAction::Spell("トオカ")));
    assert_eq!(resolve_multi('日' as u32, 20, "カ"), Some(CounterAction::Spell("ハツカ")));
}

#[test]
fn day_suffix_yon() {
    assert_eq!(resolve_multi('日' as u32, 14, "カ"), Some(CounterAction::DigitsPlus("カ")));
    assert_eq!(resolve_multi('日' as u32, 24, "カ"), Some(CounterAction::DigitsPlus("カ")));
}

#[test]
fn day_default_protect() {
    for v in [11, 12, 13, 15, 19, 21, 22, 25, 30, 31, 100] {
        assert_eq!(
            resolve_multi('日' as u32, v, "ニチ"),
            Some(CounterAction::DigitsPlus("ニチ")),
            "v={v}"
        );
    }
}

#[test]
fn day_gate_blocks_non_counter() {
    assert_eq!(resolve_multi('日' as u32, 2024, "ニ"), None);
    assert!(counter_needs_gate('日' as u32));
}

#[test]
fn nin_protect_no_gate() {
    assert_eq!(resolve_multi('人' as u32, 10, ""), Some(CounterAction::DigitsPlus("ニン")));
    assert_eq!(resolve_multi('人' as u32, 21, ""), Some(CounterAction::DigitsPlus("ニン")));
    assert!(!counter_needs_gate('人' as u32));
}

#[test]
fn unknown_counter() {
    assert_eq!(resolve_multi('つ' as u32, 3, ""), None);
    assert_eq!(resolve_multi('匹' as u32, 3, ""), None);
}

#[test]
fn arabic_run_len() {
    let s = to_source_seq("5日");
    assert_eq!(arabic_run(&s, 0), Some((5, 1)));
    let s = to_source_seq("21日");
    assert_eq!(arabic_run(&s, 0), Some((21, 2)));
    let s = to_source_seq("２０人");
    assert_eq!(arabic_run(&s, 0), Some((20, 2)));
}

#[test]
fn arabic_run_stops_and_none() {
    let s = to_source_seq("3月5日");
    assert_eq!(arabic_run(&s, 0), Some((3, 1)));
    let s = to_source_seq("日");
    assert_eq!(arabic_run(&s, 0), None);
}

fn digits(v: u32) -> usize {
    v.to_string().len()
}

#[test]
fn phono_hiki_classes() {
    for v in [1, 6, 8, 10, 16, 18, 20, 100] {
        assert_eq!(resolve_phono('匹' as u32, v, digits(v)), Some("ピキ"), "v={v}");
    }
    for v in [3, 13, 23] {
        assert_eq!(resolve_phono('匹' as u32, v, digits(v)), Some("ビキ"), "v={v}");
    }
    for v in [2, 4, 5, 7, 9, 12, 24] {
        assert_eq!(resolve_phono('匹' as u32, v, digits(v)), Some("ヒキ"), "v={v}");
    }
}

#[test]
fn phono_zero_is_not_juu() {
    assert_eq!(resolve_phono('匹' as u32, 0, 1), Some("ヒキ"));
}

#[test]
fn phono_kai_only_rendaku_at_three() {
    assert_eq!(resolve_phono('階' as u32, 3, 1), Some("ガイ"));
    assert_eq!(resolve_phono('階' as u32, 13, 2), Some("ガイ"));
    for v in [1, 6, 8, 10] {
        assert_eq!(resolve_phono('階' as u32, v, digits(v)), Some("カイ"), "v={v}");
    }
    for v in [2, 4, 5, 7, 9] {
        assert_eq!(resolve_phono('階' as u32, v, 1), Some("カイ"), "v={v}");
    }
}

#[test]
fn phono_unregistered_counter() {
    assert_eq!(resolve_phono('回' as u32, 3, 1), None);
    assert_eq!(resolve_phono('日' as u32, 1, 1), None);
}

#[test]
fn phono_hon_classes() {
    for v in [1, 6, 8, 10, 16, 18] {
        assert_eq!(resolve_phono('本' as u32, v, digits(v)), Some("ポン"), "v={v}");
    }
    for v in [3, 13, 23] {
        assert_eq!(resolve_phono('本' as u32, v, digits(v)), Some("ボン"), "v={v}");
    }
    for v in [2, 4, 5, 7, 9] {
        assert_eq!(resolve_phono('本' as u32, v, 1), Some("ホン"), "v={v}");
    }
}

#[test]
fn phono_han_three_stays_semivoiced() {
    assert_eq!(resolve_phono('版' as u32, 3, 1), Some("パン"));
    for v in [1, 6, 8, 10] {
        assert_eq!(resolve_phono('版' as u32, v, digits(v)), Some("パン"), "v={v}");
    }
    for v in [2, 4, 5, 7, 9] {
        assert_eq!(resolve_phono('版' as u32, v, 1), Some("ハン"), "v={v}");
    }
}

#[test]
fn phono_fun_single_digit_deferred_to_model() {
    for v in 0..=9 {
        assert_eq!(resolve_phono('分' as u32, v, 1), None, "v={v}");
    }
}

#[test]
fn phono_fun_multi_digit_is_unambiguous() {
    for v in [11, 13, 14, 16, 18, 20, 100] {
        assert_eq!(resolve_phono('分' as u32, v, digits(v)), Some("プン"), "v={v}");
    }
    for v in [12, 15, 17, 19, 22] {
        assert_eq!(resolve_phono('分' as u32, v, digits(v)), Some("フン"), "v={v}");
    }
}

#[test]
fn arabic_run_overflow_is_none() {
    let s = to_source_seq("99999999999日");
    assert_eq!(arabic_run(&s, 0), None);
    let s = to_source_seq("4294967295日");
    assert_eq!(arabic_run(&s, 0), Some((4294967295, 10)));
}
