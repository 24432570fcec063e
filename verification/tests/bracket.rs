use momors_core::bracket::{
    is_pair, lookup, Role, Treatment, ASIDE_TOKEN, INLINE_CLOSE_TOKEN, INLINE_OPEN_TOKEN,
};

#[test]
fn quotation_is_inline() {
    for c in "「」『』“”‘’【】".chars() {
        assert_eq!(lookup(c).map(|(_, t)| t), Some(Treatment::Inline), "{c}");
    }
}

#[test]
fn annotation_is_aside() {
    for c in "（）()｛｝".chars() {
        assert_eq!(lookup(c).map(|(_, t)| t), Some(Treatment::Aside), "{c}");
    }
}

#[test]
fn roles() {
    for c in "「『“‘（(｛【".chars() {
        assert_eq!(lookup(c).map(|(r, _)| r), Some(Role::Open), "{c}");
    }
    for c in "」』”’）)｝】".chars() {
        assert_eq!(lookup(c).map(|(r, _)| r), Some(Role::Close), "{c}");
    }
}

#[test]
fn pairs_match() {
    assert!(is_pair('（', '）'));
    assert!(is_pair('「', '」'));
    assert!(!is_pair('（', '」'));
    assert!(!is_pair('「', '）'));
}

#[test]
fn non_brackets_are_none() {
    assert_eq!(lookup('あ'), None);
    assert_eq!(lookup('。'), None);
    assert_eq!(lookup('、'), None);
    assert_eq!(lookup('…'), None);
    assert_eq!(lookup('A'), None);
}

#[test]
fn identity_tokens_match_python_bracket_py() {
    assert_eq!(INLINE_OPEN_TOKEN as u32, 0xE000);
    assert_eq!(INLINE_CLOSE_TOKEN as u32, 0xE001);
    assert_eq!(ASIDE_TOKEN as u32, 0xE002);
}
