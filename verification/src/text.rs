//! UTF-8 bookkeeping shared by the text-processing modules.

use vstd::prelude::*;
use vstd::utf8::*;

verus! {

/// Number of bytes that `c` takes in UTF-8.
pub open spec fn utf8_width(c: char) -> nat {
    if (c as u32) < 0x80 {
        1
    } else if (c as u32) < 0x800 {
        2
    } else if (c as u32) < 0x10000 {
        3
    } else {
        4
    }
}

/// Number of bytes that the characters `s` take in UTF-8.
pub open spec fn byte_len(s: Seq<char>) -> nat
    decreases s.len(),
{
    if s.len() == 0 {
        0
    } else {
        byte_len(s.drop_last()) + utf8_width(s.last())
    }
}

/// The UTF-8 byte offset at which the `i`-th character of `s` starts.
pub open spec fn byte_offset(s: Seq<char>, i: int) -> nat {
    byte_len(s.take(i))
}

/// `byte_len` of a concatenation is the sum of the parts.
pub proof fn lemma_byte_len_concat(a: Seq<char>, b: Seq<char>)
    ensures
        byte_len(a + b) == byte_len(a) + byte_len(b),
    decreases b.len(),
{
    if b.len() == 0 {
        assert(a + b =~= a);
    } else {
        lemma_byte_len_concat(a, b.drop_last());
        assert((a + b).drop_last() =~= a + b.drop_last());
    }
}

/// `byte_len` grows with the prefix taken.
pub proof fn lemma_byte_offset_mono(s: Seq<char>, i: int, j: int)
    requires
        0 <= i <= j <= s.len(),
    ensures
        byte_offset(s, i) <= byte_offset(s, j),
        byte_offset(s, j) <= byte_len(s),
{
    lemma_byte_len_concat(s.take(i), s.subrange(i, j));
    assert(s.take(i) + s.subrange(i, j) =~= s.take(j));
    lemma_byte_len_concat(s.take(j), s.subrange(j, s.len() as int));
    assert(s.take(j) + s.subrange(j, s.len() as int) =~= s);
}

/// The next character starts `utf8_width` bytes after the current one.
pub proof fn lemma_byte_offset_step(s: Seq<char>, i: int)
    requires
        0 <= i < s.len(),
    ensures
        byte_offset(s, i + 1) == byte_offset(s, i) + utf8_width(s[i]),
{
    assert(s.take(i + 1).drop_last() =~= s.take(i));
}

/// `byte_len` is the length of vstd's UTF-8 encoding, hence `str::len`.
pub proof fn lemma_byte_len_is_encoding_len(s: Seq<char>)
    ensures
        byte_len(s) == encode_utf8(s).len(),
    decreases s.len(),
{
    if s.len() > 0 {
        lemma_byte_len_is_encoding_len(s.drop_first());
        lemma_byte_len_concat(seq![s[0]], s.drop_first());
        assert(seq![s[0]] + s.drop_first() =~= s);
        assert(seq![s[0]].drop_last() =~= Seq::<char>::empty());
        char_is_scalar(s[0]);
        assert(byte_len(Seq::<char>::empty()) == 0);
        assert(seq![s[0]].last() == s[0]);
        assert(byte_len(seq![s[0]]) == utf8_width(s[0]));
        assert(encode_scalar(s[0] as u32).len() == utf8_width(s[0]));
        assert(encode_utf8(s) == encode_scalar(s[0] as u32) + encode_utf8(s.drop_first()));
    }
}

/// `char::len_utf8`, computed from the code point ranges of UTF-8.
pub fn char_width(c: char) -> (w: usize)
    ensures
        w == utf8_width(c),
        1 <= w <= 4,
{
    let cp = c as u32;
    if cp < 0x80 {
        1
    } else if cp < 0x800 {
        2
    } else if cp < 0x10000 {
        3
    } else {
        4
    }
}

/// `str::len`: the number of UTF-8 bytes of `text`.
pub fn str_byte_len(text: &str) -> (n: usize)
    ensures
        n == byte_len(text@),
{
    proof {
        lemma_byte_len_is_encoding_len(text@);
    }
    let bytes = text.as_bytes();
    bytes.len()
}

/// The characters of `text`, in order.
pub fn chars_of(text: &str) -> (v: Vec<char>)
    ensures
        v@ == text@,
{
    let mut v: Vec<char> = Vec::new();
    for c in it: text.chars()
        invariant
            v@ == it.seq().take(it.index() as int),
            it.seq() == text@,
    {
        v.push(c);
    }
    v
}

#[verifier::external_body]
pub(crate) fn push_char(s: &mut String, c: char)
    ensures
        final(s)@ == old(s)@.push(c),
{
    s.push(c);
}

/// `str` equality.
#[verifier::external_body]
pub(crate) fn str_eq(a: &str, b: &str) -> (r: bool)
    ensures
        r == (a@ == b@),
{
    a == b
}

/// `char::from_u32`: the character of code point `cp`, `None` for a
/// surrogate or a value past U+10FFFF (as std documents it).
#[verifier::external_body]
pub fn char_from_u32(cp: u32) -> (r: Option<char>)
    ensures
        match r {
            Some(c) => c as u32 == cp && c == cp as char,
            None => cp > 0x10FFFF || (0xD800 <= cp && cp <= 0xDFFF),
        },
{
    char::from_u32(cp)
}

} // verus!
