//! Structural classes of brackets.
//!
//! Brackets are handled in two ways, depending on whether their content is
//! part of the flow of the sentence:
//!
//! - quotation brackets (`Inline`): the content is an argument of the sentence
//!   (`彼は『走れメロス』を読む`), so the bracket characters are only lifted out
//!   and the content is read together with the text around it;
//! - annotation brackets (`Aside`): the content is a side note
//!   (`オケ（オーケストラ）の団員`), so the whole span is taken out of the text,
//!   read on its own, and glued to the preceding word.
//!
//! For the features of the reading model, brackets are replaced by three
//! private-use code points ([`INLINE_OPEN_TOKEN`], [`INLINE_CLOSE_TOKEN`],
//! [`ASIDE_TOKEN`]): the individual bracket shapes are too rare for the n-gram
//! features to generalise.

use vstd::prelude::*;

verus! {

/// Which side a bracket sticks to.
#[derive(Debug, Clone, Copy, PartialEq, Eq, Structural)]
pub enum Role {
    /// Opening bracket: sticks to the character after it.
    Open,
    /// Closing bracket: sticks to the character before it.
    Close,
}

/// How the content of a bracket pair is read.
#[derive(Debug, Clone, Copy, PartialEq, Eq, Structural)]
pub enum Treatment {
    /// Quotation: the content stays in the flow of the sentence.
    Inline,
    /// Annotation: the content is read apart and glued to the preceding word.
    Aside,
}

/// The bracket table: `Some((role, treatment))` for the brackets the library
/// knows, `None` for every other character.
pub open spec fn spec_lookup(c: char) -> Option<(Role, Treatment)> {
    if c == '「' || c == '『' || c == '“' || c == '‘' || c == '【' {
        Some((Role::Open, Treatment::Inline))
    } else if c == '」' || c == '』' || c == '”' || c == '’' || c == '】' {
        Some((Role::Close, Treatment::Inline))
    } else if c == '（' || c == '(' || c == '｛' {
        Some((Role::Open, Treatment::Aside))
    } else if c == '）' || c == ')' || c == '｝' {
        Some((Role::Close, Treatment::Aside))
    } else {
        None
    }
}

/// The pairs of the bracket table.
pub open spec fn spec_is_pair(open: char, close: char) -> bool {
    ||| (open == '「' && close == '」')
    ||| (open == '『' && close == '』')
    ||| (open == '“' && close == '”')
    ||| (open == '‘' && close == '’')
    ||| (open == '（' && close == '）')
    ||| (open == '(' && close == ')')
    ||| (open == '｛' && close == '｝')
    ||| (open == '【' && close == '】')
}

/// `(role, treatment)` of the bracket `c`, or `None` if `c` is no bracket.
pub fn lookup(c: char) -> (r: Option<(Role, Treatment)>)
    ensures
        r == spec_lookup(c),
{
    if c == '「' || c == '『' || c == '“' || c == '‘' || c == '【' {
        Some((Role::Open, Treatment::Inline))
    } else if c == '」' || c == '』' || c == '”' || c == '’' || c == '】' {
        Some((Role::Close, Treatment::Inline))
    } else if c == '（' || c == '(' || c == '｛' {
        Some((Role::Open, Treatment::Aside))
    } else if c == '）' || c == ')' || c == '｝' {
        Some((Role::Close, Treatment::Aside))
    } else {
        None
    }
}

/// Whether `open` and `close` form one bracket pair.
pub fn is_pair(open: char, close: char) -> (b: bool)
    ensures
        b == spec_is_pair(open, close),
{
    (open == '「' && close == '」') || (open == '『' && close == '』') || (open == '“' && close
        == '”') || (open == '‘' && close == '’') || (open == '（' && close == '）') || (open
        == '(' && close == ')') || (open == '｛' && close == '｝') || (open == '【' && close
        == '】')
}

/// Stands for a quotation opening bracket in the features.
pub const INLINE_OPEN_TOKEN: char = '\u{E000}';

/// Stands for a quotation closing bracket in the features.
pub const INLINE_CLOSE_TOKEN: char = '\u{E001}';

/// Stands for a whole annotation span in the features.
pub const ASIDE_TOKEN: char = '\u{E002}';

/// Every bracket of the table has its partner: each opening bracket pairs
/// with exactly one closing bracket, of its treatment, and each closing
/// bracket with exactly one opening one. A fullwidth or ASCII parenthesis,
/// brace or corner bracket pairs with the character of its own glyph, which
/// Unicode places right after it (two after it for the braces).
pub proof fn lemma_every_bracket_has_its_pair(c: char)
    ensures
        spec_lookup(c) matches Some((Role::Open, t)) ==> exists|d: char|
            #[trigger] spec_is_pair(c, d) && spec_lookup(d) == Some((Role::Close, t)),
        spec_lookup(c) matches Some((Role::Close, t)) ==> exists|d: char|
            #[trigger] spec_is_pair(d, c) && spec_lookup(d) == Some((Role::Open, t)),
        forall|d1: char, d2: char| spec_is_pair(c, d1) && spec_is_pair(c, d2) ==> d1 == d2,
        forall|d1: char, d2: char| spec_is_pair(d1, c) && spec_is_pair(d2, c) ==> d1 == d2,
        (c == '(' || c == '（' || c == '「' || c == '『' || c == '【' || c == '“' || c == '‘')
            ==> spec_is_pair(c, ((c as u32) + 1) as char),
        c == '｛' ==> spec_is_pair(c, ((c as u32) + 2) as char),
{
    if c == '「' { assert(spec_is_pair(c, '」')); }
    if c == '『' { assert(spec_is_pair(c, '』')); }
    if c == '“' { assert(spec_is_pair(c, '”')); }
    if c == '‘' { assert(spec_is_pair(c, '’')); }
    if c == '【' { assert(spec_is_pair(c, '】')); }
    if c == '（' { assert(spec_is_pair(c, '）')); }
    if c == '(' { assert(spec_is_pair(c, ')')); }
    if c == '｛' { assert(spec_is_pair(c, '｝')); }
    if c == '」' { assert(spec_is_pair('「', c)); }
    if c == '』' { assert(spec_is_pair('『', c)); }
    if c == '”' { assert(spec_is_pair('“', c)); }
    if c == '’' { assert(spec_is_pair('‘', c)); }
    if c == '】' { assert(spec_is_pair('【', c)); }
    if c == '）' { assert(spec_is_pair('（', c)); }
    if c == ')' { assert(spec_is_pair('(', c)); }
    if c == '｝' { assert(spec_is_pair('｛', c)); }
}

/// Every pair of the table is made of an opening and a closing bracket of the
/// same treatment.
pub proof fn lemma_pairs_match_roles(open: char, close: char)
    requires
        spec_is_pair(open, close),
    ensures
        spec_lookup(open) matches Some((Role::Open, t1)) && spec_lookup(close) matches Some(
            (Role::Close, t2),
        ) && t1 == t2,
{
}

} // verus!
