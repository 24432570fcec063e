//! Character classes of the source text.
//!
//! Every character of the input is put in one [`CharType`]. The class drives
//! the whole pipeline: which characters are read by the model, which are copied
//! through, which close a word, which are dropped from the reading.
//!
//! The numeric value of each class (see [`CharType::to_u8`]) is what model
//! files store: its high nibble is the category (`0x0_` space, `0x1_` Latin
//! letters and digits, `0x2_` reserved, `0x3_` symbols, `0x4_` Japanese script,
//! `0x5_` characters kept only as source positions, `0xF_` unknown).

mod table;

use vstd::prelude::*;

use crate::text::str_eq;
pub use table::{spec_symbol_class, symbol_class};

verus! {

/// Class of a source character. `Default` is [`CharType::Space`].
#[derive(Debug, Clone, Copy, PartialEq, Eq, Structural, PartialOrd, Ord, Hash)]
pub enum CharType {
    Space,
    Alpha,
    Numeric,
    /// Reserved for later use.
    Reserved,
    Symbol,
    SymbolClose,
    SymbolOpen,
    SymbolStop,
    SymbolPause,
    Hiragana,
    Katakana,
    Kanji,
    JapaneseNumeric,
    /// Zero-width and format characters: absent from the reading, but their
    /// source position is kept.
    Skip,
    /// Characters of no known class; copied through unchanged.
    Other,
}

impl CharType {
    /// The byte value of the class in model files.
    pub open spec fn spec_value(self) -> u8 {
        match self {
            CharType::Space => 0x00,
            CharType::Alpha => 0x10,
            CharType::Numeric => 0x11,
            CharType::Reserved => 0x20,
            CharType::Symbol => 0x30,
            CharType::SymbolClose => 0x31,
            CharType::SymbolOpen => 0x32,
            CharType::SymbolStop => 0x33,
            CharType::SymbolPause => 0x34,
            CharType::Hiragana => 0x40,
            CharType::Katakana => 0x41,
            CharType::Kanji => 0x42,
            CharType::JapaneseNumeric => 0x43,
            CharType::Skip => 0x50,
            CharType::Other => 0xFF,
        }
    }

    /// The name of the class, as feature names and model exporters spell it.
    pub open spec fn spec_name(self) -> Seq<char> {
        match self {
            CharType::Space => "SPACE"@,
            CharType::Alpha => "ALPHA"@,
            CharType::Numeric => "NUM"@,
            CharType::Reserved => "RESERVED"@,
            CharType::Symbol => "SYMBOL"@,
            CharType::SymbolClose => "SYMBOL_CLOSE"@,
            CharType::SymbolOpen => "SYMBOL_OPEN"@,
            CharType::SymbolStop => "SYMBOL_STOP"@,
            CharType::SymbolPause => "SYMBOL_PAUSE"@,
            CharType::Hiragana => "HIRAGANA"@,
            CharType::Katakana => "KATAKANA"@,
            CharType::Kanji => "KANJI"@,
            CharType::JapaneseNumeric => "JAPANESE_NUMERIC"@,
            CharType::Skip => "SKIP"@,
            CharType::Other => "OTHER"@,
        }
    }

    /// Classes whose reading is the source character itself.
    pub open spec fn spec_is_bypass(self) -> bool {
        match self {
            CharType::Space | CharType::Symbol | CharType::SymbolClose | CharType::SymbolOpen
            | CharType::SymbolStop | CharType::SymbolPause | CharType::Other => true,
            _ => false,
        }
    }

    /// Classes after which no word boundary is asked of the model.
    pub open spec fn spec_skips_boundary_check(self) -> bool {
        match self {
            CharType::Space | CharType::SymbolStop | CharType::SymbolPause | CharType::Other => true,
            _ => false,
        }
    }

    /// The byte value of the class in model files.
    pub fn to_u8(self) -> (v: u8)
        ensures
            v == self.spec_value(),
    {
        match self {
            CharType::Space => 0x00,
            CharType::Alpha => 0x10,
            CharType::Numeric => 0x11,
            CharType::Reserved => 0x20,
            CharType::Symbol => 0x30,
            CharType::SymbolClose => 0x31,
            CharType::SymbolOpen => 0x32,
            CharType::SymbolStop => 0x33,
            CharType::SymbolPause => 0x34,
            CharType::Hiragana => 0x40,
            CharType::Katakana => 0x41,
            CharType::Kanji => 0x42,
            CharType::JapaneseNumeric => 0x43,
            CharType::Skip => 0x50,
            CharType::Other => 0xFF,
        }
    }

    /// The category: the high nibble of the byte value.
    pub fn category(self) -> (c: u8)
        ensures
            c == self.spec_value() & 0xF0,
    {
        self.to_u8() & 0xF0
    }

    /// Hiragana, katakana, kanji or kanji numeral.
    pub fn is_japanese(self) -> (b: bool)
        ensures
            b == (self.spec_value() & 0xF0 == 0x40),
            b == (self is Hiragana || self is Katakana || self is Kanji || self is JapaneseNumeric),
    {
        let c = self.category();
        proof {
            lemma_category_nibble(self.spec_value());
        }
        c == 0x40
    }

    /// One of the symbol classes.
    pub fn is_symbol(self) -> (b: bool)
        ensures
            b == (self.spec_value() & 0xF0 == 0x30),
            b == (self is Symbol || self is SymbolClose || self is SymbolOpen || self is SymbolStop
                || self is SymbolPause),
    {
        let c = self.category();
        proof {
            lemma_category_nibble(self.spec_value());
        }
        c == 0x30
    }

    /// Latin letters and digits.
    pub fn is_latin(self) -> (b: bool)
        ensures
            b == (self.spec_value() & 0xF0 == 0x10),
            b == (self is Alpha || self is Numeric),
    {
        let c = self.category();
        proof {
            lemma_category_nibble(self.spec_value());
        }
        c == 0x10
    }

    /// Whether the reading of a character of this class is the character
    /// itself: spaces, all symbols, and unknown characters. Latin letters are
    /// not among them: their reading is copied too, but the word boundary
    /// after them is asked of the model.
    pub fn is_bypass(self) -> (b: bool)
        ensures
            b == self.spec_is_bypass(),
    {
        match self {
            CharType::Space | CharType::Symbol | CharType::SymbolClose | CharType::SymbolOpen
            | CharType::SymbolStop | CharType::SymbolPause | CharType::Other => true,
            _ => false,
        }
    }

    /// Whether no word boundary is asked after a character of this class:
    /// source spaces, sentence stops, pauses and unknown characters. Other
    /// symbols and brackets do ask the model.
    pub fn skips_boundary_check(self) -> (b: bool)
        ensures
            b == self.spec_skips_boundary_check(),
    {
        match self {
            CharType::Space | CharType::SymbolStop | CharType::SymbolPause | CharType::Other => true,
            _ => false,
        }
    }

    /// Characters that are absent from the reading but keep their source
    /// position.
    pub fn is_skip(self) -> (b: bool)
        ensures
            b == (self.spec_value() & 0xF0 == 0x50),
            b == (self is Skip),
    {
        let c = self.category();
        proof {
            lemma_category_nibble(self.spec_value());
        }
        c == 0x50
    }

    /// The name of the class (`"SPACE"`, `"KANJI"`, ...).
    pub fn as_str(self) -> (s: &'static str)
        ensures
            s@ == self.spec_name(),
    {
        match self {
            CharType::Space => "SPACE",
            CharType::Alpha => "ALPHA",
            CharType::Numeric => "NUM",
            CharType::Reserved => "RESERVED",
            CharType::Symbol => "SYMBOL",
            CharType::SymbolClose => "SYMBOL_CLOSE",
            CharType::SymbolOpen => "SYMBOL_OPEN",
            CharType::SymbolStop => "SYMBOL_STOP",
            CharType::SymbolPause => "SYMBOL_PAUSE",
            CharType::Hiragana => "HIRAGANA",
            CharType::Katakana => "KATAKANA",
            CharType::Kanji => "KANJI",
            CharType::JapaneseNumeric => "JAPANESE_NUMERIC",
            CharType::Skip => "SKIP",
            CharType::Other => "OTHER",
        }
    }

    /// The class whose name is `s`; `None` for an unknown name.
    pub fn from_name(s: &str) -> (r: Option<CharType>)
        ensures
            match r {
                Some(t) => t.spec_name() == s@,
                None => forall|t: CharType| #[trigger] t.spec_name() != s@,
            },
    {
        let all = [
            CharType::Space, CharType::Alpha, CharType::Numeric, CharType::Reserved,
            CharType::Symbol, CharType::SymbolClose, CharType::SymbolOpen, CharType::SymbolStop,
            CharType::SymbolPause, CharType::Hiragana, CharType::Katakana, CharType::Kanji,
            CharType::JapaneseNumeric, CharType::Skip, CharType::Other,
        ];
        let mut i: usize = 0;
        while i < 15
            invariant
                0 <= i <= 15,
                all@.len() == 15,
                forall|j: int| 0 <= j < 15 ==> #[trigger] all@[j] == spec_all_types()[j],
                forall|j: int| 0 <= j < i ==> spec_all_types()[j].spec_name() != s@,
            decreases 15 - i,
        {
            let t = all[i];
            if str_eq(t.as_str(), s) {
                return Some(t);
            }
            i = i + 1;
        }
        proof {
            assert forall|t: CharType| #[trigger] t.spec_name() != s@ by {
                lemma_all_types_complete(t);
            }
        }
        None
    }

    /// The class whose byte value is `v`; `None` for a value no class has.
    pub fn from_u8(v: u8) -> (r: Option<CharType>)
        ensures
            match r {
                Some(t) => t.spec_value() == v,
                None => forall|t: CharType| #[trigger] t.spec_value() != v,
            },
    {
        match v {
            0x00 => Some(CharType::Space),
            0x10 => Some(CharType::Alpha),
            0x11 => Some(CharType::Numeric),
            0x20 => Some(CharType::Reserved),
            0x30 => Some(CharType::Symbol),
            0x31 => Some(CharType::SymbolClose),
            0x32 => Some(CharType::SymbolOpen),
            0x33 => Some(CharType::SymbolStop),
            0x34 => Some(CharType::SymbolPause),
            0x40 => Some(CharType::Hiragana),
            0x41 => Some(CharType::Katakana),
            0x42 => Some(CharType::Kanji),
            0x43 => Some(CharType::JapaneseNumeric),
            0x50 => Some(CharType::Skip),
            0xFF => Some(CharType::Other),
            _ => None,
        }
    }
}

impl Default for CharType {
    /// `Space`, the class whose byte value is zero.
    fn default() -> (t: CharType)
        ensures
            t == CharType::Space,
    {
        CharType::Space
    }
}

proof fn lemma_category_nibble(v: u8)
    by (bit_vector)
    ensures
        v == 0x00 ==> v & 0xF0 == 0x00,
        v == 0x10 ==> v & 0xF0 == 0x10,
        v == 0x11 ==> v & 0xF0 == 0x10,
        v == 0x20 ==> v & 0xF0 == 0x20,
        0x30 <= v <= 0x34 ==> v & 0xF0 == 0x30,
        0x40 <= v <= 0x43 ==> v & 0xF0 == 0x40,
        v == 0x50 ==> v & 0xF0 == 0x50,
        v == 0xFF ==> v & 0xF0 == 0xF0,
{
}

/// All classes, in the order of their byte values.
pub open spec fn spec_all_types() -> Seq<CharType> {
    seq![
        CharType::Space, CharType::Alpha, CharType::Numeric, CharType::Reserved,
        CharType::Symbol, CharType::SymbolClose, CharType::SymbolOpen, CharType::SymbolStop,
        CharType::SymbolPause, CharType::Hiragana, CharType::Katakana, CharType::Kanji,
        CharType::JapaneseNumeric, CharType::Skip, CharType::Other,
    ]
}

proof fn lemma_all_types_complete(t: CharType)
    ensures
        exists|j: int| 0 <= j < 15 && spec_all_types()[j] == t,
{
    match t {
        CharType::Space => assert(spec_all_types()[0] == t),
        CharType::Alpha => assert(spec_all_types()[1] == t),
        CharType::Numeric => assert(spec_all_types()[2] == t),
        CharType::Reserved => assert(spec_all_types()[3] == t),
        CharType::Symbol => assert(spec_all_types()[4] == t),
        CharType::SymbolClose => assert(spec_all_types()[5] == t),
        CharType::SymbolOpen => assert(spec_all_types()[6] == t),
        CharType::SymbolStop => assert(spec_all_types()[7] == t),
        CharType::SymbolPause => assert(spec_all_types()[8] == t),
        CharType::Hiragana => assert(spec_all_types()[9] == t),
        CharType::Katakana => assert(spec_all_types()[10] == t),
        CharType::Kanji => assert(spec_all_types()[11] == t),
        CharType::JapaneseNumeric => assert(spec_all_types()[12] == t),
        CharType::Skip => assert(spec_all_types()[13] == t),
        CharType::Other => assert(spec_all_types()[14] == t),
    }
}

/// Unicode `White_Space` code points (what `char::is_whitespace` accepts).
pub open spec fn spec_is_white_space(cp: u32) -> bool {
    ||| 0x09 <= cp <= 0x0D
    ||| cp == 0x20
    ||| cp == 0x85
    ||| cp == 0xA0
    ||| cp == 0x1680
    ||| 0x2000 <= cp <= 0x200A
    ||| cp == 0x2028
    ||| cp == 0x2029
    ||| cp == 0x202F
    ||| cp == 0x205F
    ||| cp == 0x3000
}

/// Zero-width and format characters that never reach the reading.
pub open spec fn spec_is_skip_cp(cp: u32) -> bool {
    ||| cp == 0x00AD
    ||| 0x200B <= cp <= 0x200D
    ||| 0x2060 <= cp <= 0x2064
    ||| cp == 0xFEFF
}

/// The kanji numerals that are always `JapaneseNumeric`: 〇一二三四五六七八九.
pub open spec fn spec_is_japanese_numeric_char(cp: u32) -> bool {
    ||| cp == 0x3007
    ||| cp == 0x4E00
    ||| cp == 0x4E8C
    ||| cp == 0x4E09
    ||| cp == 0x56DB
    ||| cp == 0x4E94
    ||| cp == 0x516D
    ||| cp == 0x4E03
    ||| cp == 0x516B
    ||| cp == 0x4E5D
}

/// The class of the code point `cp`, before any context is taken into account
/// (place-value kanji such as 十 and 万 are `Kanji` here).
pub open spec fn spec_char_type(cp: u32) -> CharType {
    if spec_is_white_space(cp) {
        CharType::Space
    } else if spec_is_skip_cp(cp) {
        CharType::Skip
    } else if (0x30 <= cp <= 0x39) || (0xFF10 <= cp <= 0xFF19) {
        CharType::Numeric
    } else if cp == 0xE000 || cp == 0xE002 {
        CharType::SymbolOpen
    } else if cp == 0xE001 {
        CharType::SymbolClose
    } else if spec_symbol_class(cp) != CharType::Other {
        spec_symbol_class(cp)
    } else if 0x3041 <= cp <= 0x309F {
        CharType::Hiragana
    } else if 0x30A0 <= cp <= 0x30FF {
        CharType::Katakana
    } else if spec_is_japanese_numeric_char(cp) {
        CharType::JapaneseNumeric
    } else if (0x4E00 <= cp <= 0x9FFF) || (0x3400 <= cp <= 0x4DBF) || (0x20000 <= cp <= 0x2EE5F)
        || (0x30000 <= cp <= 0x323AF) || cp == 0x3005 || cp == 0x303B {
        CharType::Kanji
    } else if (0x41 <= cp <= 0x5A) || (0x61 <= cp <= 0x7A) || (0xFF21 <= cp <= 0xFF3A) || (0xFF41
        <= cp <= 0xFF5A) {
        CharType::Alpha
    } else {
        CharType::Other
    }
}

fn is_white_space(cp: u32) -> (b: bool)
    ensures
        b == spec_is_white_space(cp),
{
    (0x09 <= cp && cp <= 0x0D) || cp == 0x20 || cp == 0x85 || cp == 0xA0 || cp == 0x1680 || (0x2000
        <= cp && cp <= 0x200A) || cp == 0x2028 || cp == 0x2029 || cp == 0x202F || cp == 0x205F
        || cp == 0x3000
}

/// Zero-width and format characters (soft hyphen, zero-width space and
/// joiners, word joiner, invisible operators, byte order mark).
pub fn is_skip_cp(cp: u32) -> (b: bool)
    ensures
        b == spec_is_skip_cp(cp),
{
    cp == 0x00AD || (0x200B <= cp && cp <= 0x200D) || (0x2060 <= cp && cp <= 0x2064) || cp
        == 0xFEFF
}

/// Whether `c` is one of 〇一二三四五六七八九.
pub fn is_japanese_numeric_char(c: char) -> (b: bool)
    ensures
        b == spec_is_japanese_numeric_char(c as u32),
{
    let cp = c as u32;
    cp == 0x3007 || cp == 0x4E00 || cp == 0x4E8C || cp == 0x4E09 || cp == 0x56DB || cp == 0x4E94
        || cp == 0x516D || cp == 0x4E03 || cp == 0x516B || cp == 0x4E5D
}

/// Classifies `c` on its own. Place-value kanji (十百千万億兆) come out as
/// `Kanji`: whether they count as numerals depends on their neighbours, which
/// the source sequence decides.
pub fn get_char_type(c: char) -> (t: CharType)
    ensures
        t == spec_char_type(c as u32),
{
    let cp = c as u32;
    if is_white_space(cp) {
        return CharType::Space;
    }
    if is_skip_cp(cp) {
        return CharType::Skip;
    }
    if (0x30 <= cp && cp <= 0x39) || (0xFF10 <= cp && cp <= 0xFF19) {
        return CharType::Numeric;
    }
    if cp == 0xE000 || cp == 0xE002 {
        return CharType::SymbolOpen;
    }
    if cp == 0xE001 {
        return CharType::SymbolClose;
    }
    let st = symbol_class(cp);
    if st != CharType::Other {
        return st;
    }
    if 0x3041 <= cp && cp <= 0x309F {
        return CharType::Hiragana;
    }
    if 0x30A0 <= cp && cp <= 0x30FF {
        return CharType::Katakana;
    }
    if is_japanese_numeric_char(c) {
        return CharType::JapaneseNumeric;
    }
    if (0x4E00 <= cp && cp <= 0x9FFF) || (0x3400 <= cp && cp <= 0x4DBF) || (0x20000 <= cp && cp
        <= 0x2EE5F) || (0x30000 <= cp && cp <= 0x323AF) || cp == 0x3005 || cp == 0x303B {
        return CharType::Kanji;
    }
    if (0x41 <= cp && cp <= 0x5A) || (0x61 <= cp && cp <= 0x7A) || (0xFF21 <= cp && cp <= 0xFF3A)
        || (0xFF41 <= cp && cp <= 0xFF5A) {
        return CharType::Alpha;
    }
    CharType::Other
}

/// The CJK brackets U+3008–U+3011 and U+3014–U+301B come in pairs, the
/// opening one on the even code point and its closing one right after it:
/// each opening one is classed `SymbolOpen`, each closing one `SymbolClose`.
/// So are the ASCII and fullwidth parentheses, brackets and braces, the
/// halfwidth corner brackets, and the single and double quotation marks.
pub proof fn lemma_bracket_classes(cp: u32)
    ensures
        (0x3008 <= cp <= 0x3011 || 0x3014 <= cp <= 0x301B) ==> spec_char_type(cp) == (if cp % 2 == 0 {
            CharType::SymbolOpen
        } else {
            CharType::SymbolClose
        }),
        (cp == 0x28 || cp == 0xFF08 || cp == 0xFF62 || cp == 0x2018 || cp == 0x201C) ==> (spec_char_type(cp)
            == CharType::SymbolOpen && spec_char_type((cp + 1) as u32) == CharType::SymbolClose),
        (cp == 0x5B || cp == 0x7B || cp == 0xFF3B || cp == 0xFF5B) ==> (spec_char_type(cp) == CharType::SymbolOpen
            && spec_char_type((cp + 2) as u32) == CharType::SymbolClose),
        (0x2768 <= cp <= 0x2775 || 0x27E6 <= cp <= 0x27EF) ==> spec_char_type(cp) == (if cp % 2 == 0 {
            CharType::SymbolOpen
        } else {
            CharType::SymbolClose
        }),
        (0x2983 <= cp <= 0x2998 || 0xFE35 <= cp <= 0xFE44 || 0xFE59 <= cp <= 0xFE5E) ==> spec_char_type(cp) == (
        if cp % 2 == 1 {
            CharType::SymbolOpen
        } else {
            CharType::SymbolClose
        }),
        (cp == 0x2039 || cp == 0x2045 || cp == 0x207D || cp == 0x208D || cp == 0x2329 || cp == 0xFF5F)
            ==> (spec_char_type(cp) == CharType::SymbolOpen && spec_char_type((cp + 1) as u32)
            == CharType::SymbolClose),
        cp == 0xAB ==> (spec_char_type(cp) == CharType::SymbolOpen && spec_char_type(0xBB) == CharType::SymbolClose),
{
    if 0x3008 <= cp <= 0x3011 || 0x3014 <= cp <= 0x301B {
        assert(spec_symbol_class(cp) == (if cp % 2 == 0 {
            CharType::SymbolOpen
        } else {
            CharType::SymbolClose
        }));
    }
    if 0x2768 <= cp <= 0x2775 || 0x27E6 <= cp <= 0x27EF {
        assert(spec_symbol_class(cp) == (if cp % 2 == 0 {
            CharType::SymbolOpen
        } else {
            CharType::SymbolClose
        }));
    }
    if 0x2983 <= cp <= 0x2998 || 0xFE35 <= cp <= 0xFE44 || 0xFE59 <= cp <= 0xFE5E {
        assert(spec_symbol_class(cp) == (if cp % 2 == 1 {
            CharType::SymbolOpen
        } else {
            CharType::SymbolClose
        }));
    }
}

/// A fullwidth form (U+FF01–U+FF5E) is classed as the ASCII character it
/// stands for (U+FEE0 before it), and the halfwidth forms of 。「」、・ as
/// the characters they stand for.
#[verifier::rlimit(100)]
pub proof fn lemma_width_forms_share_class(cp: u32)
    ensures
        0x21 <= cp <= 0x7E ==> spec_char_type((cp + 0xFEE0) as u32) == spec_char_type(cp),
        spec_char_type(0xFF61) == spec_char_type(0x3002),
        spec_char_type(0xFF62) == spec_char_type(0x300C),
        spec_char_type(0xFF63) == spec_char_type(0x300D),
        spec_char_type(0xFF64) == spec_char_type(0x3001),
        spec_char_type(0xFF65) == spec_char_type(0x30FB),
{
}

/// Every opening bracket of the bracket table is classed `SymbolOpen`, every
/// closing one `SymbolClose`.
pub proof fn lemma_table_brackets_classed(c: char)
    ensures
        crate::bracket::spec_lookup(c) matches Some((crate::bracket::Role::Open, _)) ==> spec_char_type(c as u32)
            == CharType::SymbolOpen,
        crate::bracket::spec_lookup(c) matches Some((crate::bracket::Role::Close, _)) ==> spec_char_type(c as u32)
            == CharType::SymbolClose,
{
}

/// Distinct classes have distinct byte values.
pub proof fn lemma_value_injective(a: CharType, b: CharType)
    ensures
        a.spec_value() == b.spec_value() ==> a == b,
{
}

} // verus!
