//! Brackets in the input: what is taken out before reading, and how the
//! reading is mapped back.
//!
//! Annotation brackets (`（…）`) are taken out with their content, which is
//! read on its own; only the outermost of nested ones count, and an opening
//! bracket without its closing one stays in the text. The remaining brackets
//! (quotes, and unmatched annotation brackets) are taken out one character at
//! a time and later put back, an opening one before the next word, a closing
//! one after the previous word. Every removal keeps, for each byte of the
//! text that is left, the byte of the original text it came from.

use vstd::prelude::*;

use crate::bracket::{is_pair, lookup, spec_is_pair, spec_lookup, Role, Treatment};
use crate::decode::CONFIDENCE_ONE;
use crate::prediction::{invert_index, lemma_inverse_contains, lemma_inverse_len, spec_inverse, PredictionResult};
use crate::reading::DecisionSource;
use crate::text::{byte_len, byte_offset, char_width, chars_of, lemma_byte_len_concat, lemma_byte_offset_mono,
    lemma_byte_offset_step, push_char, str_byte_len, utf8_width};

verus! {

/// A text with parts taken out, and for each of its bytes the byte of the
/// original text it came from.
pub struct Removed {
    pub text: String,
    pub byte_map: Vec<usize>,
}

/// An annotation span taken out of the text.
#[derive(Debug, Clone, Copy)]
pub struct AsideSpan {
    /// Byte offset of the opening bracket.
    pub pos: usize,
    pub open: char,
    pub close: char,
    /// Byte range of the content (inside the brackets).
    pub content_start: usize,
    pub content_end: usize,
    /// Byte offset of the closing bracket.
    pub close_pos: usize,
}

/// Which word a bracket put back sticks to.
#[derive(Debug, Clone, Copy, PartialEq, Eq, Structural)]
pub enum Side {
    /// The previous word (closing brackets, annotation spans).
    Left,
    /// The next word (opening brackets).
    Right,
}

/// Something put back into a reading: a bracket, or a whole annotation span
/// read on its own.
#[derive(Debug, Clone)]
pub struct Atom {
    /// Byte offset in the text where it was.
    pub pos: usize,
    pub side: Side,
    /// Its reading.
    pub kana: String,
    /// Per byte of `kana`: source offset, confidence bits, reason.
    pub srcs: Vec<usize>,
    pub confs: Vec<u32>,
    pub decs: Vec<DecisionSource>,
}

pub open spec fn spec_opens_aside(c: char) -> bool {
    spec_lookup(c) == Some((Role::Open, Treatment::Aside))
}

pub open spec fn spec_closes_aside(c: char) -> bool {
    spec_lookup(c) == Some((Role::Close, Treatment::Aside))
}

/// The closing bracket of the annotation bracket at `i`, scanning from `j`
/// with `depth` brackets open: the one that brings the depth back to zero,
/// if it pairs with the opening bracket.
pub open spec fn spec_find_close(cs: Seq<char>, i: int, j: int, depth: int) -> Option<int>
    decreases cs.len() - j,
{
    if j < 0 || j >= cs.len() {
        None
    } else if spec_opens_aside(cs[j]) {
        spec_find_close(cs, i, j + 1, depth + 1)
    } else if spec_closes_aside(cs[j]) {
        if depth - 1 == 0 {
            if spec_is_pair(cs[i], cs[j]) {
                Some(j)
            } else {
                None
            }
        } else {
            spec_find_close(cs, i, j + 1, depth - 1)
        }
    } else {
        spec_find_close(cs, i, j + 1, depth)
    }
}

/// Scanning from character `i`: the characters left, their byte map, and
/// the spans taken out (opening and closing character index).
pub open spec fn spec_extract_from(cs: Seq<char>, i: int) -> (Seq<char>, Seq<usize>, Seq<(int, int)>)
    decreases cs.len() - i,
{
    if i < 0 || i >= cs.len() {
        (Seq::empty(), Seq::empty(), Seq::empty())
    } else if spec_opens_aside(cs[i]) && spec_find_close(cs, i, i, 0) is Some
        && spec_find_close(cs, i, i, 0)->Some_0 > i {
        let j = spec_find_close(cs, i, i, 0)->Some_0;
        proof {
            lemma_find_close_after(cs, i, i, 0);
        }
        let r = spec_extract_from(cs, j + 1);
        (r.0, r.1, seq![(i, j)] + r.2)
    } else {
        let r = spec_extract_from(cs, i + 1);
        (
            seq![cs[i]] + r.0,
            Seq::new(utf8_width(cs[i]), |q: int| byte_offset(cs, i) as usize) + r.1,
            r.2,
        )
    }
}

/// The closing bracket found from `j` on lies at `j` or after it, inside
/// the text.
pub proof fn lemma_find_close_after(cs: Seq<char>, i: int, j: int, depth: int)
    ensures
        spec_find_close(cs, i, j, depth) matches Some(k) ==> j <= k < cs.len(),
    decreases cs.len() - j,
{
    if 0 <= j < cs.len() {
        lemma_find_close_after(cs, i, j + 1, depth + 1);
        lemma_find_close_after(cs, i, j + 1, depth - 1);
        lemma_find_close_after(cs, i, j + 1, depth);
    }
}

fn opens_aside(c: char) -> (b: bool)
    ensures
        b == spec_opens_aside(c),
{
    match lookup(c) {
        Some((Role::Open, Treatment::Aside)) => true,
        _ => false,
    }
}

fn closes_aside(c: char) -> (b: bool)
    ensures
        b == spec_closes_aside(c),
{
    match lookup(c) {
        Some((Role::Close, Treatment::Aside)) => true,
        _ => false,
    }
}

fn find_close(cs: &Vec<char>, i: usize) -> (r: Option<usize>)
    requires
        i < cs@.len(),
        spec_opens_aside(cs@[i as int]),
    ensures
        match r {
            Some(j) => spec_find_close(cs@, i as int, i as int, 0) == Some(j as int),
            None => spec_find_close(cs@, i as int, i as int, 0) is None,
        },
{
    let mut j = i;
    let mut depth: u64 = 0;
    while j < cs.len()
        invariant
            i < cs@.len(),
            i <= j <= cs@.len(),
            depth <= j - i,
            spec_opens_aside(cs@[i as int]),
            j > i ==> depth >= 1,
            j == i ==> depth == 0,
            spec_find_close(cs@, i as int, i as int, 0) == spec_find_close(cs@, i as int, j as int, depth as int),
        decreases cs@.len() - j,
    {
        let c = cs[j];
        if opens_aside(c) {
            depth = depth + 1;
        } else if closes_aside(c) {
            if depth == 1 {
                if is_pair(cs[i], c) {
                    return Some(j);
                } else {
                    return None;
                }
            }
            if depth == 0 {
                proof {
                    assert(false);
                }
                return None;
            }
            depth = depth - 1;
        }
        j = j + 1;
    }
    None
}

/// The byte offset of character `to`, from that (`b`) of character `from`.
fn advance_offset(cs: &Vec<char>, from: usize, b: usize, to: usize, total: usize) -> (r: usize)
    requires
        from <= to <= cs@.len(),
        b == byte_offset(cs@, from as int),
        total == byte_len(cs@),
    ensures
        r == byte_offset(cs@, to as int),
{
    let mut bj = b;
    let mut q = from;
    while q < to
        invariant
            from <= q <= to <= cs@.len(),
            total == byte_len(cs@),
            bj == byte_offset(cs@, q as int),
        decreases to - q,
    {
        proof {
            lemma_byte_offset_step(cs@, q as int);
            lemma_byte_offset_mono(cs@, q + 1, cs@.len() as int);
            assert(cs@.take(cs@.len() as int) =~= cs@);
        }
        bj = bj + char_width(cs[q]);
        q = q + 1;
    }
    bj
}

fn push_span(spans: &mut Vec<AsideSpan>, sp: AsideSpan)
    ensures
        final(spans)@ == old(spans)@.push(sp),
        final(spans)@.len() == old(spans)@.len() + 1,
{
    spans.push(sp);
}

/// The closing bracket found for the opening one at `i` is its pair.
proof fn lemma_find_close_pair(cs: Seq<char>, i: int, j: int, depth: int)
    ensures
        spec_find_close(cs, i, j, depth) matches Some(k) ==> j <= k < cs.len() && spec_is_pair(cs[i], cs[k]),
    decreases cs.len() - j,
{
    if 0 <= j < cs.len() {
        lemma_find_close_pair(cs, i, j + 1, depth + 1);
        lemma_find_close_pair(cs, i, j + 1, depth - 1);
        lemma_find_close_pair(cs, i, j + 1, depth);
    }
}

/// The spans taken out of a text lie inside it, in order and without
/// overlap; each opens with an annotation bracket and closes with its
/// pair; and the text left has one byte-map entry per byte.
pub proof fn lemma_extract_spans(cs: Seq<char>, i: int)
    requires
        0 <= i,
    ensures
        ({
            let x = spec_extract_from(cs, i);
            let sp = x.2;
            &&& x.1.len() == byte_len(x.0)
            &&& forall|k: int| 0 <= k < sp.len() ==> i <= (#[trigger] sp[k]).0 < sp[k].1 < cs.len()
            &&& forall|k: int| 0 <= k < sp.len() ==> spec_opens_aside(cs[(#[trigger] sp[k]).0])
            &&& forall|k: int| 0 <= k < sp.len() ==> spec_is_pair(cs[(#[trigger] sp[k]).0], cs[sp[k].1])
            &&& forall|a: int, b: int| 0 <= a < b < sp.len() ==> (#[trigger] sp[a]).1 < (#[trigger] sp[b]).0
        }),
    decreases cs.len() - i,
{
    let x = spec_extract_from(cs, i);
    if i >= cs.len() {
        assert(byte_len(Seq::<char>::empty()) == 0);
    } else if spec_opens_aside(cs[i]) && spec_find_close(cs, i, i, 0) is Some && spec_find_close(cs, i, i, 0)->Some_0 > i {
        let j = spec_find_close(cs, i, i, 0)->Some_0;
        lemma_find_close_pair(cs, i, i, 0);
        lemma_extract_spans(cs, j + 1);
        let r = spec_extract_from(cs, j + 1);
        assert(x.2 == seq![(i, j)] + r.2);
        assert forall|k: int| 0 <= k < x.2.len() implies i <= (#[trigger] x.2[k]).0 < x.2[k].1 < cs.len() by {
            if k > 0 {
                assert(x.2[k] == r.2[k - 1]);
            }
        }
        assert forall|k: int| 0 <= k < x.2.len() implies spec_opens_aside(cs[(#[trigger] x.2[k]).0]) by {
            if k > 0 {
                assert(x.2[k] == r.2[k - 1]);
            }
        }
        assert forall|k: int| 0 <= k < x.2.len() implies spec_is_pair(cs[(#[trigger] x.2[k]).0], cs[x.2[k].1]) by {
            if k > 0 {
                assert(x.2[k] == r.2[k - 1]);
            }
        }
        assert forall|a: int, b: int| 0 <= a < b < x.2.len() implies (#[trigger] x.2[a]).1 < (#[trigger] x.2[b]).0 by {
            assert(x.2[b] == r.2[b - 1]);
            if a > 0 {
                assert(x.2[a] == r.2[a - 1]);
            }
        }
    } else {
        lemma_extract_spans(cs, i + 1);
        let r = spec_extract_from(cs, i + 1);
        lemma_byte_len_concat(seq![cs[i]], r.0);
        assert(seq![cs[i]].drop_last() =~= Seq::<char>::empty());
        assert(byte_len(Seq::<char>::empty()) == 0);
        assert forall|k: int| 0 <= k < x.2.len() implies i <= (#[trigger] x.2[k]).0 < x.2[k].1 < cs.len() by {
            assert(x.2[k] == r.2[k]);
        }
    }
}

proof fn lemma_find_close_plain(cs: Seq<char>, i: int, k: int, j: int)
    requires
        0 <= i < k <= j < cs.len(),
        spec_closes_aside(cs[j]),
        spec_is_pair(cs[i], cs[j]),
        forall|m: int| i < m < j ==> !spec_opens_aside(#[trigger] cs[m]) && !spec_closes_aside(cs[m]),
    ensures
        spec_find_close(cs, i, k, 1) == Some(j),
    decreases j - k,
{
    if k < j {
        lemma_find_close_plain(cs, i, k + 1, j);
    }
}

/// An annotation bracket whose partner follows it with no annotation bracket
/// in between opens a span that the extraction takes out whole, from the
/// opening to the closing bracket.
pub proof fn lemma_plain_aside_extracted(cs: Seq<char>, i: int, j: int)
    requires
        0 <= i < j < cs.len(),
        spec_opens_aside(cs[i]),
        spec_is_pair(cs[i], cs[j]),
        forall|m: int| i < m < j ==> !spec_opens_aside(#[trigger] cs[m]) && !spec_closes_aside(cs[m]),
    ensures
        spec_extract_from(cs, i).2.len() > 0,
        spec_extract_from(cs, i).2[0] == (i, j),
{
    crate::bracket::lemma_pairs_match_roles(cs[i], cs[j]);
    assert(spec_closes_aside(cs[j]));
    assert(!spec_opens_aside(cs[j]));
    lemma_find_close_plain(cs, i, i + 1, j);
    assert(spec_find_close(cs, i, i, 0) == spec_find_close(cs, i, i + 1, 1));
}

/// Annotation brackets opened minus those closed over the characters
/// `a..b` of `cs`.
pub open spec fn spec_depth(cs: Seq<char>, a: int, b: int) -> int
    decreases b - a,
{
    if a >= b {
        0
    } else {
        (if spec_opens_aside(cs[a]) {
            1int
        } else if spec_closes_aside(cs[a]) {
            -1int
        } else {
            0int
        }) + spec_depth(cs, a + 1, b)
    }
}

proof fn lemma_depth_split(cs: Seq<char>, a: int, b: int, c: int)
    requires
        a <= b <= c,
    ensures
        spec_depth(cs, a, c) == spec_depth(cs, a, b) + spec_depth(cs, b, c),
    decreases b - a,
{
    if a < b {
        lemma_depth_split(cs, a + 1, b, c);
    }
}

/// The scan for a closing bracket with `depth >= 1` brackets open stops at
/// the character that brings the count to zero, and never before.
proof fn lemma_find_close_depth(cs: Seq<char>, i: int, j: int, depth: int)
    requires
        depth >= 1,
    ensures
        spec_find_close(cs, i, j, depth) matches Some(k) ==> {
            &&& j <= k
            &&& depth + spec_depth(cs, j, k + 1) == 0
            &&& forall|m: int| j < m <= k ==> depth + #[trigger] spec_depth(cs, j, m) >= 1
        },
    decreases cs.len() - j,
{
    if 0 <= j < cs.len() {
        let d: int = if spec_opens_aside(cs[j]) {
            1int
        } else if spec_closes_aside(cs[j]) {
            -1int
        } else {
            0int
        };
        if let Some(k) = spec_find_close(cs, i, j, depth) {
            if spec_closes_aside(cs[j]) && !spec_opens_aside(cs[j]) && depth - 1 == 0 {
                assert(k == j);
                assert(spec_depth(cs, j + 1, j + 1) == 0);
                assert(spec_depth(cs, j, j + 1) == d);
            } else {
                let nd = depth + d;
                assert(spec_find_close(cs, i, j + 1, nd) == Some(k));
                lemma_find_close_depth(cs, i, j + 1, nd);
                assert(spec_depth(cs, j, k + 1) == d + spec_depth(cs, j + 1, k + 1));
                assert forall|m: int| j < m <= k implies depth + #[trigger] spec_depth(cs, j, m) >= 1 by {
                    assert(spec_depth(cs, j, m) == d + spec_depth(cs, j + 1, m));
                    if m == j + 1 {
                        assert(spec_depth(cs, j + 1, j + 1) == 0);
                    }
                }
            }
        }
    }
}

/// Inside every span taken out, the annotation brackets balance: over its
/// content they close no more than they open at any point, and open and
/// close alike in all.
pub proof fn lemma_extract_balanced(cs: Seq<char>, i: int)
    requires
        0 <= i,
    ensures
        ({
            let sp = spec_extract_from(cs, i).2;
            forall|k: int|
                0 <= k < sp.len() ==> {
                    &&& spec_depth(cs, (#[trigger] sp[k]).0 + 1, sp[k].1) == 0
                    &&& forall|m: int| sp[k].0 < m <= sp[k].1 ==> #[trigger] spec_depth(cs, sp[k].0 + 1, m) >= 0
                }
        }),
    decreases cs.len() - i,
{
    let x = spec_extract_from(cs, i);
    if i >= cs.len() {
    } else if spec_opens_aside(cs[i]) && spec_find_close(cs, i, i, 0) is Some && spec_find_close(cs, i, i, 0)->Some_0 > i {
        let j = spec_find_close(cs, i, i, 0)->Some_0;
        lemma_find_close_after(cs, i, i, 0);
        lemma_extract_balanced(cs, j + 1);
        let r = spec_extract_from(cs, j + 1);
        assert(x.2 == seq![(i, j)] + r.2);
        assert(spec_find_close(cs, i, i, 0) == spec_find_close(cs, i, i + 1, 1));
        lemma_find_close_depth(cs, i, i + 1, 1);
        lemma_find_close_pair(cs, i, i, 0);
        lemma_depth_split(cs, i + 1, j, j + 1);
        assert(!spec_opens_aside(cs[j]) && spec_closes_aside(cs[j])) by {
            assert(spec_find_close(cs, i, i + 1, 1) == Some(j));
            lemma_close_found_closes(cs, i, i + 1, 1);
        }
        assert(spec_depth(cs, j + 1, j + 1) == 0);
        assert(spec_depth(cs, j, j + 1) == -1);
        assert forall|k: int| 0 <= k < x.2.len() implies {
            &&& spec_depth(cs, (#[trigger] x.2[k]).0 + 1, x.2[k].1) == 0
            &&& forall|m: int| x.2[k].0 < m <= x.2[k].1 ==> #[trigger] spec_depth(cs, x.2[k].0 + 1, m) >= 0
        } by {
            if k > 0 {
                assert(x.2[k] == r.2[k - 1]);
            } else {
                assert forall|m: int| i < m <= j implies #[trigger] spec_depth(cs, i + 1, m) >= 0 by {
                    if m > i + 1 {
                        assert(1 + spec_depth(cs, i + 1, m) >= 1);
                    }
                }
            }
        }
    } else {
        lemma_extract_balanced(cs, i + 1);
        let r = spec_extract_from(cs, i + 1);
        assert(x.2 == r.2);
        assert forall|k: int| 0 <= k < x.2.len() implies {
            &&& spec_depth(cs, (#[trigger] x.2[k]).0 + 1, x.2[k].1) == 0
            &&& forall|m: int| x.2[k].0 < m <= x.2[k].1 ==> #[trigger] spec_depth(cs, x.2[k].0 + 1, m) >= 0
        } by {
            assert(x.2[k] == r.2[k]);
        }
    }
}

/// The closing bracket a scan finds is an annotation closing bracket.
proof fn lemma_close_found_closes(cs: Seq<char>, i: int, j: int, depth: int)
    ensures
        spec_find_close(cs, i, j, depth) matches Some(k) ==> !spec_opens_aside(cs[k]) && spec_closes_aside(cs[k]),
    decreases cs.len() - j,
{
    if 0 <= j < cs.len() {
        lemma_close_found_closes(cs, i, j + 1, depth + 1);
        lemma_close_found_closes(cs, i, j + 1, depth - 1);
        lemma_close_found_closes(cs, i, j + 1, depth);
    }
}

/// The characters of `cs` from `i` on that lie outside the spans `sp`
/// (each span taken with both its brackets), in order.
pub open spec fn spec_gaps(cs: Seq<char>, sp: Seq<(int, int)>, i: int) -> Seq<char>
    decreases sp.len(),
{
    if sp.len() == 0 {
        cs.subrange(i, cs.len() as int)
    } else {
        cs.subrange(i, sp[0].0) + spec_gaps(cs, sp.drop_first(), sp[0].1 + 1)
    }
}

/// For the characters `a..b` of `cs`, the source byte offset of each,
/// once per byte of the character.
pub open spec fn spec_offsets_of(cs: Seq<char>, a: int, b: int) -> Seq<usize>
    decreases b - a,
{
    if a >= b {
        Seq::empty()
    } else {
        Seq::new(utf8_width(cs[a]), |q: int| byte_offset(cs, a) as usize) + spec_offsets_of(cs, a + 1, b)
    }
}

/// The byte map of the characters that `spec_gaps` keeps.
pub open spec fn spec_gap_offsets(cs: Seq<char>, sp: Seq<(int, int)>, i: int) -> Seq<usize>
    decreases sp.len(),
{
    if sp.len() == 0 {
        spec_offsets_of(cs, i, cs.len() as int)
    } else {
        spec_offsets_of(cs, i, sp[0].0) + spec_gap_offsets(cs, sp.drop_first(), sp[0].1 + 1)
    }
}

/// Taking one more character in front of the first span.
proof fn lemma_gaps_step(cs: Seq<char>, sp: Seq<(int, int)>, i: int)
    requires
        0 <= i < cs.len(),
        sp.len() > 0 ==> i < sp[0].0 <= cs.len(),
    ensures
        spec_gaps(cs, sp, i) == seq![cs[i]] + spec_gaps(cs, sp, i + 1),
        spec_gap_offsets(cs, sp, i) == Seq::new(utf8_width(cs[i]), |q: int| byte_offset(cs, i) as usize)
            + spec_gap_offsets(cs, sp, i + 1),
{
    let blk = Seq::new(utf8_width(cs[i]), |q: int| byte_offset(cs, i) as usize);
    if sp.len() == 0 {
        assert(cs.subrange(i, cs.len() as int) =~= seq![cs[i]] + cs.subrange(i + 1, cs.len() as int));
    } else {
        let rest = spec_gaps(cs, sp.drop_first(), sp[0].1 + 1);
        assert(cs.subrange(i, sp[0].0) =~= seq![cs[i]] + cs.subrange(i + 1, sp[0].0));
        assert((seq![cs[i]] + cs.subrange(i + 1, sp[0].0)) + rest =~= seq![cs[i]] + (cs.subrange(
            i + 1,
            sp[0].0,
        ) + rest));
        let mrest = spec_gap_offsets(cs, sp.drop_first(), sp[0].1 + 1);
        assert((blk + spec_offsets_of(cs, i + 1, sp[0].0)) + mrest =~= blk + (spec_offsets_of(
            cs,
            i + 1,
            sp[0].0,
        ) + mrest));
    }
}

/// What extraction leaves of the text is the text with every span cut out,
/// both brackets included, and its byte map gives, for each byte left, the
/// source offset of the character it belongs to.
pub proof fn lemma_extract_outer(cs: Seq<char>, i: int)
    requires
        0 <= i <= cs.len(),
    ensures
        ({
            let x = spec_extract_from(cs, i);
            &&& x.0 == spec_gaps(cs, x.2, i)
            &&& x.1 == spec_gap_offsets(cs, x.2, i)
        }),
    decreases cs.len() - i,
{
    let x = spec_extract_from(cs, i);
    if i >= cs.len() {
        assert(cs.subrange(i, cs.len() as int) =~= Seq::<char>::empty());
    } else if spec_opens_aside(cs[i]) && spec_find_close(cs, i, i, 0) is Some && spec_find_close(cs, i, i, 0)->Some_0 > i {
        let j = spec_find_close(cs, i, i, 0)->Some_0;
        lemma_find_close_after(cs, i, i, 0);
        lemma_extract_outer(cs, j + 1);
        let r = spec_extract_from(cs, j + 1);
        assert(x.2 == seq![(i, j)] + r.2);
        assert(x.2.drop_first() =~= r.2);
        assert(cs.subrange(i, i) =~= Seq::<char>::empty());
        assert(Seq::<char>::empty() + r.0 =~= r.0);
        assert(Seq::<usize>::empty() + r.1 =~= r.1);
    } else {
        lemma_extract_outer(cs, i + 1);
        lemma_extract_spans(cs, i + 1);
        let r = spec_extract_from(cs, i + 1);
        if r.2.len() > 0 {
            assert(i + 1 <= r.2[0].0 < cs.len());
        }
        lemma_gaps_step(cs, r.2, i);
    }
}

/// The span record of the span (`a`, `b`) of `s`.
pub open spec fn spec_span_ok(sp: AsideSpan, s: Seq<char>, a: int, b: int) -> bool {
    &&& sp.pos == byte_offset(s, a)
    &&& sp.open == s[a]
    &&& sp.close == s[b]
    &&& sp.content_start == byte_offset(s, a + 1)
    &&& sp.content_end == byte_offset(s, b)
    &&& sp.close_pos == byte_offset(s, b)
}

/// Takes the outermost annotation spans out of `text` (see the module
/// documentation): the text left with its byte map, and the spans.
#[verifier::rlimit(40)]
pub fn extract_aside_spans(text: &str) -> (r: (Removed, Vec<AsideSpan>))
    ensures
        r.0.text@ == spec_extract_from(text@, 0).0,
        r.0.byte_map@ == spec_extract_from(text@, 0).1,
        r.1@.len() == spec_extract_from(text@, 0).2.len(),
        forall|k: int|
            0 <= k < r.1@.len() ==> spec_span_ok(
                #[trigger] r.1@[k],
                text@,
                spec_extract_from(text@, 0).2[k].0,
                spec_extract_from(text@, 0).2[k].1,
            ),
{
    let ghost s = text@;
    let ghost x = spec_extract_from(s, 0);
    let total = str_byte_len(text);
    let cs = chars_of(text);
    let n = cs.len();
    let mut out = String::new();
    let mut map: Vec<usize> = Vec::new();
    let mut spans: Vec<AsideSpan> = Vec::new();
    let mut i: usize = 0;
    let mut b: usize = 0;
    proof {
        assert(s.take(0) =~= Seq::<char>::empty());
        assert(out@ + x.0 =~= x.0);
        assert(map@ + x.1 =~= x.1);
        assert(x.2.skip(0) =~= x.2);
    }
    while i < n
        invariant
            cs@ == s,
            x == spec_extract_from(s, 0),
            n == s.len(),
            total == byte_len(s),
            i <= n,
            b == byte_offset(s, i as int),
            x.0 == out@ + spec_extract_from(s, i as int).0,
            x.1 == map@ + spec_extract_from(s, i as int).1,
            spans@.len() <= x.2.len(),
            spec_extract_from(s, i as int).2 == x.2.skip(spans@.len() as int),
            forall|k: int| 0 <= k < spans@.len() ==> spec_span_ok(#[trigger] spans@[k], s, x.2[k].0, x.2[k].1),
        decreases n - i,
    {
        let c = cs[i];
        proof {
            lemma_byte_offset_step(s, i as int);
            lemma_byte_offset_mono(s, i + 1, n as int);
        }
        let mut handled = false;
        if opens_aside(c) {
            match find_close(&cs, i) {
                Some(j) => {
                    proof {
                        lemma_find_close_after(s, i as int, i as int, 0);
                    }
                    if j > i {
                        let bj = advance_offset(&cs, i, b, j, total);
                        proof {
                            lemma_byte_offset_step(s, j as int);
                            lemma_byte_offset_mono(s, j + 1, n as int);
                        }
                        let sp = AsideSpan {
                            pos: b,
                            open: c,
                            close: cs[j],
                            content_start: b + char_width(c),
                            content_end: bj,
                            close_pos: bj,
                        };
                        proof {
                            let y = spec_extract_from(s, i as int);
                            let y2 = spec_extract_from(s, j + 1);
                            assert(y.2 == seq![(i as int, j as int)] + y2.2);
                            assert(y.0 == y2.0);
                            assert(y.1 == y2.1);
                            let l = spans@.len() as int;
                            assert(y.2 == x.2.skip(l));
                            assert(y.2.len() == x.2.len() - l);
                            assert(y.2[0] == (i as int, j as int));
                            assert(x.2.skip(l)[0] == x.2[l]);
                            assert forall|k: int| 0 <= k < y2.2.len() implies y2.2[k] == x.2.skip(l + 1)[k] by {
                                assert(y.2[k + 1] == y2.2[k]);
                                assert(x.2.skip(l)[k + 1] == x.2[l + k + 1]);
                            }
                            assert(y2.2 =~= x.2.skip(l + 1));
                            assert(spec_span_ok(sp, s, i as int, j as int));
                        }
                        let ghost old_spans = spans@;
                        proof {
                            lemma_spans_extend(old_spans, sp, x.2, s, i as int, j as int);
                        }
                        push_span(&mut spans, sp);
                        proof {
                            assert(spans@.len() == old_spans.len() + 1);
                            assert(spans@.len() <= x.2.len());
                            assert(spec_extract_from(s, j + 1).2 == x.2.skip(spans@.len() as int));
                        }
                        b = bj + char_width(cs[j]);
                        i = j + 1;
                        handled = true;
                    }
                },
                None => {},
            }
        }
        if !handled {
            let ghost y = spec_extract_from(s, i as int);
            let ghost y2 = spec_extract_from(s, i + 1);
            let ghost o0 = out@;
            proof {
                assert(y.0 == seq![c] + y2.0);
                assert(y.2 == y2.2);
            }
            push_char(&mut out, c);
            let w = char_width(c);
            let ghost m0 = map@;
            let mut t: usize = 0;
            while t < w
                invariant
                    t <= w,
                    w <= 4,
                    map@ == m0 + Seq::new(t as nat, |q: int| b),
                decreases w - t,
            {
                map.push(b);
                proof {
                    assert(map@ =~= m0 + Seq::new((t + 1) as nat, |q: int| b));
                }
                t = t + 1;
            }
            proof {
                assert(y.1 =~= Seq::new(w as nat, |q: int| b) + y2.1);
                assert(map@ + y2.1 =~= m0 + y.1);
                assert(out@ + y2.0 =~= o0 + y.0);
            }
            b = b + w;
            i = i + 1;
        }
    }
    proof {
        assert(spec_extract_from(s, n as int).0 =~= Seq::<char>::empty());
        assert(out@ =~= x.0);
        assert(map@ =~= x.1);
        assert(spans@.len() == x.2.len());
    }
    (Removed { text: out, byte_map: map }, spans)
}

proof fn lemma_spans_extend(old: Seq<AsideSpan>, sp: AsideSpan, x2: Seq<(int, int)>, s: Seq<char>, i: int, j: int)
    requires
        old.len() < x2.len(),
        x2[old.len() as int] == (i, j),
        spec_span_ok(sp, s, i, j),
        forall|k: int| 0 <= k < old.len() ==> spec_span_ok(#[trigger] old[k], s, x2[k].0, x2[k].1),
    ensures
        forall|k: int| 0 <= k < old.len() + 1 ==> spec_span_ok(#[trigger] old.push(sp)[k], s, x2[k].0, x2[k].1),
{
    assert forall|k: int| 0 <= k < old.len() + 1 implies spec_span_ok(#[trigger] old.push(sp)[k], s, x2[k].0, x2[k].1) by {
        if k < old.len() {
            assert(old.push(sp)[k] == old[k]);
        } else {
            assert(old.push(sp)[k] == sp);
        }
    }
}


/// The characters `0..m` of `s` with every bracket taken out: the
/// characters left, their byte map, and the brackets taken (character index
/// and role).
pub open spec fn spec_strip_prefix(s: Seq<char>, m: int) -> (Seq<char>, Seq<usize>, Seq<(int, Role)>)
    decreases m,
{
    if m <= 0 {
        (Seq::empty(), Seq::empty(), Seq::empty())
    } else {
        let p = spec_strip_prefix(s, m - 1);
        let c = s[m - 1];
        match spec_lookup(c) {
            Some((role, _)) => (p.0, p.1, p.2.push((m - 1, role))),
            None => (
                p.0.push(c),
                p.1 + Seq::new(utf8_width(c), |q: int| byte_offset(s, m - 1) as usize),
                p.2,
            ),
        }
    }
}

/// The atom of the bracket at character `a` of `s`, of role `role`.
pub open spec fn spec_bracket_atom_ok(at: Atom, s: Seq<char>, a: int, role: Role) -> bool {
    let b = byte_offset(s, a) as usize;
    let w = utf8_width(s[a]);
    &&& at.pos == b
    &&& at.side == (match role {
        Role::Open => Side::Right,
        Role::Close => Side::Left,
    })
    &&& at.kana@ == seq![s[a]]
    &&& at.srcs@ == Seq::new(w, |q: int| b)
    &&& at.confs@ == Seq::new(w, |q: int| CONFIDENCE_ONE)
    &&& at.decs@ == Seq::new(w, |q: int| DecisionSource::Bypass)
}

fn repeat_usize(x: usize, w: usize) -> (r: Vec<usize>)
    ensures
        r@ == Seq::new(w as nat, |q: int| x),
{
    let mut r: Vec<usize> = Vec::new();
    let mut t: usize = 0;
    while t < w
        invariant
            t <= w,
            r@ == Seq::new(t as nat, |q: int| x),
        decreases w - t,
    {
        r.push(x);
        proof {
            assert(r@ =~= Seq::new((t + 1) as nat, |q: int| x));
        }
        t = t + 1;
    }
    r
}

fn repeat_u32(x: u32, w: usize) -> (r: Vec<u32>)
    ensures
        r@ == Seq::new(w as nat, |q: int| x),
{
    let mut r: Vec<u32> = Vec::new();
    let mut t: usize = 0;
    while t < w
        invariant
            t <= w,
            r@ == Seq::new(t as nat, |q: int| x),
        decreases w - t,
    {
        r.push(x);
        proof {
            assert(r@ =~= Seq::new((t + 1) as nat, |q: int| x));
        }
        t = t + 1;
    }
    r
}

fn repeat_dec(x: DecisionSource, w: usize) -> (r: Vec<DecisionSource>)
    ensures
        r@ == Seq::new(w as nat, |q: int| x),
{
    let mut r: Vec<DecisionSource> = Vec::new();
    let mut t: usize = 0;
    while t < w
        invariant
            t <= w,
            r@ == Seq::new(t as nat, |q: int| x),
        decreases w - t,
    {
        r.push(x);
        proof {
            assert(r@ =~= Seq::new((t + 1) as nat, |q: int| x));
        }
        t = t + 1;
    }
    r
}

fn push_atom(atoms: &mut Vec<Atom>, at: Atom)
    ensures
        final(atoms)@ == old(atoms)@.push(at),
        final(atoms)@.len() == old(atoms)@.len() + 1,
{
    atoms.push(at);
}

proof fn lemma_atoms_extend(old: Seq<Atom>, at: Atom, x2: Seq<(int, Role)>, s: Seq<char>)
    requires
        old.len() < x2.len(),
        spec_bracket_atom_ok(at, s, x2[old.len() as int].0, x2[old.len() as int].1),
        forall|k: int| 0 <= k < old.len() ==> spec_bracket_atom_ok(#[trigger] old[k], s, x2[k].0, x2[k].1),
    ensures
        forall|k: int| 0 <= k < old.len() + 1 ==> spec_bracket_atom_ok(#[trigger] old.push(at)[k], s, x2[k].0, x2[k].1),
{
    assert forall|k: int| 0 <= k < old.len() + 1 implies spec_bracket_atom_ok(#[trigger] old.push(at)[k], s, x2[k].0, x2[k].1) by {
        if k < old.len() {
            assert(old.push(at)[k] == old[k]);
        } else {
            assert(old.push(at)[k] == at);
        }
    }
}

/// Takes every bracket character out of `text` (their content stays): the
/// text left with its byte map, and one atom per bracket.
pub fn strip_bracket_chars(text: &str) -> (r: (Removed, Vec<Atom>))
    ensures
        r.0.text@ == spec_strip_prefix(text@, text@.len() as int).0,
        r.0.byte_map@ == spec_strip_prefix(text@, text@.len() as int).1,
        r.1@.len() == spec_strip_prefix(text@, text@.len() as int).2.len(),
        forall|k: int|
            0 <= k < r.1@.len() ==> spec_bracket_atom_ok(
                #[trigger] r.1@[k],
                text@,
                spec_strip_prefix(text@, text@.len() as int).2[k].0,
                spec_strip_prefix(text@, text@.len() as int).2[k].1,
            ),
{
    let ghost s = text@;
    let total = str_byte_len(text);
    let cs = chars_of(text);
    let n = cs.len();
    let mut out = String::new();
    let mut map: Vec<usize> = Vec::new();
    let mut atoms: Vec<Atom> = Vec::new();
    let mut i: usize = 0;
    let mut b: usize = 0;
    proof {
        assert(s.take(0) =~= Seq::<char>::empty());
    }
    while i < n
        invariant
            cs@ == s,
            n == s.len(),
            total == byte_len(s),
            i <= n,
            b == byte_offset(s, i as int),
            out@ == spec_strip_prefix(s, i as int).0,
            map@ == spec_strip_prefix(s, i as int).1,
            atoms@.len() == spec_strip_prefix(s, i as int).2.len(),
            forall|k: int| 0 <= k < atoms@.len() ==> spec_bracket_atom_ok(#[trigger] atoms@[k], s, spec_strip_prefix(s, i as int).2[k].0, spec_strip_prefix(s, i as int).2[k].1),
        decreases n - i,
    {
        let c = cs[i];
        proof {
            lemma_byte_offset_step(s, i as int);
            lemma_byte_offset_mono(s, i + 1, n as int);
        }
        let w = char_width(c);
        let ghost p = spec_strip_prefix(s, i as int);
        let ghost q = spec_strip_prefix(s, i + 1);
        match lookup(c) {
            Some((role, _)) => {
                let mut kana = String::new();
                push_char(&mut kana, c);
                let at = Atom {
                    pos: b,
                    side: match role {
                        Role::Open => Side::Right,
                        Role::Close => Side::Left,
                    },
                    kana,
                    srcs: repeat_usize(b, w),
                    confs: repeat_u32(CONFIDENCE_ONE, w),
                    decs: repeat_dec(DecisionSource::Bypass, w),
                };
                proof {
                    assert(q.2 == p.2.push((i as int, role)));
                    assert(at.kana@ =~= seq![c]);
                    assert forall|k: int| 0 <= k < atoms@.len() implies spec_bracket_atom_ok(#[trigger] atoms@[k], s, q.2[k].0, q.2[k].1) by {
                        assert(q.2[k] == p.2[k]);
                    }
                    lemma_atoms_extend(atoms@, at, q.2, s);
                }
                push_atom(&mut atoms, at);
            },
            None => {
                push_char(&mut out, c);
                let ghost m0 = map@;
                let mut t: usize = 0;
                while t < w
                    invariant
                        t <= w,
                        w <= 4,
                        map@ == m0 + Seq::new(t as nat, |qq: int| b),
                    decreases w - t,
                {
                    map.push(b);
                    proof {
                        assert(map@ =~= m0 + Seq::new((t + 1) as nat, |qq: int| b));
                    }
                    t = t + 1;
                }
                proof {
                    assert(q.1 =~= p.1 + Seq::new(w as nat, |qq: int| b));
                }
            },
        }
        b = b + w;
        i = i + 1;
    }
    (Removed { text: out, byte_map: map }, atoms)
}

// ------------------------------------------------------------
// Back to the original text
// ------------------------------------------------------------

/// The table from source bytes to reading bytes, moved through `byte_map`
/// onto a text of `len` bytes: the entries of byte `b` go, in order, to
/// `byte_map[b]`.
pub open spec fn spec_remap_inverse(inv: Seq<Seq<usize>>, byte_map: Seq<usize>, len: nat) -> Seq<Seq<usize>>
    decreases inv.len(),
{
    if inv.len() == 0 {
        Seq::new(len, |b: int| Seq::<usize>::empty())
    } else {
        let p = spec_remap_inverse(inv.drop_last(), byte_map, len);
        let k = inv.len() - 1;
        if inv.last().len() > 0 {
            p.update(byte_map[k] as int, p[byte_map[k] as int] + inv.last())
        } else {
            p
        }
    }
}

proof fn lemma_remap_inverse_len(inv: Seq<Seq<usize>>, byte_map: Seq<usize>, len: nat)
    requires
        inv.len() <= byte_map.len(),
        forall|b: int| 0 <= b < byte_map.len() ==> #[trigger] byte_map[b] < len,
    ensures
        spec_remap_inverse(inv, byte_map, len).len() == len,
    decreases inv.len(),
{
    if inv.len() > 0 {
        lemma_remap_inverse_len(inv.drop_last(), byte_map, len);
    }
}

/// After the move, byte `t` lists exactly the entries of the bytes that go
/// to `t`.
proof fn lemma_remap_contains(inv: Seq<Seq<usize>>, byte_map: Seq<usize>, len: nat, t: int, j: usize)
    requires
        inv.len() <= byte_map.len(),
        forall|b: int| 0 <= b < byte_map.len() ==> #[trigger] byte_map[b] < len,
        0 <= t < len,
    ensures
        spec_remap_inverse(inv, byte_map, len)[t].contains(j) <==> exists|b: int|
            0 <= b < inv.len() && byte_map[b] == t && (#[trigger] inv[b]).contains(j),
    decreases inv.len(),
{
    lemma_remap_inverse_len(inv, byte_map, len);
    if inv.len() == 0 {
        assert(spec_remap_inverse(inv, byte_map, len)[t] =~= Seq::<usize>::empty());
    } else {
        let d = inv.drop_last();
        let k = inv.len() - 1;
        lemma_remap_contains(d, byte_map, len, t, j);
        lemma_remap_inverse_len(d, byte_map, len);
        let p = spec_remap_inverse(d, byte_map, len);
        let ex_d = exists|b: int| 0 <= b < d.len() && byte_map[b] == t && (#[trigger] d[b]).contains(j);
        let ex = exists|b: int| 0 <= b < inv.len() && byte_map[b] == t && (#[trigger] inv[b]).contains(j);
        if ex_d {
            let b = choose|b: int| 0 <= b < d.len() && byte_map[b] == t && (#[trigger] d[b]).contains(j);
            assert(inv[b] == d[b]);
        }
        if ex {
            let b = choose|b: int| 0 <= b < inv.len() && byte_map[b] == t && (#[trigger] inv[b]).contains(j);
            if b < k {
                assert(d[b] == inv[b]);
            }
        }
        let here = byte_map[k] == t && inv[k].contains(j);
        assert(ex == (ex_d || here));
        if inv.last().len() > 0 && byte_map[k] as int == t {
            let q = p[t] + inv.last();
            assert(spec_remap_inverse(inv, byte_map, len)[t] == q);
            if q.contains(j) {
                let m = choose|m: int| 0 <= m < q.len() && q[m] == j;
                if m < p[t].len() {
                    assert(p[t][m] == j);
                } else {
                    assert(inv.last()[m - p[t].len()] == j);
                }
            }
            if p[t].contains(j) {
                let m = choose|m: int| 0 <= m < p[t].len() && p[t][m] == j;
                assert(q[m] == j);
            }
            if inv[k].contains(j) {
                let m = choose|m: int| 0 <= m < inv[k].len() && inv[k][m] == j;
                assert(q[p[t].len() + m] == j);
            }
        } else {
            if inv.last().len() > 0 {
                assert(spec_remap_inverse(inv, byte_map, len)[t] == p[t]);
            }
            if inv.last().len() == 0 && inv[k].contains(j) {
                let m = choose|m: int| 0 <= m < inv[k].len() && inv[k][m] == j;
            }
        }
    }
}

/// Moving a result keeps its tables inverse: where the table from source
/// bytes to reading bytes was the inverse of the reading's source bytes,
/// after the move reading byte `j` is listed under source byte `t` exactly
/// when its moved source byte is `t`.
pub proof fn lemma_remap_keeps_inverse(k2s: Seq<usize>, n: nat, byte_map: Seq<usize>, len: nat, t: int, j: usize)
    requires
        k2s.len() <= usize::MAX,
        n <= byte_map.len(),
        forall|q: int| 0 <= q < k2s.len() ==> #[trigger] k2s[q] < n,
        forall|b: int| 0 <= b < byte_map.len() ==> #[trigger] byte_map[b] < len,
        0 <= t < len,
    ensures
        spec_remap_inverse(spec_inverse(k2s, n), byte_map, len)[t].contains(j) <==> (j < k2s.len()
            && byte_map[k2s[j as int] as int] == t),
{
    let inv = spec_inverse(k2s, n);
    lemma_inverse_len(k2s, n);
    lemma_remap_contains(inv, byte_map, len, t, j);
    if spec_remap_inverse(inv, byte_map, len)[t].contains(j) {
        let b = choose|b: int| 0 <= b < inv.len() && byte_map[b] == t && (#[trigger] inv[b]).contains(j);
        lemma_inverse_contains(k2s, n, b, j);
    }
    if j < k2s.len() && byte_map[k2s[j as int] as int] == t {
        let b = k2s[j as int] as int;
        lemma_inverse_contains(k2s, n, b, j);
        assert(0 <= b < inv.len() && byte_map[b] == t && inv[b].contains(j));
    }
}

/// Moves a result on a text derived from `source_text` (by removal or
/// normalisation) back onto `source_text`, `byte_map` giving for each byte
/// of the derived text its byte in `source_text`.
pub fn remap_result_to_source(result: &mut PredictionResult, source_text: &str, byte_map: &Vec<usize>)
    requires
        forall|j: int| 0 <= j < old(result).kana_to_src_index@.len() ==> #[trigger] old(result).kana_to_src_index@[j] < byte_map@.len(),
        old(result).src_to_kana_index@.len() <= byte_map@.len(),
        forall|b: int| 0 <= b < byte_map@.len() ==> #[trigger] byte_map@[b] < byte_len(source_text@),
    ensures
        final(result).source_text@ == source_text@,
        final(result).kana_text@ == old(result).kana_text@,
        final(result).confidences@ == old(result).confidences@,
        final(result).decision_sources@ == old(result).decision_sources@,
        final(result).kana_to_src_index@ == old(result).kana_to_src_index@.map_values(|x: usize| byte_map@[x as int]),
        final(result).src_to_kana_index@.map_values(|v: Vec<usize>| v@) == spec_remap_inverse(
            old(result).src_to_kana_index@.map_values(|v: Vec<usize>| v@),
            byte_map@,
            byte_len(source_text@),
        ),
{
    let ghost k2s = result.kana_to_src_index@;
    let mut new_k2s: Vec<usize> = Vec::new();
    let mut j: usize = 0;
    while j < result.kana_to_src_index.len()
        invariant
            result.kana_to_src_index@ == k2s,
            forall|q: int| 0 <= q < k2s.len() ==> #[trigger] k2s[q] < byte_map@.len(),
            j <= k2s.len(),
            new_k2s@ == k2s.take(j as int).map_values(|x: usize| byte_map@[x as int]),
        decreases k2s.len() - j,
    {
        let x = result.kana_to_src_index[j];
        new_k2s.push(byte_map[x]);
        proof {
            assert(new_k2s@ =~= k2s.take(j + 1).map_values(|x: usize| byte_map@[x as int]));
        }
        j = j + 1;
    }
    proof {
        assert(k2s.take(k2s.len() as int) =~= k2s);
    }
    let total = str_byte_len(source_text);
    let ghost inv = result.src_to_kana_index@.map_values(|v: Vec<usize>| v@);
    let mut s2k: Vec<Vec<usize>> = Vec::new();
    let mut q: usize = 0;
    while q < total
        invariant
            q <= total,
            s2k@.len() == q,
            forall|t: int| 0 <= t < q ==> (#[trigger] s2k@[t])@ == Seq::<usize>::empty(),
        decreases total - q,
    {
        s2k.push(Vec::new());
        q = q + 1;
    }
    proof {
        assert(s2k@.map_values(|v: Vec<usize>| v@) =~= spec_remap_inverse(inv.take(0), byte_map@, total as nat));
    }
    let mut nb: usize = 0;
    while nb < result.src_to_kana_index.len()
        invariant
            inv == result.src_to_kana_index@.map_values(|v: Vec<usize>| v@),
            inv.len() <= byte_map@.len(),
            forall|t: int| 0 <= t < byte_map@.len() ==> #[trigger] byte_map@[t] < total,
            nb <= inv.len(),
            s2k@.len() == total,
            s2k@.map_values(|v: Vec<usize>| v@) == spec_remap_inverse(inv.take(nb as int), byte_map@, total as nat),
        decreases inv.len() - nb,
    {
        let ghost before = s2k@.map_values(|v: Vec<usize>| v@);
        proof {
            assert(inv.take(nb + 1).drop_last() =~= inv.take(nb as int));
            assert(inv.take(nb + 1).last() == inv[nb as int]);
            assert(inv[nb as int] == result.src_to_kana_index@[nb as int]@);
        }
        let positions = &result.src_to_kana_index[nb];
        if positions.len() > 0 {
            let target = byte_map[nb];
            let mut v = s2k[target].clone();
            proof {
                assert(v@ == before[target as int]);
            }
            let mut t: usize = 0;
            let ghost v0 = v@;
            while t < positions.len()
                invariant
                    t <= positions@.len(),
                    v@ == v0 + positions@.take(t as int),
                decreases positions@.len() - t,
            {
                v.push(positions[t]);
                proof {
                    assert(v@ =~= v0 + positions@.take(t + 1));
                }
                t = t + 1;
            }
            proof {
                assert(positions@.take(positions@.len() as int) =~= positions@);
            }
            s2k.set(target, v);
            proof {
                assert(s2k@.map_values(|v: Vec<usize>| v@) =~= before.update(target as int, before[target as int] + inv[nb as int]));
            }
        }
        nb = nb + 1;
    }
    proof {
        assert(inv.take(inv.len() as int) =~= inv);
    }
    result.kana_to_src_index = new_k2s;
    result.src_to_kana_index = s2k;
    result.source_text = source_text.to_owned();
}

// ------------------------------------------------------------
// Putting the brackets back
// ------------------------------------------------------------

/// A reading and its per-byte tables, as the contracts see them.
pub struct Piece {
    pub kana: Seq<char>,
    pub srcs: Seq<usize>,
    pub confs: Seq<u32>,
    pub decs: Seq<DecisionSource>,
}

pub open spec fn spec_empty_piece() -> Piece {
    Piece { kana: Seq::empty(), srcs: Seq::empty(), confs: Seq::empty(), decs: Seq::empty() }
}

pub open spec fn spec_cat(a: Piece, b: Piece) -> Piece {
    Piece { kana: a.kana + b.kana, srcs: a.srcs + b.srcs, confs: a.confs + b.confs, decs: a.decs + b.decs }
}

pub open spec fn spec_atom_piece(a: Atom) -> Piece {
    Piece { kana: a.kana@, srcs: a.srcs@, confs: a.confs@, decs: a.decs@ }
}

/// One character of a reading with its tables (those of its first byte).
#[derive(Debug, Clone, Copy)]
pub struct Cell {
    pub ch: char,
    pub src: usize,
    pub conf: u32,
    pub dec: DecisionSource,
    /// A boundary space (white space whose source is no white space).
    pub space: bool,
}

/// Cell `c` of a reading.
pub open spec fn spec_cell_at(kana: Seq<char>, srcs: Seq<usize>, confs: Seq<u32>, decs: Seq<DecisionSource>, tab: Seq<bool>, c: int) -> Cell {
    let b = byte_len(kana.take(c)) as int;
    Cell {
        ch: kana[c],
        src: srcs[b],
        conf: confs[b],
        dec: decs[b],
        space: crate::prediction::spec_is_space(kana[c]) && !crate::prediction::spec_src_space(tab, srcs[b] as int),
    }
}

/// The cells of a reading.
pub open spec fn spec_cells(kana: Seq<char>, srcs: Seq<usize>, confs: Seq<u32>, decs: Seq<DecisionSource>, tab: Seq<bool>) -> Seq<Cell> {
    Seq::new(kana.len(), |c: int| spec_cell_at(kana, srcs, confs, decs, tab, c))
}

/// `atoms` sorted by position, atoms of equal position keeping their order.
pub open spec fn spec_sort_atoms(atoms: Seq<Atom>) -> Seq<Atom>
    decreases atoms.len(),
{
    if atoms.len() == 0 {
        Seq::empty()
    } else {
        let p = spec_sort_atoms(atoms.drop_last());
        p.insert(spec_atom_slot(p, atoms.last().pos, 0), atoms.last())
    }
}

/// Where an atom at `pos` goes in the sorted `p`: after every atom at or
/// before `pos`.
pub open spec fn spec_atom_slot(p: Seq<Atom>, pos: usize, k: int) -> int
    decreases p.len() - k,
{
    if k < 0 || k >= p.len() {
        p.len() as int
    } else if p[k].pos > pos {
        k
    } else {
        spec_atom_slot(p, pos, k + 1)
    }
}

/// The first content cell after position `pos`.
pub open spec fn spec_right_target(cells: Seq<Cell>, pos: usize, c: int) -> Option<int>
    decreases cells.len() - c,
{
    if c < 0 || c >= cells.len() {
        None
    } else if !cells[c].space && cells[c].src > pos {
        Some(c)
    } else {
        spec_right_target(cells, pos, c + 1)
    }
}

/// The last content cell before position `pos` (among the first `c`).
pub open spec fn spec_left_target(cells: Seq<Cell>, pos: usize, c: int) -> Option<int>
    decreases c,
{
    if c <= 0 || c > cells.len() {
        None
    } else if !cells[c - 1].space && cells[c - 1].src < pos {
        Some(c - 1)
    } else {
        spec_left_target(cells, pos, c - 1)
    }
}

/// The cell an atom sticks to, if any.
pub open spec fn spec_target(cells: Seq<Cell>, a: Atom) -> Option<int> {
    match a.side {
        Side::Right => spec_right_target(cells, a.pos, 0),
        Side::Left => spec_left_target(cells, a.pos, cells.len() as int),
    }
}

/// The pieces of the atoms (of the first `m`) of side `side` whose target is
/// `t`, in order.
pub open spec fn spec_atoms_at(cells: Seq<Cell>, atoms: Seq<Atom>, side: Side, t: Option<int>, m: int) -> Piece
    decreases m,
{
    if m <= 0 || m > atoms.len() {
        spec_empty_piece()
    } else {
        let p = spec_atoms_at(cells, atoms, side, t, m - 1);
        let a = atoms[m - 1];
        if a.side == side && spec_target(cells, a) == t {
            spec_cat(p, spec_atom_piece(a))
        } else {
            p
        }
    }
}

/// Whether a content cell comes at or after cell `c`.
pub open spec fn spec_content_from(cells: Seq<Cell>, c: int) -> bool {
    exists|d: int| c <= d < cells.len() && !(#[trigger] cells[d]).space
}

/// What cell `c` gives: for a content cell, the atoms before it, itself and
/// the atoms after it; for the first boundary space after a content cell,
/// when content follows, one space credited to what was written last.
pub open spec fn spec_cell_piece(cells: Seq<Cell>, atoms: Seq<Atom>, c: int) -> Piece {
    let n = atoms.len() as int;
    let cell = cells[c];
    if !cell.space {
        let before = spec_atoms_at(cells, atoms, Side::Right, Some(c), n);
        let after = spec_atoms_at(cells, atoms, Side::Left, Some(c), n);
        let me = Piece {
            kana: seq![cell.ch],
            srcs: Seq::new(utf8_width(cell.ch), |q: int| cell.src),
            confs: Seq::new(utf8_width(cell.ch), |q: int| cell.conf),
            decs: Seq::new(utf8_width(cell.ch), |q: int| cell.dec),
        };
        spec_cat(spec_cat(before, me), after)
    } else if c > 0 && !cells[c - 1].space && spec_content_from(cells, c + 1) {
        let after = spec_atoms_at(cells, atoms, Side::Left, Some(c - 1), n);
        let src = if after.srcs.len() > 0 { after.srcs.last() } else { cells[c - 1].src };
        Piece { kana: seq![' '], srcs: seq![src], confs: seq![CONFIDENCE_ONE], decs: seq![DecisionSource::Bypass] }
    } else {
        spec_empty_piece()
    }
}

/// The pieces of the first `m` cells.
pub open spec fn spec_cells_out(cells: Seq<Cell>, atoms: Seq<Atom>, m: int) -> Piece
    decreases m,
{
    if m <= 0 {
        spec_empty_piece()
    } else {
        spec_cat(spec_cells_out(cells, atoms, m - 1), spec_cell_piece(cells, atoms, m - 1))
    }
}

/// The pieces of the first `m` atoms.
pub open spec fn spec_all_atoms(atoms: Seq<Atom>, m: int) -> Piece
    decreases m,
{
    if m <= 0 || m > atoms.len() {
        spec_empty_piece()
    } else {
        spec_cat(spec_all_atoms(atoms, m - 1), spec_atom_piece(atoms[m - 1]))
    }
}

/// The reading with the atoms put back (atoms sorted by position).
pub open spec fn spec_splice(cells: Seq<Cell>, atoms: Seq<Atom>) -> Piece {
    let n = atoms.len() as int;
    if !spec_content_from(cells, 0) {
        spec_all_atoms(atoms, n)
    } else {
        spec_cat(
            spec_cat(
                spec_atoms_at(cells, atoms, Side::Left, None, n),
                spec_cells_out(cells, atoms, cells.len() as int),
            ),
            spec_atoms_at(cells, atoms, Side::Right, None, n),
        )
    }
}

struct OutBuf {
    kana: Vec<char>,
    srcs: Vec<usize>,
    confs: Vec<u32>,
    decs: Vec<DecisionSource>,
}

spec fn spec_out_view(o: OutBuf) -> Piece {
    Piece { kana: o.kana@, srcs: o.srcs@, confs: o.confs@, decs: o.decs@ }
}

impl OutBuf {
    fn push_atom(&mut self, a: &Atom)
        ensures
            spec_out_view(*final(self)) == spec_cat(spec_out_view(*old(self)), spec_atom_piece(*a)),
    {
        let ghost o = spec_out_view(*self);
        let ks = chars_of(a.kana.as_str());
        let mut k: usize = 0;
        while k < ks.len()
            invariant
                k <= ks@.len(),
                self.kana@ == o.kana + ks@.take(k as int),
                self.srcs@ == o.srcs,
                self.confs@ == o.confs,
                self.decs@ == o.decs,
            decreases ks@.len() - k,
        {
            self.kana.push(ks[k]);
            proof {
                assert(self.kana@ =~= o.kana + ks@.take(k + 1));
            }
            k = k + 1;
        }
        proof {
            assert(ks@.take(ks@.len() as int) =~= ks@);
        }
        let ghost kv = self.kana@;
        let mut t: usize = 0;
        while t < a.srcs.len()
            invariant
                t <= a.srcs@.len(),
                self.srcs@ == o.srcs + a.srcs@.take(t as int),
                self.kana@ == kv,
                self.confs@ == o.confs,
                self.decs@ == o.decs,
            decreases a.srcs@.len() - t,
        {
            self.srcs.push(a.srcs[t]);
            proof {
                assert(self.srcs@ =~= o.srcs + a.srcs@.take(t + 1));
            }
            t = t + 1;
        }
        proof {
            assert(a.srcs@.take(a.srcs@.len() as int) =~= a.srcs@);
        }
        let mut t: usize = 0;
        while t < a.confs.len()
            invariant
                t <= a.confs@.len(),
                self.confs@ == o.confs + a.confs@.take(t as int),
                self.kana@ == kv,
                self.srcs@ == o.srcs + a.srcs@,
                self.decs@ == o.decs,
            decreases a.confs@.len() - t,
        {
            self.confs.push(a.confs[t]);
            proof {
                assert(self.confs@ =~= o.confs + a.confs@.take(t + 1));
            }
            t = t + 1;
        }
        proof {
            assert(a.confs@.take(a.confs@.len() as int) =~= a.confs@);
        }
        let mut t: usize = 0;
        while t < a.decs.len()
            invariant
                t <= a.decs@.len(),
                self.decs@ == o.decs + a.decs@.take(t as int),
                self.kana@ == kv,
                self.srcs@ == o.srcs + a.srcs@,
                self.confs@ == o.confs + a.confs@,
            decreases a.decs@.len() - t,
        {
            self.decs.push(a.decs[t]);
            proof {
                assert(self.decs@ =~= o.decs + a.decs@.take(t + 1));
            }
            t = t + 1;
        }
        proof {
            assert(ks@.take(ks@.len() as int) =~= ks@);
            assert(a.srcs@.take(a.srcs@.len() as int) =~= a.srcs@);
            assert(a.confs@.take(a.confs@.len() as int) =~= a.confs@);
            assert(a.decs@.take(a.decs@.len() as int) =~= a.decs@);
        }
    }

    fn push_cell(&mut self, cell: Cell)
        ensures
            spec_out_view(*final(self)) == spec_cat(spec_out_view(*old(self)), Piece {
                kana: seq![cell.ch],
                srcs: Seq::new(utf8_width(cell.ch), |q: int| cell.src),
                confs: Seq::new(utf8_width(cell.ch), |q: int| cell.conf),
                decs: Seq::new(utf8_width(cell.ch), |q: int| cell.dec),
            }),
    {
        let ghost o = spec_out_view(*self);
        self.kana.push(cell.ch);
        let w = char_width(cell.ch);
        let mut t: usize = 0;
        while t < w
            invariant
                t <= w,
                w <= 4,
                self.kana@ == o.kana.push(cell.ch),
                self.srcs@ == o.srcs + Seq::new(t as nat, |q: int| cell.src),
                self.confs@ == o.confs + Seq::new(t as nat, |q: int| cell.conf),
                self.decs@ == o.decs + Seq::new(t as nat, |q: int| cell.dec),
            decreases w - t,
        {
            self.srcs.push(cell.src);
            self.confs.push(cell.conf);
            self.decs.push(cell.dec);
            proof {
                assert(self.srcs@ =~= o.srcs + Seq::new((t + 1) as nat, |q: int| cell.src));
                assert(self.confs@ =~= o.confs + Seq::new((t + 1) as nat, |q: int| cell.conf));
                assert(self.decs@ =~= o.decs + Seq::new((t + 1) as nat, |q: int| cell.dec));
            }
            t = t + 1;
        }
        proof {
            assert(self.kana@ =~= o.kana + seq![cell.ch]);
        }
    }

    fn push_space(&mut self, src: usize)
        ensures
            spec_out_view(*final(self)) == spec_cat(spec_out_view(*old(self)), Piece {
                kana: seq![' '],
                srcs: seq![src],
                confs: seq![CONFIDENCE_ONE],
                decs: seq![DecisionSource::Bypass],
            }),
    {
        let ghost o = spec_out_view(*self);
        self.kana.push(' ');
        self.srcs.push(src);
        self.confs.push(CONFIDENCE_ONE);
        self.decs.push(DecisionSource::Bypass);
        proof {
            assert(self.kana@ =~= o.kana + seq![' ']);
            assert(self.srcs@ =~= o.srcs + seq![src]);
            assert(self.confs@ =~= o.confs + seq![CONFIDENCE_ONE]);
            assert(self.decs@ =~= o.decs + seq![DecisionSource::Bypass]);
        }
    }
}

proof fn lemma_cat_empty(p: Piece)
    ensures
        spec_cat(spec_empty_piece(), p) == p,
        spec_cat(p, spec_empty_piece()) == p,
{
    assert(spec_cat(spec_empty_piece(), p).kana =~= p.kana);
    assert(spec_cat(spec_empty_piece(), p).srcs =~= p.srcs);
    assert(spec_cat(spec_empty_piece(), p).confs =~= p.confs);
    assert(spec_cat(spec_empty_piece(), p).decs =~= p.decs);
    assert(spec_cat(p, spec_empty_piece()).kana =~= p.kana);
    assert(spec_cat(p, spec_empty_piece()).srcs =~= p.srcs);
    assert(spec_cat(p, spec_empty_piece()).confs =~= p.confs);
    assert(spec_cat(p, spec_empty_piece()).decs =~= p.decs);
}

proof fn lemma_cat_assoc(a: Piece, b: Piece, c: Piece)
    ensures
        spec_cat(spec_cat(a, b), c) == spec_cat(a, spec_cat(b, c)),
{
    assert(spec_cat(spec_cat(a, b), c).kana =~= spec_cat(a, spec_cat(b, c)).kana);
    assert(spec_cat(spec_cat(a, b), c).srcs =~= spec_cat(a, spec_cat(b, c)).srcs);
    assert(spec_cat(spec_cat(a, b), c).confs =~= spec_cat(a, spec_cat(b, c)).confs);
    assert(spec_cat(spec_cat(a, b), c).decs =~= spec_cat(a, spec_cat(b, c)).decs);
}

/// Appends the atoms of side `side` whose target is `t`.
fn push_atoms_at(out: &mut OutBuf, cells: Ghost<Seq<Cell>>, atoms: &Vec<Atom>, targets: &Vec<Option<usize>>, side: Side, t: Option<usize>)
    requires
        targets@.len() == atoms@.len(),
        forall|k: int| 0 <= k < atoms@.len() ==> (match #[trigger] targets@[k] {
            Some(x) => spec_target(cells@, atoms@[k]) == Some(x as int),
            None => spec_target(cells@, atoms@[k]) is None,
        }),
    ensures
        spec_out_view(*final(out)) == spec_cat(spec_out_view(*old(out)), spec_atoms_at(cells@, atoms@, side, match t { Some(x) => Some(x as int), None => None }, atoms@.len() as int)),
{
    let ghost o = spec_out_view(*out);
    let ghost ti = match t { Some(x) => Some(x as int), None => None::<int> };
    proof {
        lemma_cat_empty(o);
    }
    let mut k: usize = 0;
    while k < atoms.len()
        invariant
            k <= atoms@.len(),
            targets@.len() == atoms@.len(),
            forall|q: int| 0 <= q < atoms@.len() ==> (match #[trigger] targets@[q] {
                Some(x) => spec_target(cells@, atoms@[q]) == Some(x as int),
                None => spec_target(cells@, atoms@[q]) is None,
            }),
            ti == (match t { Some(x) => Some(x as int), None => None::<int> }),
            spec_out_view(*out) == spec_cat(o, spec_atoms_at(cells@, atoms@, side, ti, k as int)),
        decreases atoms@.len() - k,
    {
        let a = &atoms[k];
        let hit = a.side == side && match (targets[k], t) {
            (Some(x), Some(y)) => x == y,
            (None, None) => true,
            _ => false,
        };
        proof {
            assert(hit == (atoms@[k as int].side == side && spec_target(cells@, atoms@[k as int]) == ti));
        }
        if hit {
            out.push_atom(a);
            proof {
                lemma_cat_assoc(o, spec_atoms_at(cells@, atoms@, side, ti, k as int), spec_atom_piece(atoms@[k as int]));
            }
        }
        k = k + 1;
    }
}

/// `atoms` sorted by position (see [`spec_sort_atoms`]).
fn sort_atoms(atoms: Vec<Atom>) -> (r: Vec<Atom>)
    ensures
        r@ == spec_sort_atoms(atoms@),
{
    let ghost all = atoms@;
    let total = atoms.len();
    let mut rest = atoms;
    let mut sorted: Vec<Atom> = Vec::new();
    let mut k: usize = 0;
    while rest.len() > 0
        invariant
            total == all.len(),
            k + rest@.len() == all.len(),
            rest@ == all.skip(k as int),
            sorted@ == spec_sort_atoms(all.take(k as int)),
        decreases rest@.len(),
    {
        let a = rest.remove(0);
        proof {
            assert(a == all[k as int]);
            assert(rest@ =~= all.skip(k + 1));
            assert(all.take(k + 1).drop_last() =~= all.take(k as int));
            assert(all.take(k + 1).last() == a);
        }
        let mut slot: usize = 0;
        while slot < sorted.len() && sorted[slot].pos <= a.pos
            invariant
                slot <= sorted@.len(),
                spec_atom_slot(sorted@, a.pos, 0) == spec_atom_slot(sorted@, a.pos, slot as int),
            decreases sorted@.len() - slot,
        {
            slot = slot + 1;
        }
        proof {
            assert(spec_atom_slot(sorted@, a.pos, slot as int) == slot);
        }
        sorted.insert(slot, a);
        k = k + 1;
    }
    proof {
        assert(all.take(all.len() as int) =~= all);
    }
    sorted
}

fn build_cells(kana: &Vec<char>, srcs: &Vec<usize>, confs: &Vec<u32>, decs: &Vec<DecisionSource>, tab: &Vec<bool>) -> (r: Vec<Cell>)
    requires
        srcs@.len() == byte_len(kana@),
        confs@.len() == srcs@.len(),
        decs@.len() == srcs@.len(),
    ensures
        r@ == spec_cells(kana@, srcs@, confs@, decs@, tab@),
{
    let ghost k = kana@;
    let n_bytes = srcs.len();
    let mut cells: Vec<Cell> = Vec::new();
    let mut c: usize = 0;
    let mut b: usize = 0;
    while c < kana.len()
        invariant
            k == kana@,
            n_bytes == srcs@.len(),
            srcs@.len() == byte_len(k),
            confs@.len() == srcs@.len(),
            decs@.len() == srcs@.len(),
            c <= k.len(),
            b == byte_offset(k, c as int),
            cells@ == spec_cells(k, srcs@, confs@, decs@, tab@).take(c as int),
        decreases k.len() - c,
    {
        proof {
            lemma_byte_offset_step(k, c as int);
            lemma_byte_offset_mono(k, c + 1, k.len() as int);
            assert(k.take(k.len() as int) =~= k);
        }
        let ch = kana[c];
        let x = srcs[b];
        let src_space = x < tab.len() && tab[x];
        let cell = Cell {
            ch,
            src: x,
            conf: confs[b],
            dec: decs[b],
            space: crate::char_type::get_char_type(ch) == crate::char_type::CharType::Space && !src_space,
        };
        proof {
            assert(cell == spec_cells(k, srcs@, confs@, decs@, tab@)[c as int]);
        }
        let ghost old_cells = cells@;
        cells.push(cell);
        proof {
            assert(cells@ == old_cells.push(cell));
            assert(cells@ =~= spec_cells(k, srcs@, confs@, decs@, tab@).take(c + 1));
        }
        b = b + char_width(ch);
        c = c + 1;
    }
    proof {
        assert(spec_cells(k, srcs@, confs@, decs@, tab@).len() == k.len());
        assert(spec_cells(k, srcs@, confs@, decs@, tab@).take(k.len() as int) =~= spec_cells(k, srcs@, confs@, decs@, tab@));
    }
    cells
}

fn target_of(cells: &Vec<Cell>, a: &Atom) -> (r: Option<usize>)
    ensures
        match r {
            Some(x) => spec_target(cells@, *a) == Some(x as int),
            None => spec_target(cells@, *a) is None,
        },
{
    match a.side {
        Side::Right => {
            let mut c: usize = 0;
            while c < cells.len()
                invariant
                    a.side == Side::Right,
                    c <= cells@.len(),
                    spec_right_target(cells@, a.pos, 0) == spec_right_target(cells@, a.pos, c as int),
                decreases cells@.len() - c,
            {
                if !cells[c].space && cells[c].src > a.pos {
                    proof {
                        assert(spec_right_target(cells@, a.pos, c as int) == Some(c as int));
                        assert(a.side == Side::Right);
                    }
                    return Some(c);
                }
                c = c + 1;
            }
            None
        },
        Side::Left => {
            let mut c = cells.len();
            while c > 0
                invariant
                    a.side == Side::Left,
                    c <= cells@.len(),
                    spec_left_target(cells@, a.pos, cells@.len() as int) == spec_left_target(cells@, a.pos, c as int),
                decreases c,
            {
                if !cells[c - 1].space && cells[c - 1].src < a.pos {
                    proof {
                        assert(spec_left_target(cells@, a.pos, c as int) == Some(c - 1));
                        assert(a.side == Side::Left);
                    }
                    return Some(c - 1);
                }
                c = c - 1;
            }
            None
        },
    }
}

proof fn lemma_content_from_step(cells: Seq<Cell>, c: int)
    requires
        0 <= c < cells.len(),
    ensures
        spec_content_from(cells, c) == (!cells[c].space || spec_content_from(cells, c + 1)),
{
    if spec_content_from(cells, c) && cells[c].space {
        let d = choose|d: int| c <= d < cells.len() && !(#[trigger] cells[d]).space;
        assert(d != c);
        assert(c + 1 <= d);
    }
}

/// The tables of `p` have one entry per byte of its reading.
pub open spec fn spec_piece_wf(p: Piece) -> bool {
    &&& p.srcs.len() == byte_len(p.kana)
    &&& p.confs.len() == p.srcs.len()
    &&& p.decs.len() == p.srcs.len()
}

/// The tables of atom `a` have one entry per byte of its reading.
pub open spec fn spec_atom_wf(a: Atom) -> bool {
    spec_piece_wf(spec_atom_piece(a))
}

proof fn lemma_cat_wf(a: Piece, b: Piece)
    requires
        spec_piece_wf(a),
        spec_piece_wf(b),
    ensures
        spec_piece_wf(spec_cat(a, b)),
{
    lemma_byte_len_concat(a.kana, b.kana);
}

proof fn lemma_atoms_at_wf(cells: Seq<Cell>, atoms: Seq<Atom>, side: Side, t: Option<int>, m: int)
    requires
        forall|q: int| 0 <= q < atoms.len() ==> spec_atom_wf(#[trigger] atoms[q]),
    ensures
        spec_piece_wf(spec_atoms_at(cells, atoms, side, t, m)),
    decreases m,
{
    if m > 0 && m <= atoms.len() {
        lemma_atoms_at_wf(cells, atoms, side, t, m - 1);
        lemma_cat_wf(spec_atoms_at(cells, atoms, side, t, m - 1), spec_atom_piece(atoms[m - 1]));
    } else {
        assert(byte_len(Seq::<char>::empty()) == 0);
    }
}

proof fn lemma_all_atoms_wf(atoms: Seq<Atom>, m: int)
    requires
        forall|q: int| 0 <= q < atoms.len() ==> spec_atom_wf(#[trigger] atoms[q]),
    ensures
        spec_piece_wf(spec_all_atoms(atoms, m)),
    decreases m,
{
    if m > 0 && m <= atoms.len() {
        lemma_all_atoms_wf(atoms, m - 1);
        lemma_cat_wf(spec_all_atoms(atoms, m - 1), spec_atom_piece(atoms[m - 1]));
    } else {
        assert(byte_len(Seq::<char>::empty()) == 0);
    }
}

proof fn lemma_cells_out_wf(cells: Seq<Cell>, atoms: Seq<Atom>, m: int)
    requires
        0 <= m <= cells.len(),
        forall|q: int| 0 <= q < atoms.len() ==> spec_atom_wf(#[trigger] atoms[q]),
    ensures
        spec_piece_wf(spec_cells_out(cells, atoms, m)),
    decreases m,
{
    if m > 0 {
        lemma_cells_out_wf(cells, atoms, m - 1);
        let c = m - 1;
        let n = atoms.len() as int;
        let cell = cells[c];
        lemma_atoms_at_wf(cells, atoms, Side::Right, Some(c), n);
        lemma_atoms_at_wf(cells, atoms, Side::Left, Some(c), n);
        assert(seq![cell.ch].drop_last() =~= Seq::<char>::empty());
        assert(seq![' '].drop_last() =~= Seq::<char>::empty());
        assert(byte_len(Seq::<char>::empty()) == 0);
        if !cell.space {
            let before = spec_atoms_at(cells, atoms, Side::Right, Some(c), n);
            let after = spec_atoms_at(cells, atoms, Side::Left, Some(c), n);
            let me = Piece {
                kana: seq![cell.ch],
                srcs: Seq::new(utf8_width(cell.ch), |q: int| cell.src),
                confs: Seq::new(utf8_width(cell.ch), |q: int| cell.conf),
                decs: Seq::new(utf8_width(cell.ch), |q: int| cell.dec),
            };
            lemma_cat_wf(before, me);
            lemma_cat_wf(spec_cat(before, me), after);
        }
        lemma_cat_wf(spec_cells_out(cells, atoms, m - 1), spec_cell_piece(cells, atoms, c));
    } else {
        assert(byte_len(Seq::<char>::empty()) == 0);
    }
}

proof fn lemma_sort_atoms_wf(atoms: Seq<Atom>)
    requires
        forall|q: int| 0 <= q < atoms.len() ==> spec_atom_wf(#[trigger] atoms[q]),
    ensures
        spec_sort_atoms(atoms).len() == atoms.len(),
        forall|q: int| 0 <= q < spec_sort_atoms(atoms).len() ==> spec_atom_wf(#[trigger] spec_sort_atoms(atoms)[q]),
    decreases atoms.len(),
{
    if atoms.len() > 0 {
        let d = atoms.drop_last();
        assert forall|q: int| 0 <= q < d.len() implies spec_atom_wf(#[trigger] d[q]) by {
            assert(d[q] == atoms[q]);
        }
        lemma_sort_atoms_wf(d);
        let p = spec_sort_atoms(d);
        lemma_atom_slot_range(p, atoms.last().pos, 0);
        let k = spec_atom_slot(p, atoms.last().pos, 0);
        let r = p.insert(k, atoms.last());
        assert forall|q: int| 0 <= q < r.len() implies spec_atom_wf(#[trigger] r[q]) by {
            if q < k {
                assert(r[q] == p[q]);
            } else if q > k {
                assert(r[q] == p[q - 1]);
            } else {
                assert(r[q] == atoms.last());
            }
        }
    }
}

proof fn lemma_atom_slot_range(p: Seq<Atom>, pos: usize, k: int)
    requires
        0 <= k,
    ensures
        0 <= spec_atom_slot(p, pos, k) <= p.len(),
    decreases p.len() - k,
{
    if k < p.len() && p[k].pos <= pos {
        lemma_atom_slot_range(p, pos, k + 1);
    }
}

/// The spliced reading of `cells` and well-formed `atoms` has one table
/// entry per byte.
proof fn lemma_splice_wf(cells: Seq<Cell>, atoms: Seq<Atom>)
    requires
        forall|q: int| 0 <= q < atoms.len() ==> spec_atom_wf(#[trigger] atoms[q]),
    ensures
        spec_piece_wf(spec_splice(cells, atoms)),
{
    let n = atoms.len() as int;
    lemma_all_atoms_wf(atoms, n);
    lemma_atoms_at_wf(cells, atoms, Side::Left, None, n);
    lemma_atoms_at_wf(cells, atoms, Side::Right, None, n);
    lemma_cells_out_wf(cells, atoms, cells.len() as int);
    lemma_cat_wf(spec_atoms_at(cells, atoms, Side::Left, None, n), spec_cells_out(cells, atoms, cells.len() as int));
    lemma_cat_wf(
        spec_cat(spec_atoms_at(cells, atoms, Side::Left, None, n), spec_cells_out(cells, atoms, cells.len() as int)),
        spec_atoms_at(cells, atoms, Side::Right, None, n),
    );
}


/// Puts the atoms back into the reading of `result` (on `text`): an opening
/// bracket before the first word after it, a closing bracket or an
/// annotation span after the last word before it, boundary spaces kept as
/// the model put them (see [`spec_splice`]).
#[verifier::rlimit(60)]
pub fn splice_atoms(result: &mut PredictionResult, text: &str, atoms: Vec<Atom>)
    requires
        old(result).kana_to_src_index@.len() == byte_len(old(result).kana_text@),
        old(result).confidences@.len() == old(result).kana_to_src_index@.len(),
        old(result).decision_sources@.len() == old(result).kana_to_src_index@.len(),
    ensures
        atoms@.len() == 0 ==> *final(result) == *old(result),
        atoms@.len() > 0 ==> ({
            let cells = spec_cells(
                old(result).kana_text@,
                old(result).kana_to_src_index@,
                old(result).confidences@,
                old(result).decision_sources@,
                crate::prediction::spec_space_table(text@),
            );
            let out = spec_splice(cells, spec_sort_atoms(atoms@));
            &&& final(result).source_text@ == text@
            &&& final(result).kana_text@ == out.kana
            &&& final(result).kana_to_src_index@ == out.srcs
            &&& final(result).confidences@ == out.confs
            &&& final(result).decision_sources@ == out.decs
            &&& final(result).src_to_kana_index@.map_values(|v: Vec<usize>| v@) == spec_inverse(out.srcs, byte_len(text@))
        }),
        (forall|q: int| 0 <= q < atoms@.len() ==> spec_atom_wf(#[trigger] atoms@[q])) ==> {
            &&& final(result).kana_to_src_index@.len() == byte_len(final(result).kana_text@)
            &&& final(result).confidences@.len() == final(result).kana_to_src_index@.len()
            &&& final(result).decision_sources@.len() == final(result).kana_to_src_index@.len()
        },
{
    let ghost av = atoms@;
    if atoms.len() == 0 {
        return;
    }
    let sorted = sort_atoms(atoms);
    let tab = crate::prediction::space_table(text);
    let kana = chars_of(result.kana_text.as_str());
    let cells = build_cells(&kana, &result.kana_to_src_index, &result.confidences, &result.decision_sources, &tab);
    let ghost cv = cells@;
    let mut targets: Vec<Option<usize>> = Vec::new();
    let mut k: usize = 0;
    while k < sorted.len()
        invariant
            k <= sorted@.len(),
            targets@.len() == k,
            forall|q: int| 0 <= q < k ==> (match #[trigger] targets@[q] {
                Some(x) => spec_target(cells@, sorted@[q]) == Some(x as int),
                None => spec_target(cells@, sorted@[q]) is None,
            }),
        decreases sorted@.len() - k,
    {
        let t = target_of(&cells, &sorted[k]);
        targets.push(t);
        k = k + 1;
    }
    let n = cells.len();
    let mut has_after: Vec<bool> = Vec::new();
    let mut c = n;
    let mut seen = false;
    let mut rev: Vec<bool> = Vec::new();
    while c > 0
        invariant
            c <= n,
            n == cells@.len(),
            rev@.len() == n - c,
            seen == spec_content_from(cells@, c as int),
            forall|q: int| c <= q < n ==> #[trigger] rev@[n - 1 - q] == spec_content_from(cells@, q),
        decreases c,
    {
        proof {
            lemma_content_from_step(cells@, c - 1);
        }
        if !cells[c - 1].space {
            seen = true;
        }
        rev.push(seen);
        c = c - 1;
    }
    let mut q: usize = 0;
    while q < n
        invariant
            q <= n,
            n == cells@.len(),
            rev@.len() == n,
            forall|t: int| 0 <= t < n ==> #[trigger] rev@[n - 1 - t] == spec_content_from(cells@, t),
            has_after@.len() == q,
            forall|t: int| 0 <= t < q ==> #[trigger] has_after@[t] == spec_content_from(cells@, t),
        decreases n - q,
    {
        has_after.push(rev[n - 1 - q]);
        q = q + 1;
    }
    let mut out = OutBuf { kana: Vec::new(), srcs: Vec::new(), confs: Vec::new(), decs: Vec::new() };
    let ghost natoms = sorted@.len() as int;
    if !seen {
        let mut k: usize = 0;
        while k < sorted.len()
            invariant
                k <= sorted@.len(),
                spec_out_view(out) == spec_all_atoms(sorted@, k as int),
            decreases sorted@.len() - k,
        {
            out.push_atom(&sorted[k]);
            k = k + 1;
        }
    } else {
        proof {
            lemma_cat_empty(spec_atoms_at(cv, sorted@, Side::Left, None, natoms));
        }
        push_atoms_at(&mut out, Ghost(cv), &sorted, &targets, Side::Left, None);
        proof {
            assert(spec_out_view(out) == spec_atoms_at(cv, sorted@, Side::Left, None, natoms)) by {
                lemma_cat_empty(spec_atoms_at(cv, sorted@, Side::Left, None, natoms));
            }
        }
        let ghost lead = spec_out_view(out);
        let mut space_src: usize = 0;
        let mut c: usize = 0;
        proof {
            lemma_cat_empty(lead);
        }
        while c < n
            invariant
                c <= n,
                n == cells@.len(),
                cv == cells@,
                natoms == sorted@.len(),
                targets@.len() == sorted@.len(),
                forall|q: int| 0 <= q < sorted@.len() ==> (match #[trigger] targets@[q] {
                    Some(x) => spec_target(cells@, sorted@[q]) == Some(x as int),
                    None => spec_target(cells@, sorted@[q]) is None,
                }),
                has_after@.len() == n,
                forall|t: int| 0 <= t < n ==> #[trigger] has_after@[t] == spec_content_from(cells@, t),
                spec_out_view(out) == spec_cat(lead, spec_cells_out(cv, sorted@, c as int)),
                c > 0 && !cv[c - 1].space ==> space_src == ({
                    let after = spec_atoms_at(cv, sorted@, Side::Left, Some(c - 1), natoms);
                    if after.srcs.len() > 0 { after.srcs.last() } else { cv[c - 1].src }
                }),
            decreases n - c,
        {
            let cell = cells[c];
            let ghost before = spec_out_view(out);
            if !cell.space {
                push_atoms_at(&mut out, Ghost(cv), &sorted, &targets, Side::Right, Some(c));
                out.push_cell(cell);
                let mid_len = out.srcs.len();
                let ghost mid = spec_out_view(out);
                push_atoms_at(&mut out, Ghost(cv), &sorted, &targets, Side::Left, Some(c));
                let end_len = out.srcs.len();
                if end_len > mid_len {
                    space_src = out.srcs[end_len - 1];
                } else {
                    space_src = cell.src;
                }
                proof {
                    let after = spec_atoms_at(cv, sorted@, Side::Left, Some(c as int), natoms);
                    assert(spec_out_view(out).srcs == mid.srcs + after.srcs);
                    if after.srcs.len() > 0 {
                        assert((mid.srcs + after.srcs).last() == after.srcs.last());
                    }
                    let bp = spec_atoms_at(cv, sorted@, Side::Right, Some(c as int), natoms);
                    let me = Piece {
                        kana: seq![cell.ch],
                        srcs: Seq::new(utf8_width(cell.ch), |q: int| cell.src),
                        confs: Seq::new(utf8_width(cell.ch), |q: int| cell.conf),
                        decs: Seq::new(utf8_width(cell.ch), |q: int| cell.dec),
                    };
                    lemma_cat_assoc(before, bp, me);
                    lemma_cat_assoc(before, spec_cat(bp, me), after);
                    lemma_cat_assoc(lead, spec_cells_out(cv, sorted@, c as int), spec_cell_piece(cv, sorted@, c as int));
                }
            } else {
                if c > 0 && !cells[c - 1].space && has_after[c + 1 - 1] && c + 1 < n && has_after[c + 1] {
                    out.push_space(space_src);
                    proof {
                        lemma_cat_assoc(lead, spec_cells_out(cv, sorted@, c as int), spec_cell_piece(cv, sorted@, c as int));
                    }
                } else {
                    proof {
                        if c > 0 && !cv[c - 1].space && spec_content_from(cv, c + 1) {
                            assert(c + 1 < n);
                        }
                        lemma_cat_empty(spec_out_view(out));
                        lemma_cat_assoc(lead, spec_cells_out(cv, sorted@, c as int), spec_cell_piece(cv, sorted@, c as int));
                    }
                }
            }
            c = c + 1;
        }
        let ghost body = spec_out_view(out);
        push_atoms_at(&mut out, Ghost(cv), &sorted, &targets, Side::Right, None);
    }
    proof {
        if forall|q: int| 0 <= q < av.len() ==> spec_atom_wf(#[trigger] av[q]) {
            lemma_sort_atoms_wf(av);
            lemma_splice_wf(cv, sorted@);
        }
    }
    let total = str_byte_len(text);
    result.src_to_kana_index = invert_index(&out.srcs, total);
    result.kana_text = crate::prediction::string_of_chars(&out.kana);
    result.kana_to_src_index = out.srcs;
    result.confidences = out.confs;
    result.decision_sources = out.decs;
    result.source_text = text.to_owned();
}

fn append_copies<A: Copy>(dst: &mut Vec<A>, src: &Vec<A>)
    ensures
        final(dst)@ == old(dst)@ + src@,
{
    let mut k: usize = 0;
    while k < src.len()
        invariant
            k <= src@.len(),
            dst@ == old(dst)@ + src@.take(k as int),
        decreases src@.len() - k,
    {
        dst.push(src[k]);
        proof {
            assert(src@.take(k + 1) =~= src@.take(k as int).push(src@[k as int]));
        }
        k = k + 1;
    }
    proof {
        assert(src@.take(src@.len() as int) =~= src@);
    }
}

fn append_shifted(dst: &mut Vec<usize>, src: &Vec<usize>, off: usize)
    requires
        forall|i: int| 0 <= i < src@.len() ==> src@[i] + off <= usize::MAX,
    ensures
        final(dst)@ == old(dst)@ + src@.map_values(|s: usize| (s + off) as usize),
{
    let ghost shifted = src@.map_values(|s: usize| (s + off) as usize);
    let mut k: usize = 0;
    while k < src.len()
        invariant
            k <= src@.len(),
            shifted == src@.map_values(|s: usize| (s + off) as usize),
            forall|i: int| 0 <= i < src@.len() ==> src@[i] + off <= usize::MAX,
            dst@ == old(dst)@ + shifted.take(k as int),
        decreases src@.len() - k,
    {
        dst.push(src[k] + off);
        proof {
            assert(shifted.take(k + 1) =~= shifted.take(k as int).push(shifted[k as int]));
        }
        k = k + 1;
    }
    proof {
        assert(shifted.take(src@.len() as int) =~= shifted);
    }
}

/// The atom of an annotation span whose content, read on its own, gave
/// `inner`: the opening bracket, the reading of the content with its source
/// offsets moved by the content's start, and the closing bracket. It sticks
/// to the word before it.
pub fn aside_atom(sp: &AsideSpan, inner: &PredictionResult) -> (at: Atom)
    requires
        forall|i: int|
            0 <= i < inner.kana_to_src_index@.len() ==> inner.kana_to_src_index@[i] + sp.content_start
                <= usize::MAX,
    ensures
        at.pos == sp.pos,
        at.side == Side::Left,
        at.kana@ == seq![sp.open] + inner.kana_text@ + seq![sp.close],
        at.srcs@ == Seq::new(utf8_width(sp.open), |q: int| sp.pos)
            + inner.kana_to_src_index@.map_values(|s: usize| (s + sp.content_start) as usize)
            + Seq::new(utf8_width(sp.close), |q: int| sp.close_pos),
        at.confs@ == Seq::new(utf8_width(sp.open), |q: int| CONFIDENCE_ONE) + inner.confidences@
            + Seq::new(utf8_width(sp.close), |q: int| CONFIDENCE_ONE),
        at.decs@ == Seq::new(utf8_width(sp.open), |q: int| DecisionSource::Bypass)
            + inner.decision_sources@ + Seq::new(utf8_width(sp.close), |q: int| DecisionSource::Bypass),
{
    let mut kana = String::new();
    push_char(&mut kana, sp.open);
    let inner_chars = chars_of(inner.kana_text.as_str());
    let mut k: usize = 0;
    while k < inner_chars.len()
        invariant
            k <= inner_chars@.len(),
            inner_chars@ == inner.kana_text@,
            kana@ == seq![sp.open] + inner_chars@.take(k as int),
        decreases inner_chars@.len() - k,
    {
        push_char(&mut kana, inner_chars[k]);
        proof {
            assert(inner_chars@.take(k + 1) =~= inner_chars@.take(k as int).push(inner_chars@[k as int]));
        }
        k = k + 1;
    }
    proof {
        assert(inner_chars@.take(inner_chars@.len() as int) =~= inner_chars@);
    }
    push_char(&mut kana, sp.close);
    let wo = char_width(sp.open);
    let wc = char_width(sp.close);
    let mut srcs = repeat_usize(sp.pos, wo);
    append_shifted(&mut srcs, &inner.kana_to_src_index, sp.content_start);
    let mut tail_srcs = repeat_usize(sp.close_pos, wc);
    srcs.append(&mut tail_srcs);
    let mut confs = repeat_u32(CONFIDENCE_ONE, wo);
    append_copies(&mut confs, &inner.confidences);
    let mut tail_confs = repeat_u32(CONFIDENCE_ONE, wc);
    confs.append(&mut tail_confs);
    let mut decs = repeat_dec(DecisionSource::Bypass, wo);
    append_copies(&mut decs, &inner.decision_sources);
    let mut tail_decs = repeat_dec(DecisionSource::Bypass, wc);
    decs.append(&mut tail_decs);
    Atom { pos: sp.pos, side: Side::Left, kana, srcs, confs, decs }
}
} // verus!
