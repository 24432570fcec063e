//! Views of a [`PredictionResult`]: the source cut at the reading's word
//! boundaries, the reading grouped by source character, and the index tables
//! counted in characters (and braille cells) rather than bytes.

use vstd::prelude::*;

use crate::prediction::{lemma_inverse_len, spec_inverse, PredictionResult};
use crate::reading::DecisionSource;
use crate::text::{byte_len, byte_offset, chars_of, lemma_byte_offset_mono, lemma_byte_offset_step, push_char};

verus! {

// ------------------------------------------------------------
// From byte offsets to character indices
// ------------------------------------------------------------

/// Byte offsets strictly grow with the character index.
pub proof fn lemma_offset_strict(s: Seq<char>, i: int, j: int)
    requires
        0 <= i < j <= s.len(),
    ensures
        byte_offset(s, i) < byte_offset(s, j),
{
    lemma_byte_offset_step(s, i);
    lemma_byte_offset_mono(s, i + 1, j);
}

/// The index of the character of `s` that starts at byte `b` (the length
/// of `s` where `b` is its end), if `b` is a character boundary.
pub open spec fn spec_char_index(s: Seq<char>, b: int) -> Option<int> {
    if exists|i: int| 0 <= i <= s.len() && byte_offset(s, i) == b {
        Some(choose|i: int| 0 <= i <= s.len() && byte_offset(s, i) == b)
    } else {
        None
    }
}

proof fn lemma_char_index(s: Seq<char>, i: int)
    requires
        0 <= i <= s.len(),
    ensures
        spec_char_index(s, byte_offset(s, i) as int) == Some(i),
{
    let b = byte_offset(s, i) as int;
    let j = choose|j: int| 0 <= j <= s.len() && byte_offset(s, j) == b;
    if j < i {
        lemma_offset_strict(s, j, i);
    } else if i < j {
        lemma_offset_strict(s, i, j);
    }
}

/// The byte offset of every character of `s`, and of its end.
fn char_starts(s: &Vec<char>) -> (r: Vec<usize>)
    requires
        byte_len(s@) <= usize::MAX,
    ensures
        r@.len() == s@.len() + 1,
        forall|i: int| 0 <= i <= s@.len() ==> #[trigger] r@[i] == byte_offset(s@, i),
{
    let mut r: Vec<usize> = Vec::new();
    r.push(0);
    let mut b: usize = 0;
    let mut i: usize = 0;
    proof {
        assert(s@.take(0) =~= Seq::<char>::empty());
    }
    while i < s.len()
        invariant
            byte_len(s@) <= usize::MAX,
            i <= s@.len(),
            r@.len() == i + 1,
            b == byte_offset(s@, i as int),
            forall|q: int| 0 <= q <= i ==> #[trigger] r@[q] == byte_offset(s@, q),
        decreases s@.len() - i,
    {
        proof {
            lemma_byte_offset_step(s@, i as int);
            lemma_byte_offset_mono(s@, i + 1, s@.len() as int);
            assert(s@.take(s@.len() as int) =~= s@);
        }
        b = b + crate::text::char_width(s[i]);
        r.push(b);
        i = i + 1;
    }
    r
}

/// The index `i <= len` with `starts[i] == b`, if any (`starts` strictly
/// ascending).
fn find_start(starts: &Vec<usize>, b: usize) -> (r: Option<usize>)
    requires
        forall|i: int, j: int| 0 <= i < j < starts@.len() ==> #[trigger] starts@[i] < #[trigger] starts@[j],
    ensures
        match r {
            Some(i) => i < starts@.len() && starts@[i as int] == b,
            None => forall|i: int| 0 <= i < starts@.len() ==> starts@[i] != b,
        },
{
    let mut lo: usize = 0;
    let mut hi: usize = starts.len();
    while lo < hi
        invariant
            lo <= hi <= starts@.len(),
            forall|i: int, j: int| 0 <= i < j < starts@.len() ==> #[trigger] starts@[i] < #[trigger] starts@[j],
            forall|i: int| 0 <= i < lo ==> starts@[i] < b,
            forall|i: int| hi <= i < starts@.len() ==> starts@[i] > b,
        decreases hi - lo,
    {
        let mid = lo + (hi - lo) / 2;
        let v = starts[mid];
        if v == b {
            return Some(mid);
        } else if v < b {
            lo = mid + 1;
        } else {
            hi = mid;
        }
    }
    None
}

/// The character index of byte `b` of `s` as `find_start` over its starts
/// finds it.
fn char_index_of(s: &Vec<char>, starts: &Vec<usize>, b: usize) -> (r: Option<usize>)
    requires
        starts@.len() == s@.len() + 1,
        forall|i: int| 0 <= i <= s@.len() ==> #[trigger] starts@[i] == byte_offset(s@, i),
    ensures
        match r {
            Some(i) => spec_char_index(s@, b as int) == Some(i as int) && i <= s@.len(),
            None => spec_char_index(s@, b as int) is None,
        },
{
    proof {
        assert forall|i: int, j: int| 0 <= i < j < starts@.len() implies #[trigger] starts@[i] < #[trigger] starts@[j] by {
            lemma_offset_strict(s@, i, j);
        }
    }
    match find_start(starts, b) {
        Some(i) => {
            proof {
                lemma_char_index(s@, i as int);
            }
            Some(i)
        },
        None => {
            proof {
                if exists|i: int| 0 <= i <= s@.len() && byte_offset(s@, i) == b {
                    let i = choose|i: int| 0 <= i <= s@.len() && byte_offset(s@, i) == b;
                    assert(starts@[i] == b);
                }
            }
            None
        },
    }
}

// ------------------------------------------------------------
// Source segments
// ------------------------------------------------------------

/// The segments cut from the source `s` at the spaces among the first `c`
/// characters of the reading `k`, and where the next one starts; `None`
/// where a space points at no character boundary of the source or before
/// the previous cut.
pub open spec fn spec_segments_upto(s: Seq<char>, k: Seq<char>, k2s: Seq<usize>, c: int) -> Option<(Seq<Seq<char>>, int)>
    decreases c,
{
    if c <= 0 {
        Some((Seq::empty(), 0))
    } else {
        match spec_segments_upto(s, k, k2s, c - 1) {
            None => None,
            Some((segs, cur)) => if k[c - 1] != ' ' {
                Some((segs, cur))
            } else {
                match spec_char_index(s, k2s[byte_offset(k, c - 1) as int] as int) {
                    None => None,
                    Some(ci) => {
                        let end = if ci < s.len() {
                            ci + 1
                        } else {
                            s.len() as int
                        };
                        if cur > end {
                            None
                        } else {
                            let seg = s.subrange(cur, end);
                            Some((if seg.len() > 0 { segs.push(seg) } else { segs }, end))
                        }
                    },
                }
            },
        }
    }
}

/// The source cut after the character each boundary space of the reading
/// comes from; no empty segment; nothing for an empty source.
pub open spec fn spec_source_segments(s: Seq<char>, k: Seq<char>, k2s: Seq<usize>) -> Option<Seq<Seq<char>>> {
    if s.len() == 0 {
        Some(Seq::empty())
    } else {
        match spec_segments_upto(s, k, k2s, k.len() as int) {
            None => None,
            Some((segs, cur)) => {
                let rem = s.subrange(cur, s.len() as int);
                Some(if rem.len() > 0 { segs.push(rem) } else { segs })
            },
        }
    }
}

proof fn lemma_segments_none(s: Seq<char>, k: Seq<char>, k2s: Seq<usize>, c: int, m: int)
    requires
        0 <= c <= m,
        spec_segments_upto(s, k, k2s, c) is None,
    ensures
        spec_segments_upto(s, k, k2s, m) is None,
    decreases m - c,
{
    if m > c {
        lemma_segments_none(s, k, k2s, c, m - 1);
    }
}

/// `s[from..to]` as a string.
fn string_of_range(s: &Vec<char>, from: usize, to: usize) -> (r: String)
    requires
        from <= to <= s@.len(),
    ensures
        r@ == s@.subrange(from as int, to as int),
{
    let mut out = String::new();
    let mut i = from;
    while i < to
        invariant
            from <= i <= to <= s@.len(),
            out@ == s@.subrange(from as int, i as int),
        decreases to - i,
    {
        push_char(&mut out, s[i]);
        proof {
            assert(out@ =~= s@.subrange(from as int, i + 1));
        }
        i = i + 1;
    }
    out
}

/// The segments joined with `sep` between them.
pub open spec fn spec_join(segs: Seq<Seq<char>>, sep: char) -> Seq<char>
    decreases segs.len(),
{
    if segs.len() == 0 {
        Seq::empty()
    } else if segs.len() == 1 {
        segs[0]
    } else {
        spec_join(segs.drop_last(), sep).push(sep) + segs.last()
    }
}

fn join_strings(segs: &Vec<String>, sep: char) -> (r: String)
    ensures
        r@ == spec_join(segs@.map_values(|x: String| x@), sep),
{
    let ghost sv = segs@.map_values(|x: String| x@);
    let mut out = String::new();
    let mut i: usize = 0;
    while i < segs.len()
        invariant
            i <= segs@.len(),
            sv == segs@.map_values(|x: String| x@),
            out@ == spec_join(sv.take(i as int), sep),
        decreases segs@.len() - i,
    {
        proof {
            assert(sv.take(i + 1).drop_last() =~= sv.take(i as int));
        }
        if i > 0 {
            push_char(&mut out, sep);
        }
        let cs = chars_of(segs[i].as_str());
        let mut j: usize = 0;
        let ghost base = out@;
        while j < cs.len()
            invariant
                j <= cs@.len(),
                out@ == base + cs@.take(j as int),
            decreases cs@.len() - j,
        {
            push_char(&mut out, cs[j]);
            proof {
                assert(cs@.take(j + 1) =~= cs@.take(j as int).push(cs@[j as int]));
            }
            j = j + 1;
        }
        proof {
            assert(cs@.take(cs@.len() as int) =~= cs@);
            if i == 0 {
                assert(sv.take(1) =~= seq![sv[0]]);
                assert(out@ =~= sv[0]);
            } else {
                assert(out@ =~= spec_join(sv.take(i as int), sep).push(sep) + sv[i as int]);
            }
        }
        i = i + 1;
    }
    proof {
        assert(sv.take(segs@.len() as int) =~= sv);
    }
    out
}

impl PredictionResult {
    /// The source cut at the boundary spaces of the reading (see
    /// [`spec_source_segments`]): after the source character a boundary
    /// space comes from; the whole source where there is none.
    pub fn get_source_segments(&self) -> (r: Vec<String>)
        requires
            self.kana_text@.len() > 0 ==> byte_offset(self.kana_text@, self.kana_text@.len() - 1)
                < self.kana_to_src_index@.len(),
            spec_source_segments(self.source_text@, self.kana_text@, self.kana_to_src_index@) is Some,
        ensures
            Some(r@.map_values(|x: String| x@)) == spec_source_segments(
                self.source_text@,
                self.kana_text@,
                self.kana_to_src_index@,
            ),
    {
        let mut segs: Vec<String> = Vec::new();
        let s = chars_of(self.source_text.as_str());
        if s.len() == 0 {
            proof {
                assert(segs@.map_values(|x: String| x@) =~= Seq::<Seq<char>>::empty());
            }
            return segs;
        }
        let k = chars_of(self.kana_text.as_str());
        proof {
            crate::text::lemma_byte_len_is_encoding_len(self.source_text@);
            crate::text::lemma_byte_len_is_encoding_len(self.kana_text@);
        }
        let total_src = crate::text::str_byte_len(self.source_text.as_str());
        let _total_kana = crate::text::str_byte_len(self.kana_text.as_str());
        let starts = char_starts(&s);
        let mut cur: usize = 0;
        let mut kb: usize = 0;
        let mut c: usize = 0;
        proof {
            assert(segs@.map_values(|x: String| x@) =~= Seq::<Seq<char>>::empty());
        }
        while c < k.len()
            invariant
                s@ == self.source_text@,
                k@ == self.kana_text@,
                s@.len() > 0,
                byte_len(k@) <= usize::MAX,
                starts@.len() == s@.len() + 1,
                forall|i: int| 0 <= i <= s@.len() ==> #[trigger] starts@[i] == byte_offset(s@, i),
                k@.len() > 0 ==> byte_offset(k@, k@.len() - 1) < self.kana_to_src_index@.len(),
                spec_source_segments(s@, k@, self.kana_to_src_index@) is Some,
                c <= k@.len(),
                kb == byte_offset(k@, c as int),
                spec_segments_upto(s@, k@, self.kana_to_src_index@, c as int) == Some((segs@.map_values(|x: String| x@), cur as int)),
                cur <= s@.len(),
            decreases k@.len() - c,
        {
            proof {
                lemma_byte_offset_step(k@, c as int);
                lemma_byte_offset_mono(k@, c as int, k@.len() - 1);
                lemma_byte_offset_mono(k@, c + 1, k@.len() as int);
                assert(k@.take(k@.len() as int) =~= k@);
            }
            let ch = k[c];
            if ch == ' ' {
                let b = self.kana_to_src_index[kb];
                let ci = match char_index_of(&s, &starts, b) {
                    Some(i) => i,
                    None => {
                        proof {
                            lemma_segments_none(s@, k@, self.kana_to_src_index@, c + 1, k@.len() as int);
                        }
                        return segs;
                    },
                };
                let end = if ci < s.len() {
                    ci + 1
                } else {
                    s.len()
                };
                if cur > end {
                    proof {
                        lemma_segments_none(s@, k@, self.kana_to_src_index@, c + 1, k@.len() as int);
                    }
                    return segs;
                }
                if end > cur {
                    let seg = string_of_range(&s, cur, end);
                    let ghost sv = segs@.map_values(|x: String| x@);
                    segs.push(seg);
                    proof {
                        assert(segs@.map_values(|x: String| x@) =~= sv.push(s@.subrange(cur as int, end as int)));
                    }
                }
                cur = end;
            }
            kb = kb + crate::text::char_width(ch);
            c = c + 1;
        }
        if cur < s.len() {
            let rem = string_of_range(&s, cur, s.len());
            let ghost sv = segs@.map_values(|x: String| x@);
            segs.push(rem);
            proof {
                assert(segs@.map_values(|x: String| x@) =~= sv.push(s@.subrange(cur as int, s@.len() as int)));
            }
        }
        segs
    }

    /// The source segments (see [`Self::get_source_segments`]) joined with
    /// `/`.
    pub fn format_source_segmented(&self) -> (r: String)
        requires
            self.kana_text@.len() > 0 ==> byte_offset(self.kana_text@, self.kana_text@.len() - 1)
                < self.kana_to_src_index@.len(),
            spec_source_segments(self.source_text@, self.kana_text@, self.kana_to_src_index@) is Some,
        ensures
            r@ == spec_join(
                spec_source_segments(self.source_text@, self.kana_text@, self.kana_to_src_index@)->Some_0,
                '/',
            ),
    {
        let segs = self.get_source_segments();
        join_strings(&segs, '/')
    }
}


// ------------------------------------------------------------
// Character indices
// ------------------------------------------------------------

/// The index of the source character at byte `b`, 0 where no source
/// character starts there.
pub open spec fn spec_src_char_or0(s: Seq<char>, b: int) -> usize {
    match spec_char_index(s, b) {
        Some(i) => if i < s.len() {
            i as usize
        } else {
            0
        },
        None => 0,
    }
}

/// For every character of the reading `k`, the index of its source
/// character.
pub open spec fn spec_kana_to_source_char(s: Seq<char>, k: Seq<char>, k2s: Seq<usize>) -> Seq<usize> {
    Seq::new(k.len(), |c: int| spec_src_char_or0(s, k2s[byte_offset(k, c) as int] as int))
}

/// The reading bytes `kbs` that start a character of `k`, as character
/// indices.
pub open spec fn spec_kana_chars_of(kbs: Seq<usize>, k: Seq<char>) -> Seq<usize>
    decreases kbs.len(),
{
    if kbs.len() == 0 {
        Seq::empty()
    } else {
        let p = spec_kana_chars_of(kbs.drop_last(), k);
        match spec_char_index(k, kbs.last() as int) {
            Some(c) => if c < k.len() {
                p.push(c as usize)
            } else {
                p
            },
            None => p,
        }
    }
}

/// For every source character, the indices of the reading characters that
/// came from it.
pub open spec fn spec_source_to_kana_char(s: Seq<char>, k: Seq<char>, s2k: Seq<Seq<usize>>) -> Seq<Seq<usize>> {
    Seq::new(s.len(), |i: int| spec_kana_chars_of(s2k[byte_offset(s, i) as int], k))
}

/// The index of the reading character at byte `b` (not the end).
fn kana_char_at(k: &Vec<char>, starts: &Vec<usize>, b: usize) -> (r: Option<usize>)
    requires
        starts@.len() == k@.len() + 1,
        forall|i: int| 0 <= i <= k@.len() ==> #[trigger] starts@[i] == byte_offset(k@, i),
    ensures
        match r {
            Some(c) => spec_char_index(k@, b as int) == Some(c as int) && c < k@.len(),
            None => !(spec_char_index(k@, b as int) matches Some(c) && c < k@.len()),
        },
{
    match char_index_of(k, starts, b) {
        Some(c) => if c < k.len() {
            Some(c)
        } else {
            None
        },
        None => None,
    }
}

fn kana_chars_of(kbs: &Vec<usize>, k: &Vec<char>, starts: &Vec<usize>) -> (r: Vec<usize>)
    requires
        starts@.len() == k@.len() + 1,
        forall|i: int| 0 <= i <= k@.len() ==> #[trigger] starts@[i] == byte_offset(k@, i),
    ensures
        r@ == spec_kana_chars_of(kbs@, k@),
{
    let mut out: Vec<usize> = Vec::new();
    let mut j: usize = 0;
    while j < kbs.len()
        invariant
            starts@.len() == k@.len() + 1,
            forall|i: int| 0 <= i <= k@.len() ==> #[trigger] starts@[i] == byte_offset(k@, i),
            j <= kbs@.len(),
            out@ == spec_kana_chars_of(kbs@.take(j as int), k@),
        decreases kbs@.len() - j,
    {
        proof {
            assert(kbs@.take(j + 1).drop_last() =~= kbs@.take(j as int));
        }
        match kana_char_at(k, starts, kbs[j]) {
            Some(c) => out.push(c),
            None => {},
        }
        j = j + 1;
    }
    proof {
        assert(kbs@.take(kbs@.len() as int) =~= kbs@);
    }
    out
}

impl PredictionResult {
    /// For every character of the reading, the index of the source
    /// character it came from (0 where its source byte starts no
    /// character).
    pub fn kana_to_source_char(&self) -> (r: Vec<usize>)
        requires
            self.kana_text@.len() > 0 ==> byte_offset(self.kana_text@, self.kana_text@.len() - 1)
                < self.kana_to_src_index@.len(),
        ensures
            r@ == spec_kana_to_source_char(self.source_text@, self.kana_text@, self.kana_to_src_index@),
    {
        let s = chars_of(self.source_text.as_str());
        let k = chars_of(self.kana_text.as_str());
        proof {
            crate::text::lemma_byte_len_is_encoding_len(self.source_text@);
            crate::text::lemma_byte_len_is_encoding_len(self.kana_text@);
        }
        let _ls = crate::text::str_byte_len(self.source_text.as_str());
        let _lk = crate::text::str_byte_len(self.kana_text.as_str());
        let starts = char_starts(&s);
        let mut out: Vec<usize> = Vec::new();
        let mut kb: usize = 0;
        let mut c: usize = 0;
        while c < k.len()
            invariant
                s@ == self.source_text@,
                k@ == self.kana_text@,
                byte_len(k@) <= usize::MAX,
                starts@.len() == s@.len() + 1,
                forall|i: int| 0 <= i <= s@.len() ==> #[trigger] starts@[i] == byte_offset(s@, i),
                k@.len() > 0 ==> byte_offset(k@, k@.len() - 1) < self.kana_to_src_index@.len(),
                c <= k@.len(),
                kb == byte_offset(k@, c as int),
                out@ == spec_kana_to_source_char(s@, k@, self.kana_to_src_index@).take(c as int),
            decreases k@.len() - c,
        {
            proof {
                lemma_byte_offset_step(k@, c as int);
                lemma_byte_offset_mono(k@, c as int, k@.len() - 1);
                lemma_byte_offset_mono(k@, c + 1, k@.len() as int);
                assert(k@.take(k@.len() as int) =~= k@);
            }
            let b = self.kana_to_src_index[kb];
            let idx = match char_index_of(&s, &starts, b) {
                Some(i) => if i < s.len() {
                    i
                } else {
                    0
                },
                None => 0,
            };
            out.push(idx);
            proof {
                assert(out@ =~= spec_kana_to_source_char(s@, k@, self.kana_to_src_index@).take(c + 1));
            }
            kb = kb + crate::text::char_width(k[c]);
            c = c + 1;
        }
        proof {
            assert(out@ =~= spec_kana_to_source_char(s@, k@, self.kana_to_src_index@));
        }
        out
    }

    /// For every source character, the indices of the reading characters
    /// that came from it.
    pub fn source_to_kana_char(&self) -> (r: Vec<Vec<usize>>)
        requires
            self.source_text@.len() > 0 ==> byte_offset(self.source_text@, self.source_text@.len() - 1)
                < self.src_to_kana_index@.len(),
        ensures
            r@.map_values(|v: Vec<usize>| v@) == spec_source_to_kana_char(
                self.source_text@,
                self.kana_text@,
                self.src_to_kana_index@.map_values(|v: Vec<usize>| v@),
            ),
    {
        let ghost s2k = self.src_to_kana_index@.map_values(|v: Vec<usize>| v@);
        let s = chars_of(self.source_text.as_str());
        let k = chars_of(self.kana_text.as_str());
        proof {
            crate::text::lemma_byte_len_is_encoding_len(self.source_text@);
            crate::text::lemma_byte_len_is_encoding_len(self.kana_text@);
        }
        let _ls = crate::text::str_byte_len(self.source_text.as_str());
        let _lk = crate::text::str_byte_len(self.kana_text.as_str());
        let kstarts = char_starts(&k);
        let mut out: Vec<Vec<usize>> = Vec::new();
        let mut sb: usize = 0;
        let mut i: usize = 0;
        while i < s.len()
            invariant
                s@ == self.source_text@,
                k@ == self.kana_text@,
                s2k == self.src_to_kana_index@.map_values(|v: Vec<usize>| v@),
                byte_len(s@) <= usize::MAX,
                kstarts@.len() == k@.len() + 1,
                forall|q: int| 0 <= q <= k@.len() ==> #[trigger] kstarts@[q] == byte_offset(k@, q),
                s@.len() > 0 ==> byte_offset(s@, s@.len() - 1) < self.src_to_kana_index@.len(),
                i <= s@.len(),
                sb == byte_offset(s@, i as int),
                out@.map_values(|v: Vec<usize>| v@) == spec_source_to_kana_char(s@, k@, s2k).take(i as int),
            decreases s@.len() - i,
        {
            proof {
                lemma_byte_offset_step(s@, i as int);
                lemma_byte_offset_mono(s@, i as int, s@.len() - 1);
                lemma_byte_offset_mono(s@, i + 1, s@.len() as int);
                assert(s@.take(s@.len() as int) =~= s@);
            }
            let v = kana_chars_of(&self.src_to_kana_index[sb], &k, &kstarts);
            let ghost ov = out@.map_values(|v: Vec<usize>| v@);
            proof {
                assert(s2k[sb as int] == self.src_to_kana_index@[sb as int]@);
                assert(v@ == spec_source_to_kana_char(s@, k@, s2k)[i as int]);
            }
            let ghost vv = v@;
            out.push(v);
            proof {
                assert(out@.map_values(|v: Vec<usize>| v@) =~= ov.push(vv));
                assert(out@.map_values(|v: Vec<usize>| v@) =~= spec_source_to_kana_char(s@, k@, s2k).take(i + 1));
            }
            sb = sb + crate::text::char_width(s[i]);
            i = i + 1;
        }
        proof {
            assert(out@.map_values(|v: Vec<usize>| v@) =~= spec_source_to_kana_char(s@, k@, s2k));
        }
        out
    }
}


// ------------------------------------------------------------
// The reading grouped by source character
// ------------------------------------------------------------

/// One reading byte `kb` of a source character: a character of the reading
/// that starts there joins the current piece, a space closes it and is a
/// piece of its own; other bytes change nothing.
pub open spec fn spec_fmt_step(st: (Seq<Seq<char>>, Seq<char>), kb: usize, k: Seq<char>) -> (Seq<Seq<char>>, Seq<char>) {
    match spec_char_index(k, kb as int) {
        Some(c) => if c < k.len() {
            if k[c] == ' ' {
                let segs = if st.1.len() > 0 { st.0.push(st.1) } else { st.0 };
                (segs.push(seq![' ']), Seq::empty())
            } else {
                (st.0, st.1.push(k[c]))
            }
        } else {
            st
        },
        None => st,
    }
}

pub open spec fn spec_fmt_list(segs: Seq<Seq<char>>, kbs: Seq<usize>, k: Seq<char>, j: int) -> (Seq<Seq<char>>, Seq<char>)
    decreases j,
{
    if j <= 0 {
        (segs, Seq::empty())
    } else {
        spec_fmt_step(spec_fmt_list(segs, kbs, k, j - 1), kbs[j - 1], k)
    }
}

/// The pieces after the reading bytes `kbs` of one source character.
pub open spec fn spec_fmt_char(segs: Seq<Seq<char>>, kbs: Seq<usize>, k: Seq<char>) -> Seq<Seq<char>> {
    let (sg, cur) = spec_fmt_list(segs, kbs, k, kbs.len() as int);
    if cur.len() > 0 {
        sg.push(cur)
    } else {
        sg
    }
}

/// The pieces of the first `i` source characters.
pub open spec fn spec_fmt_upto(s: Seq<char>, k: Seq<char>, s2k: Seq<Seq<usize>>, i: int) -> Seq<Seq<char>>
    decreases i,
{
    if i <= 0 {
        Seq::empty()
    } else {
        spec_fmt_char(spec_fmt_upto(s, k, s2k, i - 1), s2k[byte_offset(s, i - 1) as int], k)
    }
}

impl PredictionResult {
    /// The reading cut by source character (and at spaces), the pieces
    /// joined with `/` (see [`spec_fmt_upto`]).
    pub fn format_segmented(&self) -> (r: String)
        requires
            self.source_text@.len() > 0 ==> byte_offset(self.source_text@, self.source_text@.len() - 1)
                < self.src_to_kana_index@.len(),
        ensures
            r@ == spec_join(
                spec_fmt_upto(
                    self.source_text@,
                    self.kana_text@,
                    self.src_to_kana_index@.map_values(|v: Vec<usize>| v@),
                    self.source_text@.len() as int,
                ),
                '/',
            ),
    {
        let ghost s2k = self.src_to_kana_index@.map_values(|v: Vec<usize>| v@);
        let s = chars_of(self.source_text.as_str());
        let k = chars_of(self.kana_text.as_str());
        proof {
            crate::text::lemma_byte_len_is_encoding_len(self.source_text@);
            crate::text::lemma_byte_len_is_encoding_len(self.kana_text@);
        }
        let _ls = crate::text::str_byte_len(self.source_text.as_str());
        let _lk = crate::text::str_byte_len(self.kana_text.as_str());
        let kstarts = char_starts(&k);
        let mut segs: Vec<String> = Vec::new();
        let mut sb: usize = 0;
        let mut i: usize = 0;
        proof {
            assert(segs@.map_values(|x: String| x@) =~= Seq::<Seq<char>>::empty());
        }
        while i < s.len()
            invariant
                s@ == self.source_text@,
                k@ == self.kana_text@,
                s2k == self.src_to_kana_index@.map_values(|v: Vec<usize>| v@),
                byte_len(s@) <= usize::MAX,
                kstarts@.len() == k@.len() + 1,
                forall|q: int| 0 <= q <= k@.len() ==> #[trigger] kstarts@[q] == byte_offset(k@, q),
                s@.len() > 0 ==> byte_offset(s@, s@.len() - 1) < self.src_to_kana_index@.len(),
                i <= s@.len(),
                sb == byte_offset(s@, i as int),
                segs@.map_values(|x: String| x@) == spec_fmt_upto(s@, k@, s2k, i as int),
            decreases s@.len() - i,
        {
            proof {
                lemma_byte_offset_step(s@, i as int);
                lemma_byte_offset_mono(s@, i as int, s@.len() - 1);
                lemma_byte_offset_mono(s@, i + 1, s@.len() as int);
                assert(s@.take(s@.len() as int) =~= s@);
            }
            let kbs = &self.src_to_kana_index[sb];
            let ghost kv = kbs@;
            proof {
                assert(s2k[sb as int] == kv);
            }
            let ghost seg0 = segs@.map_values(|x: String| x@);
            let mut cur = String::new();
            let mut j: usize = 0;
            while j < kbs.len()
                invariant
                    kstarts@.len() == k@.len() + 1,
                    forall|q: int| 0 <= q <= k@.len() ==> #[trigger] kstarts@[q] == byte_offset(k@, q),
                    kv == kbs@,
                    j <= kv.len(),
                    (segs@.map_values(|x: String| x@), cur@) == spec_fmt_list(seg0, kv, k@, j as int),
                decreases kv.len() - j,
            {
                let ghost sv = segs@.map_values(|x: String| x@);
                match kana_char_at(&k, &kstarts, kbs[j]) {
                    Some(c) => {
                        let ch = k[c];
                        if ch == ' ' {
                            if !cur.as_str().is_empty() {
                                let done = cur;
                                let ghost dv = done@;
                                segs.push(done);
                                proof {
                                    assert(segs@.map_values(|x: String| x@) =~= sv.push(dv));
                                }
                            }
                            let ghost sv2 = segs@.map_values(|x: String| x@);
                            let mut sp = String::new();
                            push_char(&mut sp, ' ');
                            segs.push(sp);
                            proof {
                                assert(segs@.map_values(|x: String| x@) =~= sv2.push(seq![' ']));
                            }
                            cur = String::new();
                        } else {
                            push_char(&mut cur, ch);
                        }
                    },
                    None => {},
                }
                j = j + 1;
            }
            if !cur.as_str().is_empty() {
                let ghost sv = segs@.map_values(|x: String| x@);
                let ghost cv = cur@;
                segs.push(cur);
                proof {
                    assert(segs@.map_values(|x: String| x@) =~= sv.push(cv));
                }
            }
            sb = sb + crate::text::char_width(s[i]);
            i = i + 1;
        }
        join_strings(&segs, '/')
    }
}

// ------------------------------------------------------------
// Braille cells
// ------------------------------------------------------------

/// The source character of every braille cell after the first `i` reading
/// characters: the cells `kana_to_braille[c]` up to the next character's
/// (or `count`) go to the source character of reading character `c`, later
/// characters overwriting earlier ones.
pub open spec fn spec_b2s(k2b: Seq<usize>, count: nat, k2src: Seq<usize>, i: int) -> Seq<usize>
    decreases i,
{
    if i <= 0 {
        Seq::new(count, |p: int| 0usize)
    } else {
        let prev = spec_b2s(k2b, count, k2src, i - 1);
        let start = k2b[i - 1] as int;
        let end = if i < k2b.len() {
            k2b[i] as int
        } else {
            count as int
        };
        let src = if i - 1 < k2src.len() {
            k2src[i - 1]
        } else {
            0
        };
        Seq::new(count, |p: int| if start <= p < end { src } else { prev[p] })
    }
}

/// Reading character `c` covers braille cell `p`: `p` lies from its first
/// cell up to the next character's first cell (or `count`).
pub open spec fn spec_covers(k2b: Seq<usize>, count: nat, c: int, p: int) -> bool {
    let end = if c + 1 < k2b.len() { k2b[c + 1] as int } else { count as int };
    0 <= c < k2b.len() && k2b[c] as int <= p < end
}

/// The last reading character below `i` that covers cell `p`, if any.
pub open spec fn spec_last_cover(k2b: Seq<usize>, count: nat, p: int, i: int) -> Option<int>
    decreases i,
{
    if i <= 0 {
        None
    } else if spec_covers(k2b, count, i - 1, p) {
        Some(i - 1)
    } else {
        spec_last_cover(k2b, count, p, i - 1)
    }
}

/// The source character of every braille cell is that of the last (the
/// largest) reading character that covers the cell, or 0 where none does.
pub proof fn lemma_b2s_last_cover(k2b: Seq<usize>, count: nat, k2src: Seq<usize>, i: int, p: int)
    requires
        0 <= i <= k2b.len(),
        0 <= p < count,
    ensures
        spec_b2s(k2b, count, k2src, i)[p] == (match spec_last_cover(k2b, count, p, i) {
            Some(c) => if c < k2src.len() { k2src[c] } else { 0 },
            None => 0,
        }),
        match spec_last_cover(k2b, count, p, i) {
            Some(c) => 0 <= c < i && spec_covers(k2b, count, c, p) && forall|d: int|
                c < d < i ==> !#[trigger] spec_covers(k2b, count, d, p),
            None => forall|d: int| 0 <= d < i ==> !#[trigger] spec_covers(k2b, count, d, p),
        },
    decreases i,
{
    if i > 0 {
        lemma_b2s_last_cover(k2b, count, k2src, i - 1, p);
    }
}

/// The values `k2b` gives to the indices `list` (indices past it give none).
pub open spec fn spec_gets(list: Seq<usize>, k2b: Seq<usize>) -> Seq<usize>
    decreases list.len(),
{
    if list.len() == 0 {
        Seq::empty()
    } else {
        let p = spec_gets(list.drop_last(), k2b);
        if list.last() < k2b.len() {
            p.push(k2b[list.last() as int])
        } else {
            p
        }
    }
}

/// The values of `v` are strictly ascending (sorted, no repeats).
pub open spec fn spec_strictly_ascending(v: Seq<usize>) -> bool {
    forall|a: int, b: int| 0 <= a < b < v.len() ==> #[trigger] v[a] < #[trigger] v[b]
}

proof fn lemma_insert_contains(s: Seq<usize>, k: int, x: usize)
    requires
        0 <= k <= s.len(),
    ensures
        forall|y: usize| s.insert(k, x).contains(y) <==> (s.contains(y) || y == x),
{
    let t = s.insert(k, x);
    assert forall|y: usize| t.contains(y) <==> (s.contains(y) || y == x) by {
        if t.contains(y) {
            let m = choose|m: int| 0 <= m < t.len() && t[m] == y;
            if m < k {
                assert(s[m] == y);
            } else if m > k {
                assert(s[m - 1] == y);
            }
        }
        if s.contains(y) {
            let m = choose|m: int| 0 <= m < s.len() && s[m] == y;
            if m < k {
                assert(t[m] == y);
            } else {
                assert(t[m + 1] == y);
            }
        }
        if y == x {
            assert(t[k] == y);
        }
    }
}

/// Adds `x` to the strictly ascending `v`, where it is not there yet.
fn insert_sorted_unique(v: &mut Vec<usize>, x: usize)
    requires
        spec_strictly_ascending(old(v)@),
    ensures
        spec_strictly_ascending(final(v)@),
        forall|y: usize| final(v)@.contains(y) <==> (old(v)@.contains(y) || y == x),
{
    let n = v.len();
    let mut k: usize = 0;
    while k < n && v[k] < x
        invariant
            n == v@.len(),
            k <= n,
            forall|j: int| 0 <= j < k ==> v@[j] < x,
        decreases n - k,
    {
        k = k + 1;
    }
    if k < n && v[k] == x {
        proof {
            assert(v@[k as int] == x);
            assert(v@.contains(x));
        }
        return;
    }
    let ghost old_v = v@;
    v.insert(k, x);
    proof {
        assert(v@ == old_v.insert(k as int, x));
        assert forall|a: int, b: int| 0 <= a < b < v@.len() implies #[trigger] v@[a] < #[trigger] v@[b] by {
            if b < k {
                assert(v@[a] == old_v[a] && v@[b] == old_v[b]);
            } else if b == k {
                assert(v@[a] == old_v[a]);
            } else if a < k {
                assert(v@[a] == old_v[a] && v@[b] == old_v[b - 1]);
                assert(old_v[a] < x);
                assert(old_v[k as int] > x);
                if b - 1 > k {
                    assert(old_v[k as int] < old_v[b - 1]);
                }
            } else if a == k {
                assert(v@[b] == old_v[b - 1]);
                assert(old_v[k as int] > x);
                if b - 1 > k {
                    assert(old_v[k as int] < old_v[b - 1]);
                }
            } else {
                assert(v@[a] == old_v[a - 1] && v@[b] == old_v[b - 1]);
            }
        }
        lemma_insert_contains(old_v, k as int, x);
    }
}

impl PredictionResult {
    /// For every braille cell, the index of the source character it comes
    /// from, given for every reading character the index of its first cell
    /// (see [`spec_b2s`]).
    pub fn braille_char_to_source(&self, kana_to_braille: &[usize], braille_char_count: usize) -> (r: Vec<usize>)
        requires
            self.kana_text@.len() > 0 ==> byte_offset(self.kana_text@, self.kana_text@.len() - 1)
                < self.kana_to_src_index@.len(),
        ensures
            r@ == spec_b2s(
                kana_to_braille@,
                braille_char_count as nat,
                spec_kana_to_source_char(self.source_text@, self.kana_text@, self.kana_to_src_index@),
                kana_to_braille@.len() as int,
            ),
    {
        let k2src = self.kana_to_source_char();
        let n = kana_to_braille.len();
        let mut out: Vec<usize> = Vec::new();
        let mut p: usize = 0;
        while p < braille_char_count
            invariant
                p <= braille_char_count,
                out@ == Seq::new(p as nat, |q: int| 0usize),
            decreases braille_char_count - p,
        {
            out.push(0);
            proof {
                assert(out@ =~= Seq::new((p + 1) as nat, |q: int| 0usize));
            }
            p = p + 1;
        }
        proof {
            assert(out@ =~= spec_b2s(kana_to_braille@, braille_char_count as nat, k2src@, 0));
        }
        let mut i: usize = 0;
        while i < n
            invariant
                n == kana_to_braille@.len(),
                i <= n,
                out@ == spec_b2s(kana_to_braille@, braille_char_count as nat, k2src@, i as int),
            decreases n - i,
        {
            let start = kana_to_braille[i];
            let end = if i + 1 < n {
                kana_to_braille[i + 1]
            } else {
                braille_char_count
            };
            let src = if i < k2src.len() {
                k2src[i]
            } else {
                0
            };
            let ghost prev = out@;
            let ghost next = spec_b2s(kana_to_braille@, braille_char_count as nat, k2src@, i + 1);
            let stop = if end < braille_char_count {
                end
            } else {
                braille_char_count
            };
            let mut q = start;
            while q < stop
                invariant
                    stop <= braille_char_count,
                    prev.len() == braille_char_count,
                    out@.len() == braille_char_count,
                    start <= q,
                    q <= stop || q == start,
                    forall|x: int| 0 <= x < braille_char_count ==> #[trigger] out@[x] == (if start <= x < q { src } else { prev[x] }),
                decreases stop - q,
            {
                out.set(q, src);
                q = q + 1;
            }
            proof {
                assert forall|x: int| 0 <= x < braille_char_count implies #[trigger] out@[x] == next[x] by {
                    if start <= x < q {
                        assert(x < end);
                    } else if start <= x && x < end {
                        assert(x >= q);
                        assert(false);
                    }
                }
                assert(out@ =~= next);
            }
            i = i + 1;
        }
        out
    }

    /// For every source character, the braille cells of its reading
    /// characters (as `kana_to_braille` gives them), ascending and without
    /// repeats (the two kana of a compound sound share one cell).
    pub fn source_to_braille_char(&self, kana_to_braille: &[usize]) -> (r: Vec<Vec<usize>>)
        requires
            self.source_text@.len() > 0 ==> byte_offset(self.source_text@, self.source_text@.len() - 1)
                < self.src_to_kana_index@.len(),
        ensures
            r@.len() == self.source_text@.len(),
            forall|i: int|
                0 <= i < r@.len() ==> {
                    &&& spec_strictly_ascending((#[trigger] r@[i])@)
                    &&& forall|x: usize|
                        r@[i]@.contains(x) <==> spec_gets(
                            spec_source_to_kana_char(
                                self.source_text@,
                                self.kana_text@,
                                self.src_to_kana_index@.map_values(|v: Vec<usize>| v@),
                            )[i],
                            kana_to_braille@,
                        ).contains(x)
                },
    {
        let lists = self.source_to_kana_char();
        let ghost lv = lists@.map_values(|v: Vec<usize>| v@);
        let mut out: Vec<Vec<usize>> = Vec::new();
        let mut i: usize = 0;
        while i < lists.len()
            invariant
                i <= lists@.len(),
                lv == lists@.map_values(|v: Vec<usize>| v@),
                out@.len() == i,
                forall|j: int|
                    0 <= j < i ==> {
                        &&& spec_strictly_ascending((#[trigger] out@[j])@)
                        &&& forall|x: usize| out@[j]@.contains(x) <==> spec_gets(lv[j], kana_to_braille@).contains(x)
                    },
            decreases lists@.len() - i,
        {
            let list = &lists[i];
            let mut v: Vec<usize> = Vec::new();
            let mut j: usize = 0;
            while j < list.len()
                invariant
                    j <= list@.len(),
                    spec_strictly_ascending(v@),
                    forall|x: usize| v@.contains(x) <==> spec_gets(list@.take(j as int), kana_to_braille@).contains(x),
                decreases list@.len() - j,
            {
                proof {
                    assert(list@.take(j + 1).drop_last() =~= list@.take(j as int));
                }
                let ki = list[j];
                let ghost g = spec_gets(list@.take(j as int), kana_to_braille@);
                if ki < kana_to_braille.len() {
                    let b = kana_to_braille[ki];
                    insert_sorted_unique(&mut v, b);
                    proof {
                        let g2 = g.push(b);
                        assert(spec_gets(list@.take(j + 1), kana_to_braille@) == g2);
                        assert forall|x: usize| g2.contains(x) <==> (g.contains(x) || x == b) by {
                            if g2.contains(x) {
                                let m = choose|m: int| 0 <= m < g2.len() && g2[m] == x;
                                if m < g.len() {
                                    assert(g[m] == x);
                                }
                            }
                            if g.contains(x) {
                                let m = choose|m: int| 0 <= m < g.len() && g[m] == x;
                                assert(g2[m] == x);
                            }
                            if x == b {
                                assert(g2[g.len() as int] == x);
                            }
                        }
                    }
                } else {
                    proof {
                        assert(spec_gets(list@.take(j + 1), kana_to_braille@) == g);
                    }
                }
                j = j + 1;
            }
            proof {
                assert(list@.take(list@.len() as int) =~= list@);
                assert(lv[i as int] == list@);
            }
            out.push(v);
            i = i + 1;
        }
        proof {
            assert(lv.len() == lists@.len());
        }
        out
    }
}


// ------------------------------------------------------------
// The two character tables agree
// ------------------------------------------------------------

proof fn lemma_inverse_member(srcs: Seq<usize>, len: nat, b: int, m: int)
    requires
        srcs.len() <= usize::MAX,
        0 <= b < len,
        0 <= m < spec_inverse(srcs, len)[b].len(),
    ensures
        spec_inverse(srcs, len)[b][m] < srcs.len(),
        srcs[spec_inverse(srcs, len)[b][m] as int] == b,
    decreases srcs.len(),
{
    lemma_inverse_len(srcs, len);
    if srcs.len() > 0 {
        let d = srcs.drop_last();
        let p = spec_inverse(d, len);
        lemma_inverse_len(d, len);
        let s = srcs.last();
        let j = (srcs.len() - 1) as usize;
        let v = spec_inverse(srcs, len)[b][m];
        if (s as int) < len && s as int == b {
            assert(spec_inverse(srcs, len)[b] == p[b].push(j));
            if m < p[b].len() {
                lemma_inverse_member(d, len, b, m);
                assert(v == p[b][m]);
                assert(srcs[v as int] == d[v as int]);
            } else {
                assert(v == j);
            }
        } else {
            assert(spec_inverse(srcs, len)[b] == p[b]);
            lemma_inverse_member(d, len, b, m);
            assert(srcs[v as int] == d[v as int]);
        }
    }
}

proof fn lemma_byte_len_ge(s: Seq<char>)
    ensures
        byte_len(s) >= s.len(),
    decreases s.len(),
{
    if s.len() > 0 {
        lemma_byte_len_ge(s.drop_last());
    }
}

proof fn lemma_kana_chars_member(kbs: Seq<usize>, k: Seq<char>, m: int)
    requires
        k.len() <= usize::MAX,
        0 <= m < spec_kana_chars_of(kbs, k).len(),
    ensures
        spec_kana_chars_of(kbs, k)[m] < k.len(),
        exists|j: int| 0 <= j < kbs.len() && kbs[j] as int == byte_offset(k, spec_kana_chars_of(kbs, k)[m] as int),
    decreases kbs.len(),
{
    if kbs.len() > 0 {
        let d = kbs.drop_last();
        let p = spec_kana_chars_of(d, k);
        let res = spec_kana_chars_of(kbs, k);
        if m < p.len() {
            lemma_kana_chars_member(d, k, m);
            assert(res[m] == p[m]);
            let j = choose|j: int| 0 <= j < d.len() && d[j] as int == byte_offset(k, p[m] as int);
            assert(kbs[j] == d[j]);
        } else {
            let b = kbs.last() as int;
            assert(spec_char_index(k, b) is Some);
            let c = choose|i: int| 0 <= i <= k.len() && byte_offset(k, i) == b;
            assert(res == p.push(c as usize));
            assert(res[m] == c as usize);
            let j = kbs.len() - 1;
            assert(kbs[j] as int == byte_offset(k, c));
        }
    }
}

/// A reading character listed under source character `s` (by
/// [`spec_source_to_kana_char`]) has `s` as its source character (by
/// [`spec_kana_to_source_char`]).
pub open spec fn spec_tables_agree(src: Seq<char>, k: Seq<char>, k2s: Seq<usize>, s2k: Seq<Seq<usize>>) -> bool {
    let a = spec_source_to_kana_char(src, k, s2k);
    let b = spec_kana_to_source_char(src, k, k2s);
    forall|s: int, m: int|
        #![trigger a[s][m]]
        0 <= s < a.len() && 0 <= m < a[s].len() ==> a[s][m] < b.len() && b[a[s][m] as int] == s
}

/// Where the table from source to reading is the inverse of the table from
/// reading to source (as the library builds it), the character tables
/// agree: a reading character listed under source character `s` has `s` as
/// its source character.
pub proof fn lemma_char_tables_agree(r: PredictionResult)
    requires
        r.kana_to_src_index@.len() == byte_len(r.kana_text@),
        r.kana_to_src_index@.len() <= usize::MAX,
        r.src_to_kana_index@.len() <= usize::MAX,
        r.src_to_kana_index@.map_values(|v: Vec<usize>| v@) == spec_inverse(r.kana_to_src_index@, byte_len(r.source_text@)),
    ensures
        spec_tables_agree(r.source_text@, r.kana_text@, r.kana_to_src_index@, r.src_to_kana_index@.map_values(|v: Vec<usize>| v@)),
{
    let src = r.source_text@;
    let k = r.kana_text@;
    let k2s_bytes = r.kana_to_src_index@;
    let inv = r.src_to_kana_index@.map_values(|v: Vec<usize>| v@);
    let s2k = spec_source_to_kana_char(src, k, inv);
    let k2s = spec_kana_to_source_char(src, k, k2s_bytes);
    lemma_inverse_len(k2s_bytes, byte_len(src));
    lemma_byte_len_ge(k);
    lemma_byte_len_ge(src);
    assert(inv.len() == r.src_to_kana_index@.len());
    assert forall|s: int, m: int| #![trigger s2k[s][m]] 0 <= s < s2k.len() && 0 <= m < s2k[s].len() implies s2k[s][m] < k2s.len()
        && k2s[s2k[s][m] as int] == s by {
        let b = byte_offset(src, s) as int;
        lemma_offset_strict(src, s, src.len() as int);
        assert(src.take(src.len() as int) =~= src);
        assert(b < byte_len(src));
        let kbs = inv[b];
        assert(kbs == spec_inverse(k2s_bytes, byte_len(src))[b]);
        assert(s2k[s] == spec_kana_chars_of(kbs, k));
        lemma_kana_chars_member(kbs, k, m);
        let x = s2k[s][m] as int;
        assert(x < k.len());
        let j = choose|j: int| 0 <= j < kbs.len() && kbs[j] as int == byte_offset(k, x);
        lemma_inverse_member(k2s_bytes, byte_len(src), b, j);
        assert(k2s_bytes[byte_offset(k, x) as int] as int == b);
        lemma_char_index(src, s);
        assert(spec_src_char_or0(src, b) == s as usize);
        assert(k2s[x] == spec_src_char_or0(src, k2s_bytes[byte_offset(k, x) as int] as int));
    }
    assert(spec_tables_agree(src, k, k2s_bytes, inv));
}


// ------------------------------------------------------------
// Trace rows
// ------------------------------------------------------------

/// What a trace shows of one source character that the result alone
/// decides: the character, the reading characters that came from it, how
/// the first of its reading bytes was decided, and those reading bytes
/// (whose confidences the trace takes the least of).
pub struct TraceGroup {
    pub source: char,
    pub kana: String,
    pub decision: Option<DecisionSource>,
    pub kana_bytes: Vec<usize>,
}

/// The reading characters with indices `idx`, in order.
pub open spec fn spec_chars_at(k: Seq<char>, idx: Seq<usize>) -> Seq<char> {
    idx.map_values(|q: usize| k[q as int])
}

/// The decision of the first of the reading bytes `kbs`.
pub open spec fn spec_first_decision(kbs: Seq<usize>, decs: Seq<DecisionSource>) -> Option<DecisionSource> {
    if kbs.len() == 0 {
        None
    } else {
        Some(decs[kbs[0] as int])
    }
}

proof fn lemma_kana_chars_in_range(kbs: Seq<usize>, k: Seq<char>)
    ensures
        forall|j: int|
            0 <= j < spec_kana_chars_of(kbs, k).len() ==> (#[trigger] spec_kana_chars_of(kbs, k)[j]) < k.len(),
    decreases kbs.len(),
{
    if kbs.len() > 0 {
        lemma_kana_chars_in_range(kbs.drop_last(), k);
        let p = spec_kana_chars_of(kbs.drop_last(), k);
        let r = spec_kana_chars_of(kbs, k);
        assert forall|j: int| 0 <= j < r.len() implies (#[trigger] r[j]) < k.len() by {
            if j < p.len() {
                assert(r[j] == p[j]);
            }
        }
    }
}

fn copy_indices(v: &Vec<usize>) -> (r: Vec<usize>)
    ensures
        r@ == v@,
{
    let mut r: Vec<usize> = Vec::new();
    let mut j: usize = 0;
    while j < v.len()
        invariant
            j <= v.len(),
            r@ == v@.take(j as int),
        decreases v.len() - j,
    {
        r.push(v[j]);
        j = j + 1;
        proof {
            assert(r@ =~= v@.take(j as int));
        }
    }
    proof {
        assert(v@.take(v@.len() as int) =~= v@);
    }
    r
}

fn chars_at(k: &Vec<char>, idx: &Vec<usize>) -> (r: String)
    requires
        forall|t: int| 0 <= t < idx@.len() ==> (#[trigger] idx@[t]) < k@.len(),
    ensures
        r@ == spec_chars_at(k@, idx@),
{
    let mut r = String::new();
    let mut j: usize = 0;
    while j < idx.len()
        invariant
            forall|t: int| 0 <= t < idx@.len() ==> (#[trigger] idx@[t]) < k@.len(),
            j <= idx@.len(),
            r@ == spec_chars_at(k@, idx@.take(j as int)),
        decreases idx@.len() - j,
    {
        let q = idx[j];
        push_char(&mut r, k[q]);
        j = j + 1;
        proof {
            assert(spec_chars_at(k@, idx@.take(j as int)) =~= spec_chars_at(k@, idx@.take(j - 1)).push(
                k@[q as int],
            ));
        }
    }
    proof {
        assert(idx@.take(idx@.len() as int) =~= idx@);
    }
    r
}

impl PredictionResult {
    /// The row of the source character at byte `b`, whose reading
    /// characters have the indices `idx`.
    fn trace_row(&self, ch: char, b: usize, k: &Vec<char>, idx: &Vec<usize>) -> (row: TraceGroup)
        requires
            b < self.src_to_kana_index@.len(),
            k@ == self.kana_text@,
            idx@ == spec_kana_chars_of(self.src_to_kana_index@[b as int]@, self.kana_text@),
            forall|j: int|
                0 <= j < self.src_to_kana_index@[b as int]@.len() ==> #[trigger] self.src_to_kana_index@[b as int]@[j]
                    < self.decision_sources@.len(),
        ensures
            row.source == ch,
            row.kana_bytes@ == self.src_to_kana_index@[b as int]@,
            row.kana@ == spec_chars_at(self.kana_text@, idx@),
            row.decision == spec_first_decision(self.src_to_kana_index@[b as int]@, self.decision_sources@),
    {
        let kbs = copy_indices(&self.src_to_kana_index[b]);
        proof {
            lemma_kana_chars_in_range(kbs@, k@);
        }
        let kana = chars_at(k, idx);
        let decision = if kbs.len() == 0 {
            None
        } else {
            Some(self.decision_sources[kbs[0]])
        };
        TraceGroup { source: ch, kana, decision, kana_bytes: kbs }
    }

    /// For every source character, its row of a trace: the character, the
    /// reading characters that came from it, the decision of its first
    /// reading byte (`None` where it has none), and its reading bytes.
    pub fn trace_groups(&self) -> (r: Vec<TraceGroup>)
        requires
            self.source_text@.len() > 0 ==> byte_offset(self.source_text@, self.source_text@.len() - 1)
                < self.src_to_kana_index@.len(),
            forall|b: int, j: int|
                0 <= b < self.src_to_kana_index@.len() && 0 <= j < self.src_to_kana_index@[b]@.len()
                    ==> #[trigger] self.src_to_kana_index@[b]@[j] < self.decision_sources@.len(),
        ensures
            r@.len() == self.source_text@.len(),
            forall|c: int|
                0 <= c < r@.len() ==> {
                    let kbs = self.src_to_kana_index@[byte_offset(self.source_text@, c) as int]@;
                    &&& (#[trigger] r@[c]).source == self.source_text@[c]
                    &&& r@[c].kana_bytes@ == kbs
                    &&& r@[c].kana@ == spec_chars_at(self.kana_text@, spec_kana_chars_of(kbs, self.kana_text@))
                    &&& r@[c].decision == spec_first_decision(kbs, self.decision_sources@)
                },
    {
        let ghost s2k = self.src_to_kana_index@.map_values(|v: Vec<usize>| v@);
        let groups = self.source_to_kana_char();
        let s = chars_of(self.source_text.as_str());
        let k = chars_of(self.kana_text.as_str());
        proof {
            crate::text::lemma_byte_len_is_encoding_len(self.source_text@);
            assert(groups@.map_values(|v: Vec<usize>| v@).len() == groups@.len());
            assert forall|q: int| 0 <= q < groups@.len() implies (#[trigger] groups@[q])@ == spec_kana_chars_of(
                self.src_to_kana_index@[byte_offset(s@, q) as int]@,
                k@,
            ) by {
                assert(groups@.map_values(|v: Vec<usize>| v@)[q] == groups@[q]@);
                if s@.len() > 0 {
                    lemma_byte_offset_mono(s@, q, s@.len() - 1);
                }
                assert(s2k[byte_offset(s@, q) as int] == self.src_to_kana_index@[byte_offset(s@, q) as int]@);
            }
        }
        let total = crate::text::str_byte_len(self.source_text.as_str());
        let mut out: Vec<TraceGroup> = Vec::new();
        let mut c: usize = 0;
        let mut b: usize = 0;
        proof {
            assert(s@.take(0) =~= Seq::<char>::empty());
        }
        while c < s.len()
            invariant
                groups@.len() == s@.len(),
                forall|q: int| 0 <= q < groups@.len() ==> (#[trigger] groups@[q])@ == spec_kana_chars_of(
                    self.src_to_kana_index@[byte_offset(s@, q) as int]@,
                    k@,
                ),
                total == byte_len(s@),
                s@ == self.source_text@,
                k@ == self.kana_text@,
                c <= s@.len(),
                b == byte_offset(s@, c as int),
                self.source_text@.len() > 0 ==> byte_offset(self.source_text@, self.source_text@.len() - 1)
                    < self.src_to_kana_index@.len(),
                forall|bb: int, j: int|
                    0 <= bb < self.src_to_kana_index@.len() && 0 <= j < self.src_to_kana_index@[bb]@.len()
                        ==> #[trigger] self.src_to_kana_index@[bb]@[j] < self.decision_sources@.len(),
                out@.len() == c,
                forall|q: int|
                    0 <= q < c ==> {
                        let kbs = self.src_to_kana_index@[byte_offset(self.source_text@, q) as int]@;
                        &&& (#[trigger] out@[q]).source == self.source_text@[q]
                        &&& out@[q].kana_bytes@ == kbs
                        &&& out@[q].kana@ == spec_chars_at(self.kana_text@, spec_kana_chars_of(kbs, self.kana_text@))
                        &&& out@[q].decision == spec_first_decision(kbs, self.decision_sources@)
                    },
            decreases s@.len() - c,
        {
            proof {
                lemma_byte_offset_mono(s@, c as int, s@.len() - 1);
            }
            let ch = s[c];
            let row = self.trace_row(ch, b, &k, &groups[c]);
            out.push(row);
            proof {
                lemma_byte_offset_step(s@, c as int);
                lemma_byte_offset_mono(s@, c + 1, s@.len() as int);
                assert(s@.take(s@.len() as int) =~= s@);
            }
            b = b + crate::text::char_width(ch);
            c = c + 1;
        }
        out
    }
}

} // verus!
