//! The custom (phrase) dictionary: parsing and matching.
//!
//! A line of the dictionary is `surface<TAB>reading`; blank lines and lines
//! that start with `#` are comments. The reading gives one block per unit of
//! the surface, separated by `/`; a block made of one space (`/ /`) marks a
//! forced boundary between the units around it. A boundary marker at either
//! end, an empty block (`//`), an empty surface, or a block count that differs
//! from the unit count is an error. Matching works as for the name
//! dictionary: the longest entry wins, the first listed among equally long
//! ones.

use vstd::prelude::*;

use crate::error::{invalid_custom_dict, Error};
use crate::featurize::{spec_source_seq, to_source_seq, SourceEntry};
use crate::name_dict::{spec_name_matches, spec_unit_of, NameUnit};
use crate::text::{chars_of, push_char};

verus! {

/// One entry of the custom dictionary.
#[derive(Debug, Clone)]
pub struct CustomDictEntry {
    /// Its units.
    pub units: Vec<NameUnit>,
    /// One reading per unit.
    pub readings: Vec<String>,
    /// `forced_split_after[k]`: a boundary follows unit `k` (one entry less
    /// than units; the boundary after the last unit is the model's).
    pub forced_split_after: Vec<bool>,
}

/// An entry as the contracts see it.
pub type SpecCustomEntry = (Seq<NameUnit>, Seq<Seq<char>>, Seq<bool>);

/// The entries of the custom dictionary, longest first; entries of equal
/// length keep the order in which they were given.
pub struct CustomDictIndex {
    entries: Vec<CustomDictEntry>,
}

pub open spec fn spec_custom_view(e: CustomDictEntry) -> SpecCustomEntry {
    (e.units@, e.readings@.map_values(|s: String| s@), e.forced_split_after@)
}

impl View for CustomDictIndex {
    type V = Seq<SpecCustomEntry>;

    closed spec fn view(&self) -> Seq<SpecCustomEntry> {
        self.entries@.map_values(|e: CustomDictEntry| spec_custom_view(e))
    }
}

// ------------------------------------------------------------
// Reading blocks
// ------------------------------------------------------------

/// `s` cut at every `sep` (the pieces, in order; at least one).
pub open spec fn spec_split_on(s: Seq<char>, sep: char) -> Seq<Seq<char>>
    decreases s.len(),
{
    if s.len() == 0 {
        seq![Seq::empty()]
    } else {
        let p = spec_split_on(s.drop_last(), sep);
        if s.last() == sep {
            p.push(Seq::empty())
        } else {
            p.update(p.len() - 1, p.last().push(s.last()))
        }
    }
}

/// `s` cut at every `/`.
pub open spec fn spec_split_slash(s: Seq<char>) -> Seq<Seq<char>> {
    spec_split_on(s, '/')
}

pub(crate) proof fn lemma_split_nonempty(s: Seq<char>, sep: char)
    ensures
        spec_split_on(s, sep).len() >= 1,
    decreases s.len(),
{
    if s.len() > 0 {
        lemma_split_nonempty(s.drop_last(), sep);
    }
}

pub open spec fn spec_is_marker(b: Seq<char>) -> bool {
    b == seq![' ']
}

/// The readings (the blocks that are no marker) of `blocks`.
pub open spec fn spec_readings_of(blocks: Seq<Seq<char>>) -> Seq<Seq<char>>
    decreases blocks.len(),
{
    if blocks.len() == 0 {
        Seq::empty()
    } else if spec_is_marker(blocks.last()) {
        spec_readings_of(blocks.drop_last())
    } else {
        spec_readings_of(blocks.drop_last()).push(blocks.last())
    }
}

/// Whether a marker stands among `blocks` right after the `k`-th reading.
pub open spec fn spec_marked_after(blocks: Seq<Seq<char>>, k: int) -> bool
    decreases blocks.len(),
{
    if blocks.len() == 0 {
        false
    } else if spec_is_marker(blocks.last()) {
        spec_readings_of(blocks.drop_last()).len() == k + 1 || spec_marked_after(
            blocks.drop_last(),
            k,
        )
    } else {
        spec_marked_after(blocks.drop_last(), k)
    }
}

/// Whether the reading `reading` is well formed: no marker at either end
/// and no empty block.
pub open spec fn spec_reading_ok(reading: Seq<char>) -> bool {
    let b = spec_split_slash(reading);
    !spec_is_marker(b[0]) && !spec_is_marker(b.last()) && forall|k: int|
        0 <= k < b.len() ==> (#[trigger] b[k]).len() > 0
}

/// The readings and forced boundaries of a well-formed reading.
pub open spec fn spec_parse_reading(reading: Seq<char>) -> (Seq<Seq<char>>, Seq<bool>) {
    let b = spec_split_slash(reading);
    let r = spec_readings_of(b);
    (r, Seq::new((if r.len() == 0 { 0 } else { r.len() - 1 }) as nat, |k: int| spec_marked_after(b, k)))
}

pub(crate) fn split_on(reading: &str, sep: char) -> (r: Vec<String>)
    ensures
        r@.map_values(|s: String| s@) == spec_split_on(reading@, sep),
{
    let cs = chars_of(reading);
    let mut blocks: Vec<String> = Vec::new();
    let mut cur = String::new();
    let mut i: usize = 0;
    while i < cs.len()
        invariant
            cs@ == reading@,
            i <= cs@.len(),
            blocks@.map_values(|s: String| s@).push(cur@) == spec_split_on(cs@.take(i as int), sep),
        decreases cs@.len() - i,
    {
        let c = cs[i];
        let ghost bv = blocks@.map_values(|s: String| s@);
        let ghost cv = cur@;
        proof {
            assert(cs@.take(i + 1).drop_last() =~= cs@.take(i as int));
        }
        if c == sep {
            let done = cur;
            blocks.push(done);
            cur = String::new();
            proof {
                assert(blocks@.map_values(|s: String| s@) =~= bv.push(cv));
                assert(blocks@.map_values(|s: String| s@).push(cur@) =~= spec_split_on(
                    cs@.take(i + 1),
                    sep,
                ));
            }
        } else {
            push_char(&mut cur, c);
            proof {
                assert(blocks@.map_values(|s: String| s@).push(cur@) =~= bv.push(cv).update(
                    bv.len() as int,
                    cv.push(c),
                ));
            }
        }
        i = i + 1;
    }
    let ghost bv = blocks@.map_values(|s: String| s@);
    let ghost cv = cur@;
    blocks.push(cur);
    proof {
        assert(blocks@.map_values(|s: String| s@) =~= bv.push(cv));
        assert(cs@.take(cs@.len() as int) =~= cs@);
    }
    blocks
}

fn is_marker(b: &String) -> (r: bool)
    ensures
        r == spec_is_marker(b@),
{
    let cs = chars_of(b.as_str());
    if cs.len() == 1 && cs[0] == ' ' {
        proof {
            assert(cs@ =~= seq![' ']);
        }
        true
    } else {
        false
    }
}

/// Splits a reading into one reading per unit and the forced boundaries
/// after each unit but the last (see the module documentation).
pub fn parse_reading_blocks(reading: &str) -> (r: Result<(Vec<String>, Vec<bool>), Error>)
    ensures
        match r {
            Ok((rs, fs)) => spec_reading_ok(reading@) && (rs@.map_values(|s: String| s@), fs@)
                == spec_parse_reading(reading@),
            Err(e) => !spec_reading_ok(reading@) && e is InvalidCustomDict,
        },
{
    let blocks = split_on(reading, '/');
    let ghost b = spec_split_slash(reading@);
    proof {
        lemma_split_nonempty(reading@, '/');
        assert(blocks@.len() == b.len());
    }
    let nb = blocks.len();
    if is_marker(&blocks[0]) || is_marker(&blocks[nb - 1]) {
        proof {
            assert(b[0] == blocks@[0]@);
            assert(b.last() == blocks@[nb - 1]@);
        }
        return Err(invalid_custom_dict("boundary marker at an end of the reading"));
    }
    proof {
        assert(b[0] == blocks@[0]@);
        assert(b.last() == blocks@[nb - 1]@);
    }
    let mut readings: Vec<String> = Vec::new();
    let mut marks: Vec<bool> = Vec::new();
    let mut k: usize = 0;
    while k < nb
        invariant
            nb == blocks@.len(),
            b == blocks@.map_values(|s: String| s@),
            b == spec_split_slash(reading@),
            k <= nb,
            !spec_is_marker(b[0]),
            forall|t: int| 0 <= t < k ==> (#[trigger] b[t]).len() > 0,
            readings@.map_values(|s: String| s@) == spec_readings_of(b.take(k as int)),
            k > 0 ==> readings@.len() >= 1,
            marks@.len() == readings@.len(),
            forall|t: int|
                0 <= t < marks@.len() ==> #[trigger] marks@[t] == spec_marked_after(
                    b.take(k as int),
                    t,
                ),
        decreases nb - k,
    {
        let ghost pre = b.take(k as int);
        proof {
            assert(b.take(k + 1).drop_last() =~= pre);
            assert(b.take(k + 1).last() == b[k as int]);
            assert(b[k as int] == blocks@[k as int]@);
        }
        if is_marker(&blocks[k]) {
            proof {
                if k == 0 {
                    assert(false);
                }
            }
            let gap = readings.len() - 1;
            marks.set(gap, true);
            proof {
                assert forall|t: int| 0 <= t < marks@.len() implies #[trigger] marks@[t]
                    == spec_marked_after(b.take(k + 1), t) by {
                    assert(spec_readings_of(pre).len() == readings@.len());
                }
                assert(readings@.map_values(|s: String| s@) =~= spec_readings_of(b.take(k + 1)));
            }
        } else {
            if blocks[k].as_str().is_empty() {
                proof {
                    assert(b[k as int].len() == 0);
                    assert(0 <= k < b.len());
                    assert(!(forall|t: int| 0 <= t < b.len() ==> (#[trigger] b[t]).len() > 0));
                    assert(!spec_reading_ok(reading@));
                }
                return Err(invalid_custom_dict("empty reading block"));
            }
            let ghost rv = readings@.map_values(|s: String| s@);
            readings.push(blocks[k].clone());
            marks.push(false);
            proof {
                assert(readings@.map_values(|s: String| s@) =~= rv.push(b[k as int]));
                assert forall|t: int| 0 <= t < marks@.len() implies #[trigger] marks@[t]
                    == spec_marked_after(b.take(k + 1), t) by {
                    if t == marks@.len() - 1 {
                        lemma_marked_after_bound(pre, t);
                    }
                }
            }
        }
        k = k + 1;
    }
    proof {
        assert(b.take(nb as int) =~= b);
    }
    let nr = readings.len();
    if nr > 0 {
        marks.truncate(nr - 1);
    }
    proof {
        let (pr, pf) = spec_parse_reading(reading@);
        assert(marks@ =~= pf);
    }
    Ok((readings, marks))
}

proof fn lemma_marked_after_bound(blocks: Seq<Seq<char>>, k: int)
    requires
        k >= spec_readings_of(blocks).len(),
    ensures
        !spec_marked_after(blocks, k),
    decreases blocks.len(),
{
    if blocks.len() > 0 {
        lemma_readings_len_mono(blocks);
        lemma_marked_after_bound(blocks.drop_last(), k);
    }
}

proof fn lemma_readings_len_mono(blocks: Seq<Seq<char>>)
    requires
        blocks.len() > 0,
    ensures
        spec_readings_of(blocks.drop_last()).len() <= spec_readings_of(blocks).len(),
{
}

/// The readings of `blocks` are its blocks that are no marker, in order.
proof fn lemma_readings_are_filter(blocks: Seq<Seq<char>>)
    ensures
        spec_readings_of(blocks) == blocks.filter(|b: Seq<char>| !spec_is_marker(b)),
    decreases blocks.len(),
{
    reveal_with_fuel(Seq::filter, 1);
    if blocks.len() > 0 {
        lemma_readings_are_filter(blocks.drop_last());
    }
}

/// A marker follows the `k`-th reading exactly when some block `j` is a
/// marker and `k + 1` readings stand before it.
proof fn lemma_marked_after_iff(blocks: Seq<Seq<char>>, k: int)
    ensures
        spec_marked_after(blocks, k) <==> exists|j: int|
            0 <= j < blocks.len() && spec_is_marker(#[trigger] blocks[j]) && spec_readings_of(
                blocks.take(j),
            ).len() == k + 1,
    decreases blocks.len(),
{
    if blocks.len() > 0 {
        let n = blocks.len() - 1;
        lemma_marked_after_iff(blocks.drop_last(), k);
        assert(blocks.take(n) =~= blocks.drop_last());
        assert forall|j: int| 0 <= j < n implies #[trigger] blocks.take(j) =~= blocks.drop_last().take(
            j,
        ) && blocks[j] == blocks.drop_last()[j] by {}
        if spec_marked_after(blocks, k) {
            if !spec_marked_after(blocks.drop_last(), k) {
                assert(spec_is_marker(blocks[n]));
                assert(spec_readings_of(blocks.take(n)).len() == k + 1);
            } else {
                let j = choose|j: int|
                    0 <= j < n && spec_is_marker(#[trigger] blocks.drop_last()[j])
                        && spec_readings_of(blocks.drop_last().take(j)).len() == k + 1;
                assert(blocks.take(j) =~= blocks.drop_last().take(j));
                assert(blocks[j] == blocks.drop_last()[j]);
            }
        } else {
            assert forall|j: int|
                0 <= j < blocks.len() && spec_is_marker(#[trigger] blocks[j]) implies spec_readings_of(
                blocks.take(j),
            ).len() != k + 1 by {
                if j < n {
                    assert(blocks.take(j) =~= blocks.drop_last().take(j));
                    assert(blocks[j] == blocks.drop_last()[j]);
                }
            }
        }
    }
}

/// The units of a surface are none exactly when the surface is empty.
proof fn lemma_surface_units_empty(surface: Seq<char>)
    ensures
        spec_surface_units(surface).len() == 0 <==> surface.len() == 0,
{
    crate::featurize::lemma_source_seq_nonempty(surface);
}

/// A custom entry (surface, reading) is refused exactly when the surface is
/// empty, the reading's first or last `/`-block is the marker `" "`, a block
/// is empty, or the number of blocks that are no marker differs from the
/// number of units of the surface. An accepted entry has those blocks as its
/// readings, in order, and a forced split after reading `k` exactly when a
/// marker block stands with `k + 1` readings before it.
pub proof fn lemma_custom_entry_law(surface: Seq<char>, reading: Seq<char>)
    ensures
        ({
            let b = spec_split_slash(reading);
            let readings = b.filter(|x: Seq<char>| !spec_is_marker(x));
            &&& spec_entry_ok(surface, reading) <==> {
                &&& surface.len() > 0
                &&& !spec_is_marker(b[0])
                &&& !spec_is_marker(b.last())
                &&& forall|k: int| 0 <= k < b.len() ==> (#[trigger] b[k]).len() > 0
                &&& readings.len() == spec_source_seq(surface).len()
            }
            &&& spec_parse_reading(reading).0 == readings
            &&& spec_parse_reading(reading).1.len() == if readings.len() == 0 {
                0
            } else {
                readings.len() - 1
            }
            &&& forall|k: int|
                0 <= k < spec_parse_reading(reading).1.len() ==> (#[trigger] spec_parse_reading(
                    reading,
                ).1[k] <==> exists|j: int|
                    0 <= j < b.len() && spec_is_marker(#[trigger] b[j]) && spec_readings_of(
                        b.take(j),
                    ).len() == k + 1)
        }),
{
    let b = spec_split_slash(reading);
    lemma_readings_are_filter(b);
    lemma_surface_units_empty(surface);
    assert forall|k: int| 0 <= k < spec_parse_reading(reading).1.len() implies (#[trigger] spec_parse_reading(
        reading,
    ).1[k] <==> exists|j: int|
        0 <= j < b.len() && spec_is_marker(#[trigger] b[j]) && spec_readings_of(b.take(j)).len()
            == k + 1) by {
        lemma_marked_after_iff(b, k);
    }
}


// ------------------------------------------------------------
// The index
// ------------------------------------------------------------

/// The units of the surface `surface`.
pub open spec fn spec_surface_units(surface: Seq<char>) -> Seq<NameUnit> {
    spec_source_seq(surface).map_values(|e: SourceEntry| spec_unit_of(e))
}

/// Whether the entry (surface, reading) is well formed.
pub open spec fn spec_entry_ok(surface: Seq<char>, reading: Seq<char>) -> bool {
    &&& spec_reading_ok(reading)
    &&& spec_surface_units(surface).len() > 0
    &&& spec_surface_units(surface).len() == spec_parse_reading(reading).0.len()
}

/// Where an entry of `l` units goes in `v`: after every entry at least as
/// long.
pub open spec fn spec_custom_insert_pos(v: Seq<SpecCustomEntry>, l: nat, k: int) -> int
    decreases v.len() - k,
{
    if k < 0 || k >= v.len() {
        v.len() as int
    } else if v[k].0.len() < l {
        k
    } else {
        spec_custom_insert_pos(v, l, k + 1)
    }
}

/// The index of the entries `entries` (surface, reading), all well formed.
pub open spec fn spec_build_custom(entries: Seq<(Seq<char>, Seq<char>)>) -> Seq<SpecCustomEntry>
    decreases entries.len(),
{
    if entries.len() == 0 {
        Seq::empty()
    } else {
        let prev = spec_build_custom(entries.drop_last());
        let (surface, reading) = entries.last();
        let units = spec_surface_units(surface);
        let (rs, fs) = spec_parse_reading(reading);
        prev.insert(spec_custom_insert_pos(prev, units.len(), 0), (units, rs, fs))
    }
}

/// Entries are sorted longest first.
pub open spec fn spec_custom_sorted(v: Seq<SpecCustomEntry>) -> bool {
    forall|a: int, b: int| 0 <= a < b < v.len() ==> (#[trigger] v[a]).0.len() >= (
    #[trigger] v[b]).0.len()
}

pub open spec fn spec_pairs_view(entries: Seq<(String, String)>) -> Seq<(Seq<char>, Seq<char>)> {
    entries.map_values(|p: (String, String)| (p.0@, p.1@))
}

proof fn lemma_custom_insert_pos(v: Seq<SpecCustomEntry>, l: nat, k: int)
    requires
        0 <= k <= v.len(),
        spec_custom_sorted(v),
        forall|a: int| 0 <= a < k ==> (#[trigger] v[a]).0.len() >= l,
    ensures
        k <= spec_custom_insert_pos(v, l, k) <= v.len(),
        forall|a: int| 0 <= a < spec_custom_insert_pos(v, l, k) ==> (#[trigger] v[a]).0.len() >= l,
        forall|a: int| spec_custom_insert_pos(v, l, k) <= a < v.len() ==> (#[trigger] v[a]).0.len() < l,
    decreases v.len() - k,
{
    if k < v.len() && v[k].0.len() >= l {
        lemma_custom_insert_pos(v, l, k + 1);
    }
}

fn surface_units(surface: &str) -> (r: Vec<NameUnit>)
    ensures
        r@ == spec_surface_units(surface@),
{
    let seq = to_source_seq(surface);
    let mut r: Vec<NameUnit> = Vec::new();
    let mut k: usize = 0;
    while k < seq.len()
        invariant
            seq@ == spec_source_seq(surface@),
            k <= seq@.len(),
            r@ == seq@.take(k as int).map_values(|e: SourceEntry| spec_unit_of(e)),
        decreases seq@.len() - k,
    {
        let e = seq[k];
        r.push(NameUnit { cp: e.cp, cp2: e.cp2, cp3: e.cp3 });
        proof {
            assert(r@ =~= seq@.take(k + 1).map_values(|e: SourceEntry| spec_unit_of(e)));
        }
        k = k + 1;
    }
    proof {
        assert(seq@.take(seq@.len() as int) =~= seq@);
    }
    r
}

/// Builds the index of the entries `entries` (surface, reading): an error
/// when any of them is malformed (see the module documentation).
pub fn build_custom_dict_index(entries: &[(String, String)]) -> (r: Result<CustomDictIndex, Error>)
    ensures
        match r {
            Ok(index) => (forall|k: int|
                0 <= k < entries@.len() ==> spec_entry_ok(
                    (#[trigger] entries@[k]).0@,
                    entries@[k].1@,
                )) && index@ == spec_build_custom(spec_pairs_view(entries@)) && spec_custom_sorted(
                index@,
            ),
            Err(e) => (exists|k: int|
                0 <= k < entries@.len() && !spec_entry_ok(
                    (#[trigger] entries@[k]).0@,
                    entries@[k].1@,
                )) && e is InvalidCustomDict,
        },
{
    let mut index = CustomDictIndex { entries: Vec::new() };
    let mut i: usize = 0;
    while i < entries.len()
        invariant
            i <= entries@.len(),
            forall|k: int| 0 <= k < i ==> spec_entry_ok((#[trigger] entries@[k]).0@, entries@[k].1@),
            index@ == spec_build_custom(spec_pairs_view(entries@.take(i as int))),
            spec_custom_sorted(index@),
        decreases entries@.len() - i,
    {
        let surface = entries[i].0.as_str();
        let reading = entries[i].1.as_str();
        let parsed = parse_reading_blocks(reading);
        let (readings, forced) = match parsed {
            Ok(p) => p,
            Err(e) => {
                return Err(e);
            },
        };
        let units = surface_units(surface);
        if units.len() == 0 {
            return Err(invalid_custom_dict("empty surface"));
        }
        if units.len() != readings.len() {
            return Err(invalid_custom_dict("unit count differs from reading block count"));
        }
        let ghost pv = spec_pairs_view(entries@.take(i + 1));
        proof {
            assert(pv.drop_last() =~= spec_pairs_view(entries@.take(i as int)));
            assert(pv.last() == (entries@[i as int].0@, entries@[i as int].1@));
        }
        let ghost l = units@.len();
        let ghost old_v = index@;
        let mut pos: usize = 0;
        while pos < index.entries.len() && index.entries[pos].units.len() >= units.len()
            invariant
                pos <= index.entries@.len(),
                index@ == old_v,
                l == units@.len(),
                spec_custom_sorted(old_v),
                spec_custom_insert_pos(old_v, l, 0) == spec_custom_insert_pos(old_v, l, pos as int),
            decreases index.entries@.len() - pos,
        {
            proof {
                assert(old_v[pos as int] == spec_custom_view(index.entries@[pos as int]));
            }
            pos = pos + 1;
        }
        proof {
            if pos < index.entries@.len() {
                assert(old_v[pos as int] == spec_custom_view(index.entries@[pos as int]));
            }
            assert(spec_custom_insert_pos(old_v, l, pos as int) == pos);
            lemma_custom_insert_pos(old_v, l, 0);
        }
        let entry = CustomDictEntry { units, readings, forced_split_after: forced };
        let ghost ev = spec_custom_view(entry);
        index.entries.insert(pos, entry);
        proof {
            assert(index@ =~= old_v.insert(pos as int, ev));
            let v = index@;
            assert forall|a: int, b: int| 0 <= a < b < v.len() implies (#[trigger] v[a]).0.len() >= (
            #[trigger] v[b]).0.len() by {
                if a > pos {
                    assert(v[a] == old_v[a - 1]);
                }
                if b > pos {
                    assert(v[b] == old_v[b - 1]);
                }
            }
        }
        i = i + 1;
    }
    proof {
        assert(entries@.take(entries@.len() as int) =~= entries@);
    }
    Ok(index)
}

/// The first entry of `v` at or after position `k` that matches at `i`.
pub open spec fn spec_custom_first_match(v: Seq<SpecCustomEntry>, seq: Seq<SourceEntry>, i: int, k: int) -> Option<int>
    decreases v.len() - k,
{
    if k < 0 || k >= v.len() {
        None
    } else if spec_name_matches(v[k].0, seq, i) {
        Some(k)
    } else {
        spec_custom_first_match(v, seq, i, k + 1)
    }
}

impl CustomDictIndex {
    /// Number of entries.
    pub fn len(&self) -> (n: usize)
        ensures
            n == self@.len(),
    {
        self.entries.len()
    }
}

/// The entry that matches at unit `i` of `seq`: the longest one, the first
/// listed among equally long ones.
pub fn match_at<'a>(seq: &[SourceEntry], index: &'a CustomDictIndex, i: usize) -> (r: Option<&'a CustomDictEntry>)
    requires
        i < seq@.len(),
    ensures
        match r {
            Some(e) => spec_custom_first_match(index@, seq@, i as int, 0) matches Some(k)
                && spec_custom_view(*e) == index@[k],
            None => spec_custom_first_match(index@, seq@, i as int, 0) is None,
        },
{
    let n = seq.len();
    let mut k: usize = 0;
    while k < index.entries.len()
        invariant
            n == seq@.len(),
            i < n,
            k <= index.entries@.len(),
            index@.len() == index.entries@.len(),
            spec_custom_first_match(index@, seq@, i as int, 0) == spec_custom_first_match(
                index@,
                seq@,
                i as int,
                k as int,
            ),
        decreases index.entries@.len() - k,
    {
        let entry = &index.entries[k];
        proof {
            assert(index@[k as int] == spec_custom_view(*entry));
        }
        let len = entry.units.len();
        let mut ok = len <= n - i;
        let mut j: usize = 0;
        while ok && j < len
            invariant
                len == entry.units@.len(),
                n == seq@.len(),
                ok ==> i + len <= n,
                j <= len,
                ok ==> forall|t: int| 0 <= t < j ==> #[trigger] entry.units@[t] == spec_unit_of(seq@[i + t]),
                !ok ==> !spec_name_matches(entry.units@, seq@, i as int),
            decreases len - j + if ok { 1int } else { 0int },
        {
            let u = entry.units[j];
            let e = seq[i + j];
            if !(u.cp == e.cp && u.cp2 == e.cp2 && u.cp3 == e.cp3) {
                ok = false;
            } else {
                j = j + 1;
            }
        }
        if ok {
            return Some(entry);
        }
        k = k + 1;
    }
    None
}

// ------------------------------------------------------------
// The dictionary file
// ------------------------------------------------------------

/// `l` without one trailing carriage return.
pub open spec fn spec_strip_cr(l: Seq<char>) -> Seq<char> {
    if l.len() > 0 && l.last() == '\r' {
        l.drop_last()
    } else {
        l
    }
}

/// The lines of `s` (as `str::lines` gives them): cut at `\n`, no empty
/// last line after a final `\n`, one trailing `\r` taken off each.
pub open spec fn spec_lines(s: Seq<char>) -> Seq<Seq<char>> {
    let p = spec_split_on(s, '\n');
    let q = if p.last().len() == 0 { p.drop_last() } else { p };
    q.map_values(|l: Seq<char>| spec_strip_cr(l))
}

/// A blank line or a comment.
pub open spec fn spec_is_comment(l: Seq<char>) -> bool {
    l.len() == 0 || l[0] == '#'
}

/// The index of the first tab of `l`, if any.
pub open spec fn spec_first_tab(l: Seq<char>, k: int) -> Option<int>
    decreases l.len() - k,
{
    if k < 0 || k >= l.len() {
        None
    } else if l[k] == '\t' {
        Some(k)
    } else {
        spec_first_tab(l, k + 1)
    }
}

/// The entries of the lines `ls`, or `None` when a line that is no comment
/// has no tab.
pub open spec fn spec_tsv_entries(ls: Seq<Seq<char>>) -> Option<Seq<(Seq<char>, Seq<char>)>>
    decreases ls.len(),
{
    if ls.len() == 0 {
        Some(Seq::empty())
    } else {
        match spec_tsv_entries(ls.drop_last()) {
            None => None,
            Some(prev) => {
                let l = ls.last();
                if spec_is_comment(l) {
                    Some(prev)
                } else {
                    match spec_first_tab(l, 0) {
                        None => None,
                        Some(t) => Some(prev.push((l.take(t), l.skip(t + 1)))),
                    }
                }
            },
        }
    }
}

proof fn lemma_tsv_none_stays(ls: Seq<Seq<char>>, j: int)
    requires
        0 <= j <= ls.len(),
        spec_tsv_entries(ls.take(j)) is None,
    ensures
        spec_tsv_entries(ls) is None,
    decreases ls.len() - j,
{
    if j < ls.len() {
        assert(ls.take(j + 1).drop_last() =~= ls.take(j));
        lemma_tsv_none_stays(ls, j + 1);
    } else {
        assert(ls.take(j) =~= ls);
    }
}

pub(crate) fn strip_cr(l: &String) -> (r: Vec<char>)
    ensures
        r@ == spec_strip_cr(l@),
{
    let mut cs = chars_of(l.as_str());
    let n = cs.len();
    if n > 0 && cs[n - 1] == '\r' {
        cs.pop();
    }
    cs
}

fn first_tab(l: &Vec<char>) -> (r: Option<usize>)
    ensures
        match r {
            Some(t) => spec_first_tab(l@, 0) == Some(t as int) && t < l@.len(),
            None => spec_first_tab(l@, 0) is None,
        },
{
    let mut k: usize = 0;
    while k < l.len()
        invariant
            k <= l@.len(),
            spec_first_tab(l@, 0) == spec_first_tab(l@, k as int),
        decreases l@.len() - k,
    {
        if l[k] == '\t' {
            return Some(k);
        }
        k = k + 1;
    }
    None
}

fn string_of(cs: &Vec<char>, from: usize, to: usize) -> (r: String)
    requires
        from <= to <= cs@.len(),
    ensures
        r@ == cs@.subrange(from as int, to as int),
{
    let mut out = String::new();
    let mut k = from;
    while k < to
        invariant
            from <= k <= to <= cs@.len(),
            out@ == cs@.subrange(from as int, k as int),
        decreases to - k,
    {
        push_char(&mut out, cs[k]);
        proof {
            assert(out@ =~= cs@.subrange(from as int, k + 1));
        }
        k = k + 1;
    }
    out
}

/// Reads the entries (surface, reading) of a dictionary file's content
/// (see the module documentation); an error when a line that is no comment
/// has no tab.
pub fn parse_custom_dict(content: &str) -> (r: Result<Vec<(String, String)>, Error>)
    ensures
        match r {
            Ok(es) => spec_tsv_entries(spec_lines(content@)) == Some(spec_pairs_view(es@)),
            Err(e) => spec_tsv_entries(spec_lines(content@)) is None && e is InvalidCustomDict,
        },
{
    let parts = split_on(content, '\n');
    let ghost p = spec_split_on(content@, '\n');
    proof {
        lemma_split_nonempty(content@, '\n');
    }
    let np = parts.len();
    let nl = if parts[np - 1].as_str().is_empty() {
        np - 1
    } else {
        np
    };
    let ghost ls = spec_lines(content@);
    proof {
        assert(parts@[np - 1]@ == p.last());
        assert(ls.len() == nl);
    }
    let mut out: Vec<(String, String)> = Vec::new();
    let mut i: usize = 0;
    while i < nl
        invariant
            nl <= np == parts@.len(),
            p == parts@.map_values(|s: String| s@),
            ls == spec_lines(content@),
            ls.len() == nl,
            forall|k: int| 0 <= k < nl ==> #[trigger] ls[k] == spec_strip_cr(p[k]),
            i <= nl,
            spec_tsv_entries(ls.take(i as int)) == Some(spec_pairs_view(out@)),
        decreases nl - i,
    {
        let l = strip_cr(&parts[i]);
        proof {
            assert(ls.take(i + 1).drop_last() =~= ls.take(i as int));
            assert(ls.take(i + 1).last() == l@);
        }
        if l.len() == 0 || l[0] == '#' {
        } else {
            match first_tab(&l) {
                None => {
                    proof {
                        assert(spec_tsv_entries(ls.take(i + 1)) is None);
                        lemma_tsv_none_stays(ls, i + 1);
                    }
                    return Err(invalid_custom_dict("line without a tab"));
                },
                Some(t) => {
                    let surface = string_of(&l, 0, t);
                    let reading = string_of(&l, t + 1, l.len());
                    let ghost ov = spec_pairs_view(out@);
                    out.push((surface, reading));
                    proof {
                        assert(l@.take(t as int) =~= l@.subrange(0, t as int));
                        assert(l@.skip(t + 1) =~= l@.subrange(t + 1, l@.len() as int));
                        assert(spec_pairs_view(out@) =~= ov.push((l@.take(t as int), l@.skip(t + 1))));
                    }
                },
            }
        }
        i = i + 1;
    }
    proof {
        assert(ls.take(nl as int) =~= ls);
    }
    Ok(out)
}
} // verus!
