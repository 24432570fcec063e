//! The name dictionary: matching person names in the source units.
//!
//! Names are cut into units the way the input is ([`to_source_seq`]), and
//! matched unit for unit (all three code points equal; the class is not
//! compared). The text is scanned from left to right; where names match, the
//! longest wins (among equally long ones, the one listed first), its units
//! are flagged B, I, I, ... and the scan goes on after it. Units outside every
//! match are flagged O. Where the matched name has readings, each unit gets
//! its reading.

use vstd::prelude::*;

use crate::featurize::{spec_source_seq, to_source_seq, SourceEntry};

verus! {

/// Flag of a unit outside every name.
pub const NAME_FLAG_OUT: u8 = 0;
/// Flag of the first unit of a name.
pub const NAME_FLAG_BEGIN: u8 = 1;
/// Flag of a later unit of a name.
pub const NAME_FLAG_INSIDE: u8 = 2;

/// One unit of a name: the code points of a source unit.
#[derive(Debug, Clone, Copy, PartialEq, Eq, Structural)]
pub struct NameUnit {
    pub cp: u32,
    pub cp2: u32,
    pub cp3: u32,
}

/// One name of the dictionary.
#[derive(Debug, Clone)]
pub struct NameDictEntry {
    /// Its units.
    pub units: Vec<NameUnit>,
    /// One reading (katakana) per unit, or `None` when the name only gives
    /// flags.
    pub readings: Option<Vec<String>>,
}

/// A name as the contracts see it: its units and its readings.
pub type SpecName = (Seq<NameUnit>, Option<Seq<Seq<char>>>);

/// The names of the dictionary, longest first; names of equal length keep
/// the order in which they were given.
pub struct NameIndex {
    entries: Vec<NameDictEntry>,
}

pub open spec fn spec_readings_view(r: Option<Vec<String>>) -> Option<Seq<Seq<char>>> {
    match r {
        Some(v) => Some(v@.map_values(|s: String| s@)),
        None => None,
    }
}

pub open spec fn spec_entry_view(e: NameDictEntry) -> SpecName {
    (e.units@, spec_readings_view(e.readings))
}

impl View for NameIndex {
    type V = Seq<SpecName>;

    closed spec fn view(&self) -> Seq<SpecName> {
        self.entries@.map_values(|e: NameDictEntry| spec_entry_view(e))
    }
}

/// The unit of a name that matches the source unit `e`.
pub open spec fn spec_unit_of(e: SourceEntry) -> NameUnit {
    NameUnit { cp: e.cp, cp2: e.cp2, cp3: e.cp3 }
}

/// Names are well formed: no name is empty, readings go one per unit, and
/// the names are sorted longest first.
pub open spec fn spec_index_wf(v: Seq<SpecName>) -> bool {
    &&& forall|k: int| 0 <= k < v.len() ==> (#[trigger] v[k]).0.len() > 0
    &&& forall|k: int|
        0 <= k < v.len() ==> ((#[trigger] v[k]).1 matches Some(r) ==> r.len() == v[k].0.len())
    &&& forall|a: int, b: int| 0 <= a < b < v.len() ==> (#[trigger] v[a]).0.len() >= (
    #[trigger] v[b]).0.len()
}

/// The name `units` matches the source units from `i` on.
pub open spec fn spec_name_matches(units: Seq<NameUnit>, seq: Seq<SourceEntry>, i: int) -> bool {
    &&& 0 <= i
    &&& i + units.len() <= seq.len()
    &&& forall|j: int| 0 <= j < units.len() ==> #[trigger] units[j] == spec_unit_of(seq[i + j])
}

/// The first name at or after position `k` of the list that matches at `i`.
pub open spec fn spec_first_match(v: Seq<SpecName>, seq: Seq<SourceEntry>, i: int, k: int) -> Option<
    int,
>
    decreases v.len() - k,
{
    if k < 0 || k >= v.len() {
        None
    } else if spec_name_matches(v[k].0, seq, i) {
        Some(k)
    } else {
        spec_first_match(v, seq, i, k + 1)
    }
}

/// Number of units of the name that wins at `i`, 0 when none matches.
pub open spec fn spec_match_len(v: Seq<SpecName>, seq: Seq<SourceEntry>, i: int) -> nat {
    match spec_first_match(v, seq, i, 0) {
        Some(k) => v[k].0.len(),
        None => 0,
    }
}

/// The readings of the name that wins at `i`, if it has them.
pub open spec fn spec_match_readings(v: Seq<SpecName>, seq: Seq<SourceEntry>, i: int) -> Option<
    Seq<Seq<char>>,
> {
    match spec_first_match(v, seq, i, 0) {
        Some(k) => v[k].1,
        None => None,
    }
}

/// The flags of the units from `i` on, scanning from `i`.
pub open spec fn spec_name_flags(v: Seq<SpecName>, seq: Seq<SourceEntry>, i: int) -> Seq<u8>
    decreases seq.len() - i,
{
    if i < 0 || i >= seq.len() {
        Seq::empty()
    } else {
        let m = spec_match_len(v, seq, i);
        if m > 0 && i + m <= seq.len() {
            seq![NAME_FLAG_BEGIN] + Seq::new((m - 1) as nat, |j: int| NAME_FLAG_INSIDE)
                + spec_name_flags(v, seq, i + m)
        } else {
            seq![NAME_FLAG_OUT] + spec_name_flags(v, seq, i + 1)
        }
    }
}

/// The readings of the units from `i` on, scanning from `i`.
pub open spec fn spec_name_readings(v: Seq<SpecName>, seq: Seq<SourceEntry>, i: int) -> Seq<
    Option<Seq<char>>,
>
    decreases seq.len() - i,
{
    if i < 0 || i >= seq.len() {
        Seq::empty()
    } else {
        let m = spec_match_len(v, seq, i);
        if m > 0 && i + m <= seq.len() {
            match spec_match_readings(v, seq, i) {
                Some(r) => Seq::new(m, |j: int| Some(r[j])) + spec_name_readings(v, seq, i + m),
                None => Seq::new(m, |j: int| None::<Seq<char>>) + spec_name_readings(
                    v,
                    seq,
                    i + m,
                ),
            }
        } else {
            seq![None::<Seq<char>>] + spec_name_readings(v, seq, i + 1)
        }
    }
}

/// Where name `v[k]` matches at `i`, the winning name there is at least as
/// long: the longest match wins.
pub proof fn lemma_longest_match_wins(v: Seq<SpecName>, seq: Seq<SourceEntry>, i: int, k: int)
    requires
        spec_index_wf(v),
        0 <= k < v.len(),
        spec_name_matches(v[k].0, seq, i),
    ensures
        spec_match_len(v, seq, i) >= v[k].0.len(),
{
    lemma_first_match_before(v, seq, i, 0, k);
}

proof fn lemma_first_match_before(v: Seq<SpecName>, seq: Seq<SourceEntry>, i: int, from: int, k: int)
    requires
        0 <= from <= k < v.len(),
        spec_name_matches(v[k].0, seq, i),
    ensures
        spec_first_match(v, seq, i, from) matches Some(f) && from <= f <= k,
    decreases k - from,
{
    if !spec_name_matches(v[from].0, seq, i) {
        lemma_first_match_before(v, seq, i, from + 1, k);
    }
}

proof fn lemma_first_match_is_match(v: Seq<SpecName>, seq: Seq<SourceEntry>, i: int, from: int)
    ensures
        spec_first_match(v, seq, i, from) matches Some(f) ==> 0 <= f < v.len()
            && spec_name_matches(v[f].0, seq, i),
    decreases v.len() - from,
{
    if 0 <= from < v.len() && !spec_name_matches(v[from].0, seq, i) {
        lemma_first_match_is_match(v, seq, i, from + 1);
    }
}

/// The names `names` as the contracts see them.
pub open spec fn spec_names_view(names: Seq<(String, Option<Vec<String>>)>) -> Seq<
    (Seq<char>, Option<Seq<Seq<char>>>),
> {
    names.map_values(|p: (String, Option<Vec<String>>)| (p.0@, spec_readings_view(p.1)))
}

/// Where a name of `l` units goes in the list `v`: after every name at
/// least as long.
pub open spec fn spec_insert_pos(v: Seq<SpecName>, l: nat, k: int) -> int
    decreases v.len() - k,
{
    if k < 0 || k >= v.len() {
        v.len() as int
    } else if v[k].0.len() < l {
        k
    } else {
        spec_insert_pos(v, l, k + 1)
    }
}

/// The index built from the names `names` (surface, readings).
pub open spec fn spec_build(names: Seq<(Seq<char>, Option<Seq<Seq<char>>>)>) -> Seq<SpecName>
    decreases names.len(),
{
    if names.len() == 0 {
        Seq::empty()
    } else {
        let prev = spec_build(names.drop_last());
        let units = spec_source_seq(names.last().0).map_values(|e: SourceEntry| spec_unit_of(e));
        let readings = match names.last().1 {
            Some(r) => if r.len() == units.len() {
                Some(r)
            } else {
                None
            },
            None => None,
        };
        if units.len() == 0 {
            prev
        } else {
            prev.insert(spec_insert_pos(prev, units.len(), 0), (units, readings))
        }
    }
}

proof fn lemma_insert_pos(v: Seq<SpecName>, l: nat, k: int)
    requires
        0 <= k <= v.len(),
        forall|a: int, b: int| 0 <= a < b < v.len() ==> (#[trigger] v[a]).0.len() >= (
        #[trigger] v[b]).0.len(),
        forall|a: int| 0 <= a < k ==> (#[trigger] v[a]).0.len() >= l,
    ensures
        k <= spec_insert_pos(v, l, k) <= v.len(),
        forall|a: int| 0 <= a < spec_insert_pos(v, l, k) ==> (#[trigger] v[a]).0.len() >= l,
        forall|a: int| spec_insert_pos(v, l, k) <= a < v.len() ==> (#[trigger] v[a]).0.len() < l,
    decreases v.len() - k,
{
    if k < v.len() && v[k].0.len() >= l {
        lemma_insert_pos(v, l, k + 1);
    }
}

impl NameIndex {
    /// The index of no name.
    pub fn new() -> (r: NameIndex)
        ensures
            r@ == Seq::<SpecName>::empty(),
    {
        NameIndex { entries: Vec::new() }
    }

    /// Number of names.
    pub fn len(&self) -> (n: usize)
        ensures
            n == self@.len(),
    {
        self.entries.len()
    }

    /// Whether the index holds no name.
    pub fn is_empty(&self) -> (b: bool)
        ensures
            b == (self@.len() == 0),
    {
        self.entries.len() == 0
    }
}

fn units_of(seq: &Vec<SourceEntry>) -> (r: Vec<NameUnit>)
    ensures
        r@ == seq@.map_values(|e: SourceEntry| spec_unit_of(e)),
{
    let mut r: Vec<NameUnit> = Vec::new();
    let mut k: usize = 0;
    while k < seq.len()
        invariant
            k <= seq@.len(),
            r@ == seq@.take(k as int).map_values(|e: SourceEntry| spec_unit_of(e)),
        decreases seq@.len() - k,
    {
        let e = seq[k];
        r.push(NameUnit { cp: e.cp, cp2: e.cp2, cp3: e.cp3 });
        proof {
            assert(r@ =~= seq@.take(k + 1).map_values(|e: SourceEntry| spec_unit_of(e)));
        }
        k = k + 1;
    }
    proof {
        assert(seq@.take(seq@.len() as int) =~= seq@);
    }
    r
}

fn clone_strings(v: &Vec<String>) -> (r: Vec<String>)
    ensures
        r@.map_values(|s: String| s@) == v@.map_values(|s: String| s@),
{
    let mut r: Vec<String> = Vec::new();
    let mut k: usize = 0;
    while k < v.len()
        invariant
            k <= v@.len(),
            r@.len() == k,
            forall|j: int| 0 <= j < k ==> (#[trigger] r@[j])@ == v@[j]@,
        decreases v@.len() - k,
    {
        r.push(v[k].clone());
        k = k + 1;
    }
    proof {
        assert(r@.map_values(|s: String| s@) =~= v@.map_values(|s: String| s@));
    }
    r
}

/// Builds the index of the names `names` (surface, per-unit readings). A
/// name that gives no unit is left out; readings whose count differs from
/// the name's unit count are dropped (the name still flags).
pub fn build_name_index(names: &[(String, Option<Vec<String>>)]) -> (r: NameIndex)
    ensures
        r@ == spec_build(spec_names_view(names@)),
        spec_index_wf(r@),
{
    let mut index = NameIndex::new();
    let mut i: usize = 0;
    while i < names.len()
        invariant
            i <= names@.len(),
            index@ == spec_build(spec_names_view(names@.take(i as int))),
            spec_index_wf(index@),
        decreases names@.len() - i,
    {
        let ghost nv = spec_names_view(names@.take(i + 1));
        proof {
            assert(nv.drop_last() =~= spec_names_view(names@.take(i as int)));
            assert(nv.last() == (names@[i as int].0@, spec_readings_view(names@[i as int].1)));
        }
        let seq = to_source_seq(names[i].0.as_str());
        let units = units_of(&seq);
        if units.len() > 0 {
            let readings: Option<Vec<String>> = match &names[i].1 {
                Some(r) => if r.len() == units.len() {
                    Some(clone_strings(r))
                } else {
                    None
                },
                None => None,
            };
            let ghost l = units@.len();
            let ghost old_v = index@;
            let mut pos: usize = 0;
            while pos < index.entries.len() && index.entries[pos].units.len() >= units.len()
                invariant
                    pos <= index.entries@.len(),
                    index@ == old_v,
                    l == units@.len(),
                    spec_index_wf(old_v),
                    spec_insert_pos(old_v, l, 0) == spec_insert_pos(old_v, l, pos as int),
                decreases index.entries@.len() - pos,
            {
                proof {
                    assert(old_v[pos as int] == spec_entry_view(index.entries@[pos as int]));
                }
                pos = pos + 1;
            }
            proof {
                if pos < index.entries@.len() {
                    assert(old_v[pos as int] == spec_entry_view(index.entries@[pos as int]));
                }
                assert(spec_insert_pos(old_v, l, pos as int) == pos);
                lemma_insert_pos(old_v, l, 0);
            }
            let ghost new_entry = (units@, spec_readings_view(readings));
            index.entries.insert(pos, NameDictEntry { units, readings });
            proof {
                assert(index@ =~= old_v.insert(pos as int, new_entry));
                let v = index@;
                assert forall|a: int, b: int| 0 <= a < b < v.len() implies (#[trigger] v[a]).0.len()
                    >= (#[trigger] v[b]).0.len() by {
                    if a < pos && b == pos {
                    } else if a == pos && b > pos {
                        assert(v[b] == old_v[b - 1]);
                    } else if a < pos && b > pos {
                        assert(v[b] == old_v[b - 1]);
                    } else if a > pos {
                        assert(v[a] == old_v[a - 1]);
                        assert(v[b] == old_v[b - 1]);
                    }
                }
                assert forall|k: int| 0 <= k < v.len() implies (#[trigger] v[k]).0.len() > 0 by {
                    if k > pos {
                        assert(v[k] == old_v[k - 1]);
                    }
                }
                assert forall|k: int| 0 <= k < v.len() implies ((#[trigger] v[k]).1 matches Some(r)
                    ==> r.len() == v[k].0.len()) by {
                    if k > pos {
                        assert(v[k] == old_v[k - 1]);
                    }
                }
            }
        }
        i = i + 1;
    }
    proof {
        assert(names@.take(names@.len() as int) =~= names@);
    }
    index
}

/// Whether name `entry` matches the source units from `i` on.
fn name_matches_at(entry: &NameDictEntry, seq: &[SourceEntry], i: usize) -> (b: bool)
    requires
        i <= seq@.len(),
    ensures
        b == spec_name_matches(entry.units@, seq@, i as int),
{
    let len = entry.units.len();
    let n = seq.len();
    if len > n - i {
        return false;
    }
    let mut j: usize = 0;
    while j < len
        invariant
            len == entry.units@.len(),
            n == seq@.len(),
            i + len <= n,
            j <= len,
            forall|t: int| 0 <= t < j ==> #[trigger] entry.units@[t] == spec_unit_of(seq@[i + t]),
        decreases len - j,
    {
        let u = entry.units[j];
        let e = seq[i + j];
        if !(u.cp == e.cp && u.cp2 == e.cp2 && u.cp3 == e.cp3) {
            return false;
        }
        j = j + 1;
    }
    true
}

/// Index in `index` of the name that wins at `i`.
fn first_match(index: &NameIndex, seq: &[SourceEntry], i: usize) -> (r: Option<usize>)
    requires
        i < seq@.len(),
    ensures
        match r {
            Some(k) => spec_first_match(index@, seq@, i as int, 0) == Some(k as int),
            None => spec_first_match(index@, seq@, i as int, 0) is None,
        },
{
    let mut k: usize = 0;
    while k < index.entries.len()
        invariant
            i < seq@.len(),
            k <= index.entries@.len(),
            index@.len() == index.entries@.len(),
            spec_first_match(index@, seq@, i as int, 0) == spec_first_match(
                index@,
                seq@,
                i as int,
                k as int,
            ),
        decreases index.entries@.len() - k,
    {
        proof {
            assert(index@[k as int] == spec_entry_view(index.entries@[k as int]));
        }
        if name_matches_at(&index.entries[k], seq, i) {
            return Some(k);
        }
        k = k + 1;
    }
    None
}

/// Matches the names of `index` in `seq` (see the module documentation):
/// the flag of every unit, and its reading where the matched name has one.
pub fn compute_name_matches(seq: &[SourceEntry], index: &NameIndex) -> (r: (
    Vec<u8>,
    Vec<Option<String>>,
))
    requires
        spec_index_wf(index@),
    ensures
        r.0@ == spec_name_flags(index@, seq@, 0),
        r.1@.map_values(|o: Option<String>| spec_opt_view(o)) == spec_name_readings(
            index@,
            seq@,
            0,
        ),
{
    let n = seq.len();
    let mut flags: Vec<u8> = Vec::new();
    let mut readings: Vec<Option<String>> = Vec::new();
    let mut i: usize = 0;
    while i < n
        invariant
            n == seq@.len(),
            i <= n,
            spec_index_wf(index@),
            flags@ + spec_name_flags(index@, seq@, i as int) == spec_name_flags(index@, seq@, 0),
            readings@.map_values(|o: Option<String>| spec_opt_view(o)) + spec_name_readings(
                index@,
                seq@,
                i as int,
            ) == spec_name_readings(index@, seq@, 0),
        decreases n - i,
    {
        let ghost v = index@;
        let ghost fl0 = flags@;
        let ghost rd0 = readings@.map_values(|o: Option<String>| spec_opt_view(o));
        match first_match(index, seq, i) {
            Some(k) => {
                proof {
                    lemma_first_match_is_match(v, seq@, i as int, 0);
                    assert(v[k as int] == spec_entry_view(index.entries@[k as int]));
                }
                let entry = &index.entries[k];
                let m = entry.units.len();
                emit_match(&mut flags, &mut readings, entry);
                proof {
                    assert(spec_match_readings(v, seq@, i as int) == spec_readings_view(
                        entry.readings,
                    ));
                }
                proof {
                    let tail_f = spec_name_flags(v, seq@, i + m);
                    assert(spec_name_flags(v, seq@, i as int) == seq![NAME_FLAG_BEGIN] + Seq::new(
                        (m - 1) as nat,
                        |t: int| NAME_FLAG_INSIDE,
                    ) + tail_f);
                    assert(flags@ + tail_f =~= fl0 + spec_name_flags(v, seq@, i as int));
                    let tail_r = spec_name_readings(v, seq@, i + m);
                    let now = readings@.map_values(|o: Option<String>| spec_opt_view(o));
                    assert(now + tail_r =~= rd0 + spec_name_readings(v, seq@, i as int));
                }
                i = i + m;
            },
            None => {
                flags.push(NAME_FLAG_OUT);
                push_reading(&mut readings, None);
                proof {
                    assert(spec_match_len(v, seq@, i as int) == 0);
                    let now = readings@.map_values(|o: Option<String>| spec_opt_view(o));
                    assert(now =~= rd0.push(None));
                    assert(flags@ + spec_name_flags(v, seq@, i + 1) =~= fl0 + spec_name_flags(
                        v,
                        seq@,
                        i as int,
                    ));
                    assert(now + spec_name_readings(v, seq@, i + 1) =~= rd0 + spec_name_readings(
                        v,
                        seq@,
                        i as int,
                    ));
                }
                i = i + 1;
            },
        }
    }
    proof {
        assert(flags@ + spec_name_flags(index@, seq@, n as int) =~= flags@);
        let now = readings@.map_values(|o: Option<String>| spec_opt_view(o));
        assert(now + spec_name_readings(index@, seq@, n as int) =~= now);
    }
    (flags, readings)
}

fn push_reading(readings: &mut Vec<Option<String>>, x: Option<String>)
    ensures
        final(readings)@.map_values(|o: Option<String>| spec_opt_view(o)) == old(
            readings,
        )@.map_values(|o: Option<String>| spec_opt_view(o)).push(spec_opt_view(x)),
{
    let ghost old_v = readings@;
    readings.push(x);
    proof {
        assert(readings@.map_values(|o: Option<String>| spec_opt_view(o)) =~= old_v.map_values(
            |o: Option<String>| spec_opt_view(o),
        ).push(spec_opt_view(x)));
    }
}

/// The readings written for a matched name of `m` units.
pub open spec fn spec_span_readings(r: Option<Seq<Seq<char>>>, m: nat) -> Seq<Option<Seq<char>>> {
    match r {
        Some(rs) => Seq::new(m, |j: int| Some(rs[j])),
        None => Seq::new(m, |j: int| None::<Seq<char>>),
    }
}

fn emit_match(flags: &mut Vec<u8>, readings: &mut Vec<Option<String>>, entry: &NameDictEntry)
    requires
        entry.units@.len() > 0,
        entry.readings matches Some(r) ==> r@.len() == entry.units@.len(),
    ensures
        final(flags)@ == old(flags)@ + seq![NAME_FLAG_BEGIN] + Seq::new(
            (entry.units@.len() - 1) as nat,
            |t: int| NAME_FLAG_INSIDE,
        ),
        final(readings)@.map_values(|o: Option<String>| spec_opt_view(o)) == old(
            readings,
        )@.map_values(|o: Option<String>| spec_opt_view(o)) + spec_span_readings(
            spec_readings_view(entry.readings),
            entry.units@.len(),
        ),
{
    let m = entry.units.len();
    let ghost fl0 = flags@;
    let ghost rd0 = readings@.map_values(|o: Option<String>| spec_opt_view(o));
    let ghost want = spec_span_readings(spec_readings_view(entry.readings), m as nat);
    flags.push(NAME_FLAG_BEGIN);
    let mut j: usize = 1;
    while j < m
        invariant
            1 <= j <= m,
            flags@ == fl0 + seq![NAME_FLAG_BEGIN] + Seq::new((j - 1) as nat, |t: int| NAME_FLAG_INSIDE),
        decreases m - j,
    {
        flags.push(NAME_FLAG_INSIDE);
        proof {
            assert(flags@ =~= fl0 + seq![NAME_FLAG_BEGIN] + Seq::new(j as nat, |t: int| NAME_FLAG_INSIDE));
        }
        j = j + 1;
    }
    let mut j: usize = 0;
    while j < m
        invariant
            j <= m,
            m == entry.units@.len(),
            want == spec_span_readings(spec_readings_view(entry.readings), m as nat),
            entry.readings matches Some(r) ==> r@.len() == m,
            readings@.map_values(|o: Option<String>| spec_opt_view(o)) == rd0 + want.take(j as int),
        decreases m - j,
    {
        let x = match &entry.readings {
            Some(rs) => Some(rs[j].clone()),
            None => None,
        };
        proof {
            assert(spec_opt_view(x) == want[j as int]);
        }
        push_reading(readings, x);
        proof {
            assert(want.take(j + 1) =~= want.take(j as int).push(want[j as int]));
            assert(rd0 + want.take(j + 1) =~= (rd0 + want.take(j as int)).push(want[j as int]));
        }
        j = j + 1;
    }
    proof {
        assert(want.take(m as int) =~= want);
    }
}

/// An optional string as the contracts see it.
pub open spec fn spec_opt_view(o: Option<String>) -> Option<Seq<char>> {
    match o {
        Some(s) => Some(s@),
        None => None,
    }
}

/// The flags alone of [`compute_name_matches`].
pub fn compute_name_flags(seq: &[SourceEntry], index: &NameIndex) -> (r: Vec<u8>)
    requires
        spec_index_wf(index@),
    ensures
        r@ == spec_name_flags(index@, seq@, 0),
{
    compute_name_matches(seq, index).0
}

} // verus!
