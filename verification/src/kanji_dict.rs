//! The single-character dictionary: for a kanji (or digit), the readings
//! the reading model may choose from.
//!
//! It comes with the model file, or from a TSV file (`kanji<TAB>reading<TAB>
//! reading...`, blank lines and `#` comments ignored). Either way it is kept
//! sorted by character, so that it can be searched.

use vstd::prelude::*;

use crate::custom_dict::{lemma_split_nonempty, spec_is_comment, spec_lines, spec_split_on, split_on, strip_cr};
use crate::prediction::string_of_chars;
use crate::text::chars_of;

verus! {

/// The view of a dictionary: characters with their readings.
pub open spec fn spec_cdict_view(v: Seq<(char, Vec<String>)>) -> Seq<(char, Seq<Seq<char>>)> {
    v.map_values(|e: (char, Vec<String>)| (e.0, e.1@.map_values(|s: String| s@)))
}

/// The view of a list of strings.
pub open spec fn spec_strings_view(v: Seq<String>) -> Seq<Seq<char>> {
    v.map_values(|s: String| s@)
}

/// Sorted by character.
pub open spec fn spec_sorted_by_char<A>(v: Seq<(char, A)>) -> bool {
    forall|i: int, j: int| 0 <= i < j < v.len() ==> (#[trigger] v[i]).0 <= (#[trigger] v[j]).0
}

/// Where an entry of character `c` goes in the sorted `p`: after every entry
/// whose character is not greater.
pub open spec fn spec_char_slot<A>(p: Seq<(char, A)>, c: char, k: int) -> int
    decreases p.len() - k,
{
    if k < 0 || k >= p.len() {
        p.len() as int
    } else if p[k].0 > c {
        k
    } else {
        spec_char_slot(p, c, k + 1)
    }
}

/// `v` sorted by character, entries of the same character in their order.
pub open spec fn spec_sort_by_char<A>(v: Seq<(char, A)>) -> Seq<(char, A)>
    decreases v.len(),
{
    if v.len() == 0 {
        Seq::empty()
    } else {
        let p = spec_sort_by_char(v.drop_last());
        p.insert(spec_char_slot(p, v.last().0, 0), v.last())
    }
}

proof fn lemma_slot_map(p: Seq<(char, Vec<String>)>, c: char, k: int)
    requires
        0 <= k <= p.len(),
    ensures
        spec_char_slot(spec_cdict_view(p), c, k) == spec_char_slot(p, c, k),
    decreases p.len() - k,
{
    if k < p.len() {
        lemma_slot_map(p, c, k + 1);
    }
}

proof fn lemma_char_slot<A>(p: Seq<(char, A)>, c: char, k: int)
    requires
        spec_sorted_by_char(p),
        0 <= k <= p.len(),
        forall|j: int| 0 <= j < k ==> (#[trigger] p[j]).0 <= c,
    ensures
        k <= spec_char_slot(p, c, k) <= p.len(),
        forall|j: int| 0 <= j < spec_char_slot(p, c, k) ==> (#[trigger] p[j]).0 <= c,
        forall|j: int| spec_char_slot(p, c, k) <= j < p.len() ==> (#[trigger] p[j]).0 > c,
    decreases p.len() - k,
{
    if k < p.len() {
        if p[k].0 > c {
            assert forall|j: int| k <= j < p.len() implies (#[trigger] p[j]).0 > c by {
                if j > k {
                    assert(p[k].0 <= p[j].0);
                }
            }
        } else {
            lemma_char_slot(p, c, k + 1);
        }
    }
}

/// Sorting by character gives a sorted sequence of the same entries.
pub proof fn lemma_sort_by_char<A>(v: Seq<(char, A)>)
    ensures
        spec_sorted_by_char(spec_sort_by_char(v)),
        spec_sort_by_char(v).len() == v.len(),
        forall|x: (char, A)| #[trigger] spec_sort_by_char(v).contains(x) <==> v.contains(x),
    decreases v.len(),
{
    if v.len() > 0 {
        let d = v.drop_last();
        lemma_sort_by_char(d);
        let p = spec_sort_by_char(d);
        let e = v.last();
        lemma_char_slot(p, e.0, 0);
        let k = spec_char_slot(p, e.0, 0);
        let r = p.insert(k, e);
        p.insert_ensures(k, e);
        assert forall|i: int, j: int| 0 <= i < j < r.len() implies (#[trigger] r[i]).0 <= (#[trigger] r[j]).0 by {
            if j < k {
                assert(r[i] == p[i] && r[j] == p[j]);
            } else if j == k {
                assert(r[i] == p[i]);
            } else if i < k {
                assert(r[i] == p[i] && r[j] == p[j - 1]);
            } else if i == k {
                assert(r[j] == p[j - 1]);
            } else {
                assert(r[i] == p[i - 1] && r[j] == p[j - 1]);
            }
        }
        assert forall|x: (char, A)| #[trigger] r.contains(x) <==> v.contains(x) by {
            if r.contains(x) {
                let m = choose|m: int| 0 <= m < r.len() && r[m] == x;
                if m < k {
                    assert(p[m] == x);
                    assert(p.contains(x));
                    let q = choose|q: int| 0 <= q < d.len() && d[q] == x;
                    assert(v[q] == x);
                } else if m > k {
                    assert(p[m - 1] == x);
                    assert(p.contains(x));
                    let q = choose|q: int| 0 <= q < d.len() && d[q] == x;
                    assert(v[q] == x);
                } else {
                    assert(v[v.len() - 1] == x);
                }
            }
            if v.contains(x) {
                let q = choose|q: int| 0 <= q < v.len() && v[q] == x;
                if q < d.len() {
                    assert(d[q] == x);
                    assert(d.contains(x));
                    assert(p.contains(x));
                    let m = choose|m: int| 0 <= m < p.len() && p[m] == x;
                    assert(r.len() == p.len() + 1);
                    if m < k {
                        assert(r[m] == p[m]);
                        assert(r[m] == x);
                    } else {
                        assert(r[m + 1] == p[m]);
                        assert(r[m + 1] == x);
                    }
                } else {
                    assert(r[k] == x);
                }
            }
        }
    }
}

/// Sorts a dictionary by character (entries of the same character keep
/// their order).
pub fn sort_by_char(v: Vec<(char, Vec<String>)>) -> (r: Vec<(char, Vec<String>)>)
    ensures
        spec_cdict_view(r@) == spec_sort_by_char(spec_cdict_view(v@)),
        spec_sorted_by_char(r@),
{
    let ghost all = spec_cdict_view(v@);
    let total = v.len();
    let mut rest = v;
    let mut sorted: Vec<(char, Vec<String>)> = Vec::new();
    let mut k: usize = 0;
    proof {
        assert(spec_cdict_view(sorted@) =~= Seq::<(char, Seq<Seq<char>>)>::empty());
        assert(all.take(0) =~= Seq::<(char, Seq<Seq<char>>)>::empty());
        assert(rest@.map_values(|e: (char, Vec<String>)| (e.0, e.1@.map_values(|s: String| s@))) =~= all.skip(0));
    }
    while rest.len() > 0
        invariant
            total == all.len(),
            k + rest@.len() == all.len(),
            spec_cdict_view(rest@) == all.skip(k as int),
            spec_cdict_view(sorted@) == spec_sort_by_char(all.take(k as int)),
            spec_sorted_by_char(sorted@),
        decreases rest@.len(),
    {
        let ghost rv = rest@;
        let a = rest.remove(0);
        let ghost av = (a.0, a.1@.map_values(|s: String| s@));
        proof {
            assert(spec_cdict_view(rv)[0] == av);
            assert(av == all[k as int]);
            assert(spec_cdict_view(rest@) =~= all.skip(k + 1)) by {
                assert(rest@ =~= rv.subrange(1, rv.len() as int));
                assert(spec_cdict_view(rest@) =~= spec_cdict_view(rv).skip(1));
                assert(all.skip(k as int).skip(1) =~= all.skip(k + 1));
            }
            assert(all.take(k + 1).drop_last() =~= all.take(k as int));
            assert(all.take(k + 1).last() == av);
        }
        let mut slot: usize = 0;
        while slot < sorted.len() && sorted[slot].0 <= a.0
            invariant
                slot <= sorted@.len(),
                spec_char_slot(sorted@, a.0, 0) == spec_char_slot(sorted@, a.0, slot as int),
                forall|i: int| 0 <= i < slot ==> (#[trigger] sorted@[i]).0 <= a.0,
            decreases sorted@.len() - slot,
        {
            slot = slot + 1;
        }
        proof {
            assert(spec_char_slot(sorted@, a.0, slot as int) == slot);
            lemma_slot_map(sorted@, a.0, 0);
            if slot < sorted@.len() {
                assert(sorted@[slot as int].0 > a.0);
            }
        }
        let ghost sv = sorted@;
        sorted.insert(slot, a);
        proof {
            assert(spec_cdict_view(sorted@) =~= spec_cdict_view(sv).insert(slot as int, av));
            assert forall|i: int, j: int| 0 <= i < j < sorted@.len() implies (#[trigger] sorted@[i]).0 <= (
            #[trigger] sorted@[j]).0 by {
                if j < slot {
                    assert(sorted@[i] == sv[i] && sorted@[j] == sv[j]);
                } else if j == slot {
                    assert(sorted@[i] == sv[i]);
                } else if i == slot {
                    assert(sorted@[j] == sv[j - 1]);
                    if slot < j - 1 {
                        assert(sv[slot as int].0 <= sv[j - 1].0);
                    }
                } else if i < slot {
                    assert(sorted@[i] == sv[i] && sorted@[j] == sv[j - 1]);
                } else {
                    assert(sorted@[i] == sv[i - 1] && sorted@[j] == sv[j - 1]);
                }
            }
        }
        k = k + 1;
    }
    proof {
        assert(all.take(all.len() as int) =~= all);
    }
    sorted
}

// ------------------------------------------------------------
// Searching
// ------------------------------------------------------------

/// The readings of `kanji` in the sorted dictionary `dict`, if it has them.
pub fn lookup_kanji_dict(dict: &[(char, Vec<String>)], kanji: char) -> (r: Option<&[String]>)
    requires
        spec_sorted_by_char(dict@),
    ensures
        match r {
            Some(rs) => exists|i: int| 0 <= i < dict@.len() && (#[trigger] dict@[i]).0 == kanji && rs@ == dict@[i].1@,
            None => forall|i: int| 0 <= i < dict@.len() ==> (#[trigger] dict@[i]).0 != kanji,
        },
{
    let mut lo: usize = 0;
    let mut hi: usize = dict.len();
    while lo < hi
        invariant
            lo <= hi <= dict@.len(),
            spec_sorted_by_char(dict@),
            forall|i: int| 0 <= i < lo ==> (#[trigger] dict@[i]).0 < kanji,
            forall|i: int| hi <= i < dict@.len() ==> (#[trigger] dict@[i]).0 > kanji,
        decreases hi - lo,
    {
        let mid = lo + (hi - lo) / 2;
        let c = dict[mid].0;
        if c == kanji {
            return Some(dict[mid].1.as_slice());
        } else if c < kanji {
            proof {
                assert forall|i: int| 0 <= i < mid + 1 implies (#[trigger] dict@[i]).0 < kanji by {
                    if i < mid {
                        assert(dict@[i].0 <= dict@[mid as int].0);
                    }
                }
            }
            lo = mid + 1;
        } else {
            proof {
                assert forall|i: int| mid <= i < dict@.len() implies (#[trigger] dict@[i]).0 > kanji by {
                    if i > mid {
                        assert(dict@[mid as int].0 <= dict@[i].0);
                    }
                }
            }
            hi = mid;
        }
    }
    None
}

// ------------------------------------------------------------
// The dictionary of a model file
// ------------------------------------------------------------

/// The entries a single-character table keeps: a surface of exactly one
/// character, with at least one reading.
pub open spec fn spec_single_entries(t: Seq<(Seq<char>, Seq<Seq<char>>)>) -> Seq<(char, Seq<Seq<char>>)>
    decreases t.len(),
{
    if t.len() == 0 {
        Seq::empty()
    } else {
        let p = spec_single_entries(t.drop_last());
        let (s, rs) = t.last();
        if s.len() == 1 && rs.len() > 0 {
            p.push((s[0], rs))
        } else {
            p
        }
    }
}

proof fn lemma_single_entries(t: Seq<(Seq<char>, Seq<Seq<char>>)>)
    ensures
        forall|c: char, rs: Seq<Seq<char>>|
            #[trigger] spec_single_entries(t).contains((c, rs)) <==> (rs.len() > 0 && exists|j: int|
                0 <= j < t.len() && t[j].0 == seq![c] && t[j].1 == rs),
    decreases t.len(),
{
    if t.len() > 0 {
        let d = t.drop_last();
        lemma_single_entries(d);
        let p = spec_single_entries(d);
        let (s, rs0) = t.last();
        assert forall|c: char, rs: Seq<Seq<char>>|
            #[trigger] spec_single_entries(t).contains((c, rs)) <==> (rs.len() > 0 && exists|j: int|
                0 <= j < t.len() && t[j].0 == seq![c] && t[j].1 == rs) by {
            let keep = s.len() == 1 && rs0.len() > 0;
            let r = spec_single_entries(t);
            if keep {
                assert(r == p.push((s[0], rs0)));
                assert(s =~= seq![s[0]]);
            } else {
                assert(r == p);
            }
            if r.contains((c, rs)) {
                let m = choose|m: int| 0 <= m < r.len() && r[m] == (c, rs);
                if m < p.len() {
                    assert(p[m] == (c, rs));
                    assert(p.contains((c, rs)));
                    let j = choose|j: int| 0 <= j < d.len() && d[j].0 == seq![c] && d[j].1 == rs;
                    assert(t[j] == d[j]);
                } else {
                    assert(t[t.len() - 1].0 == seq![c]);
                }
            }
            if rs.len() > 0 && exists|j: int| 0 <= j < t.len() && t[j].0 == seq![c] && t[j].1 == rs {
                let j = choose|j: int| 0 <= j < t.len() && t[j].0 == seq![c] && t[j].1 == rs;
                if j < d.len() {
                    assert(d[j] == t[j]);
                    assert(p.contains((c, rs)));
                    let m = choose|m: int| 0 <= m < p.len() && p[m] == (c, rs);
                    assert(r[m] == (c, rs));
                } else {
                    assert(s == seq![c]);
                    assert(s[0] == c);
                    assert(r[p.len() as int] == (c, rs));
                }
            }
        }
    }
}

/// The single-character dictionary of a table is sorted by character and
/// holds exactly the entries whose surface is one character and that have
/// at least one reading.
pub proof fn lemma_single_char_dict(t: Seq<(Seq<char>, Seq<Seq<char>>)>)
    ensures
        spec_sorted_by_char(spec_sort_by_char(spec_single_entries(t))),
        forall|c: char, rs: Seq<Seq<char>>|
            #[trigger] spec_sort_by_char(spec_single_entries(t)).contains((c, rs)) <==> (rs.len() > 0 && exists|j: int|
                0 <= j < t.len() && t[j].0 == seq![c] && t[j].1 == rs),
{
    lemma_sort_by_char(spec_single_entries(t));
    lemma_single_entries(t);
}

pub open spec fn spec_table_view(t: Seq<(String, Vec<String>)>) -> Seq<(Seq<char>, Seq<Seq<char>>)> {
    t.map_values(|e: (String, Vec<String>)| (e.0@, e.1@.map_values(|s: String| s@)))
}

/// The single-character dictionary of a model file's table: the entries it
/// keeps (see [`spec_single_entries`]), sorted by character.
pub fn single_char_dict(table: Vec<(String, Vec<String>)>) -> (r: Vec<(char, Vec<String>)>)
    ensures
        spec_cdict_view(r@) == spec_sort_by_char(spec_single_entries(spec_table_view(table@))),
        spec_sorted_by_char(r@),
{
    let ghost tv = spec_table_view(table@);
    let n = table.len();
    let mut rest = table;
    let mut kept: Vec<(char, Vec<String>)> = Vec::new();
    let mut k: usize = 0;
    proof {
        assert(spec_cdict_view(kept@) =~= spec_single_entries(tv.take(0)));
        assert(spec_table_view(rest@) =~= tv.skip(0));
    }
    while rest.len() > 0
        invariant
            n == tv.len(),
            k + rest@.len() == n,
            spec_table_view(rest@) == tv.skip(k as int),
            spec_cdict_view(kept@) == spec_single_entries(tv.take(k as int)),
        decreases rest@.len(),
    {
        let ghost rv = rest@;
        let (surface, readings) = rest.remove(0);
        proof {
            assert(spec_table_view(rv)[0] == tv[k as int]);
            assert(spec_table_view(rest@) =~= tv.skip(k + 1)) by {
                assert(rest@ =~= rv.subrange(1, rv.len() as int));
                assert(spec_table_view(rest@) =~= spec_table_view(rv).skip(1));
                assert(tv.skip(k as int).skip(1) =~= tv.skip(k + 1));
            }
            assert(tv.take(k + 1).drop_last() =~= tv.take(k as int));
            assert(tv.take(k + 1).last() == tv[k as int]);
            assert(tv[k as int] == (surface@, readings@.map_values(|s: String| s@)));
        }
        let cs = chars_of(surface.as_str());
        if cs.len() == 1 && readings.len() > 0 {
            let ghost kv = spec_cdict_view(kept@);
            let c = cs[0];
            kept.push((c, readings));
            proof {
                assert(spec_cdict_view(kept@) =~= kv.push((surface@[0], tv[k as int].1)));
            }
        }
        k = k + 1;
    }
    proof {
        assert(tv.take(n as int) =~= tv);
    }
    sort_by_char(kept)
}

// ------------------------------------------------------------
// The dictionary file
// ------------------------------------------------------------

/// The non-empty strings of `parts`, in order.
pub open spec fn spec_nonempty(parts: Seq<Seq<char>>) -> Seq<Seq<char>>
    decreases parts.len(),
{
    if parts.len() == 0 {
        Seq::empty()
    } else {
        let p = spec_nonempty(parts.drop_last());
        if parts.last().len() > 0 {
            p.push(parts.last())
        } else {
            p
        }
    }
}

/// The entry of a line of the file, if it gives one: the first character
/// of the text before the first tab, and the non-empty fields after it.
pub open spec fn spec_line_entry(l: Seq<char>) -> Option<(char, Seq<Seq<char>>)> {
    let parts = spec_split_on(l, '\t');
    let readings = spec_nonempty(parts.skip(1));
    if spec_is_comment(l) || parts[0].len() == 0 || readings.len() == 0 {
        None
    } else {
        Some((parts[0][0], readings))
    }
}

/// The entries of the lines `ls`, in order.
pub open spec fn spec_line_entries(ls: Seq<Seq<char>>) -> Seq<(char, Seq<Seq<char>>)>
    decreases ls.len(),
{
    if ls.len() == 0 {
        Seq::empty()
    } else {
        let p = spec_line_entries(ls.drop_last());
        match spec_line_entry(ls.last()) {
            Some(e) => p.push(e),
            None => p,
        }
    }
}

fn nonempty_after_first(parts: Vec<String>) -> (r: Vec<String>)
    requires
        parts@.len() >= 1,
    ensures
        spec_strings_view(r@) == spec_nonempty(spec_strings_view(parts@).skip(1)),
{
    let ghost pv = spec_strings_view(parts@).skip(1);
    let mut out: Vec<String> = Vec::new();
    let mut rest = parts;
    let mut k: usize = 0;
    let _first = rest.remove(0);
    proof {
        assert(spec_strings_view(rest@) =~= pv);
        assert(spec_strings_view(out@) =~= spec_nonempty(pv.take(0)));
    }
    let n = rest.len();
    while rest.len() > 0
        invariant
            n == pv.len(),
            k + rest@.len() == n,
            spec_strings_view(rest@) == pv.skip(k as int),
            spec_strings_view(out@) == spec_nonempty(pv.take(k as int)),
        decreases rest@.len(),
    {
        let ghost rv = rest@;
        let s = rest.remove(0);
        proof {
            assert(spec_strings_view(rv)[0] == pv[k as int]);
            assert(spec_strings_view(rest@) =~= pv.skip(k + 1)) by {
                assert(rest@ =~= rv.subrange(1, rv.len() as int));
                assert(spec_strings_view(rest@) =~= spec_strings_view(rv).skip(1));
                assert(pv.skip(k as int).skip(1) =~= pv.skip(k + 1));
            }
            assert(pv.take(k + 1).drop_last() =~= pv.take(k as int));
            assert(pv.take(k + 1).last() == s@);
        }
        if !s.as_str().is_empty() {
            let ghost ov = spec_strings_view(out@);
            out.push(s);
            proof {
                assert(spec_strings_view(out@) =~= ov.push(pv[k as int]));
            }
        }
        k = k + 1;
    }
    proof {
        assert(pv.take(n as int) =~= pv);
    }
    out
}

/// Reads the dictionary file's content: the entries of its lines (see
/// [`spec_line_entry`]), sorted by character.
pub fn parse_kanji_dict(content: &str) -> (r: Vec<(char, Vec<String>)>)
    ensures
        spec_cdict_view(r@) == spec_sort_by_char(spec_line_entries(spec_lines(content@))),
        spec_sorted_by_char(r@),
{
    let parts = split_on(content, '\n');
    let ghost p = spec_split_on(content@, '\n');
    proof {
        lemma_split_nonempty(content@, '\n');
    }
    let np = parts.len();
    let nl = if parts[np - 1].as_str().is_empty() {
        np - 1
    } else {
        np
    };
    let ghost ls = spec_lines(content@);
    proof {
        assert(parts@[np - 1]@ == p.last());
        assert(ls.len() == nl);
    }
    let mut out: Vec<(char, Vec<String>)> = Vec::new();
    let mut i: usize = 0;
    proof {
        assert(spec_cdict_view(out@) =~= spec_line_entries(ls.take(0)));
    }
    while i < nl
        invariant
            nl <= np == parts@.len(),
            p == parts@.map_values(|s: String| s@),
            ls == spec_lines(content@),
            ls.len() == nl,
            forall|k: int| 0 <= k < nl ==> #[trigger] ls[k] == crate::custom_dict::spec_strip_cr(p[k]),
            i <= nl,
            spec_cdict_view(out@) == spec_line_entries(ls.take(i as int)),
        decreases nl - i,
    {
        let l = strip_cr(&parts[i]);
        proof {
            assert(ls.take(i + 1).drop_last() =~= ls.take(i as int));
            assert(ls.take(i + 1).last() == l@);
        }
        if l.len() > 0 && l[0] != '#' {
            let line = string_of_chars(&l);
            let fields = split_on(line.as_str(), '\t');
            proof {
                lemma_split_nonempty(l@, '\t');
            }
            let first = chars_of(fields[0].as_str());
            let readings = nonempty_after_first(fields);
            if first.len() > 0 && readings.len() > 0 {
                let ghost ov = spec_cdict_view(out@);
                let c = first[0];
                out.push((c, readings));
                proof {
                    assert(spec_line_entry(l@) == Some((c, spec_strings_view(readings@))));
                    assert(spec_cdict_view(out@) =~= ov.push((c, spec_strings_view(readings@))));
                }
            } else {
                proof {
                    assert(spec_line_entry(l@) is None);
                }
            }
        }
        i = i + 1;
    }
    proof {
        assert(ls.take(nl as int) =~= ls);
    }
    sort_by_char(out)
}

// ------------------------------------------------------------
// Classes a dictionary allows
// ------------------------------------------------------------

/// The classes among the first `c` whose label is one of `readings`, in
/// class order.
pub open spec fn spec_matching(labels: Seq<Seq<char>>, readings: Seq<Seq<char>>, c: int) -> Seq<usize>
    decreases c,
{
    if c <= 0 {
        Seq::empty()
    } else {
        let p = spec_matching(labels, readings, c - 1);
        if readings.contains(labels[c - 1]) {
            p.push((c - 1) as usize)
        } else {
            p
        }
    }
}

/// The classes whose label is one of `readings`, in class order: the
/// candidates the reading model may choose from for a character the
/// dictionary knows.
pub fn matching_classes(class_labels: &[String], readings: &[String]) -> (r: Vec<usize>)
    ensures
        r@ == spec_matching(
            spec_strings_view(class_labels@),
            spec_strings_view(readings@),
            class_labels@.len() as int,
        ),
{
    let ghost lv = spec_strings_view(class_labels@);
    let ghost rv = spec_strings_view(readings@);
    let mut out: Vec<usize> = Vec::new();
    let mut c: usize = 0;
    while c < class_labels.len()
        invariant
            c <= class_labels@.len(),
            lv == spec_strings_view(class_labels@),
            rv == spec_strings_view(readings@),
            out@ == spec_matching(lv, rv, c as int),
        decreases class_labels@.len() - c,
    {
        let mut found = false;
        let mut k: usize = 0;
        while k < readings.len()
            invariant
                k <= readings@.len(),
                c < class_labels@.len(),
                rv == spec_strings_view(readings@),
                lv == spec_strings_view(class_labels@),
                found <==> exists|q: int| 0 <= q < k && rv[q] == lv[c as int],
            decreases readings@.len() - k,
        {
            if crate::text::str_eq(readings[k].as_str(), class_labels[c].as_str()) {
                found = true;
                proof {
                    assert(rv[k as int] == lv[c as int]);
                }
            }
            k = k + 1;
        }
        proof {
            assert(found == rv.contains(lv[c as int]));
        }
        if found {
            out.push(c);
        }
        c = c + 1;
    }
    out
}

} // verus!
