//! The vocabulary: from feature keys to feature ids and categorical codes.
//!
//! The vocabulary is cut into one section per feature type. A section holds
//! the keys of its type packed into `u64` (see [`pack_key`]), strictly
//! ascending; the feature id of a key is the section's base id plus the key's
//! index, and so is its categorical code (base code plus index) where the
//! section has a categorical column. Sections come in strictly ascending
//! order of feature type and their ids follow each other from 0.
//!
//! Packing puts the payload high bits first: code points 21 bits each,
//! classes 8 bits each, or the byte. Within one type, packing is injective
//! and keeps the order of the payloads ([`lemma_pack_injective`],
//! [`lemma_pack_order`]), and [`unpack_key`] undoes it
//! ([`lemma_unpack_pack`]).

use vstd::prelude::*;

use crate::char_type::CharType;
use crate::error::{corrupt, spec_corrupt_with, Error};
use crate::feature::{FeatureKey, FeatureType};

verus! {

/// Bits given to one code point.
pub const CP_BITS: u64 = 21;
/// Categorical column of a section that has none.
pub const NO_CAT_COLUMN: u32 = 0xFFFF_FFFF;
/// Upper bound (exclusive) of categorical column numbers.
pub const MAX_BOUNDARY_CAT_COLUMNS: u32 = 64;
/// Slot of a feature type that has no section.
pub const NO_SLOT: u8 = 0xFF;

// ------------------------------------------------------------
// Packing
// ------------------------------------------------------------

/// The packed form of `k` (see the module documentation).
pub open spec fn spec_pack(k: FeatureKey) -> u64 {
    let ft = k.feature_type;
    let m = ft.spec_char32_count();
    let n = ft.spec_chartype_count();
    if m == 1 {
        k.cp[0] as u64
    } else if m == 2 {
        ((k.cp[0] as u64) << 21u64) | (k.cp[1] as u64)
    } else if m == 3 {
        ((((k.cp[0] as u64) << 21u64) | (k.cp[1] as u64)) << 21u64) | (k.cp[2] as u64)
    } else if n == 1 {
        k.ct[0].spec_value() as u64
    } else if n == 2 {
        ((k.ct[0].spec_value() as u64) << 8u64) | (k.ct[1].spec_value() as u64)
    } else if n == 3 {
        ((((k.ct[0].spec_value() as u64) << 8u64) | (k.ct[1].spec_value() as u64)) << 8u64) | (
        k.ct[2].spec_value() as u64)
    } else if ft.spec_is_uint8_payload() {
        k.u8val as u64
    } else {
        0
    }
}

/// The payload of `k` as numbers, in order: its code points, its classes, its
/// byte, or nothing.
pub open spec fn spec_payload(k: FeatureKey) -> Seq<int> {
    let ft = k.feature_type;
    let m = ft.spec_char32_count();
    let n = ft.spec_chartype_count();
    if m >= 1 {
        Seq::new(m, |i: int| k.cp[i] as int)
    } else if n >= 1 {
        Seq::new(n, |i: int| k.ct[i].spec_value() as int)
    } else if ft.spec_is_uint8_payload() {
        seq![k.u8val as int]
    } else {
        Seq::empty()
    }
}

/// Lexicographic order of two payloads of equal length.
pub open spec fn spec_lex_lt(a: Seq<int>, b: Seq<int>) -> bool
    decreases a.len(),
{
    if a.len() == 0 || b.len() == 0 {
        false
    } else if a[0] != b[0] {
        a[0] < b[0]
    } else {
        spec_lex_lt(a.drop_first(), b.drop_first())
    }
}

/// The code points of `k` fit in 21 bits.
pub open spec fn spec_cps_fit(k: FeatureKey) -> bool {
    forall|i: int| 0 <= i < 3 ==> (#[trigger] k.cp[i]) < 0x20_0000
}

proof fn lemma_shift21(x: u64, y: u64)
    requires
        x < 0x800_0000_0000,
        y < 0x20_0000,
    ensures
        (x << 21u64) | y == x * 0x20_0000 + y,
{
    assert((x << 21u64) | y == x * 0x20_0000 + y) by (bit_vector)
        requires
            x < 0x800_0000_0000,
            y < 0x20_0000,
    ;
}

proof fn lemma_shift8(x: u64, y: u64)
    requires
        x < 0x1_0000,
        y < 0x100,
    ensures
        (x << 8u64) | y == x * 0x100 + y,
{
    assert((x << 8u64) | y == x * 0x100 + y) by (bit_vector)
        requires
            x < 0x1_0000,
            y < 0x100,
    ;
}

/// The packed key as a number in base 2^21 (code points) or 256 (classes).
proof fn lemma_pack_value(k: FeatureKey)
    requires
        spec_cps_fit(k),
    ensures
        ({
            let p = spec_payload(k);
            let m = k.feature_type.spec_char32_count();
            let n = k.feature_type.spec_chartype_count();
            &&& m == 1 ==> spec_pack(k) == p[0]
            &&& m == 2 ==> spec_pack(k) == p[0] * 0x20_0000 + p[1]
            &&& m == 3 ==> spec_pack(k) == p[0] * 0x400_0000_0000 + p[1] * 0x20_0000 + p[2]
            &&& m == 0 && n == 1 ==> spec_pack(k) == p[0]
            &&& m == 0 && n == 2 ==> spec_pack(k) == p[0] * 0x100 + p[1]
            &&& m == 0 && n == 3 ==> spec_pack(k) == p[0] * 0x1_0000 + p[1] * 0x100 + p[2]
            &&& m == 0 && n == 0 && k.feature_type.spec_is_uint8_payload() ==> spec_pack(k)
                == p[0]
            &&& m == 0 && n == 0 && !k.feature_type.spec_is_uint8_payload() ==> spec_pack(k)
                == 0
        }),
{
    let c0 = k.cp[0] as u64;
    let c1 = k.cp[1] as u64;
    let c2 = k.cp[2] as u64;
    assert(k.cp[0] < 0x20_0000 && k.cp[1] < 0x20_0000 && k.cp[2] < 0x20_0000);
    lemma_shift21(c0, c1);
    lemma_shift21((c0 << 21u64) | c1, c2);
    let t0 = k.ct[0].spec_value() as u64;
    let t1 = k.ct[1].spec_value() as u64;
    let t2 = k.ct[2].spec_value() as u64;
    lemma_shift8(t0, t1);
    lemma_shift8((t0 << 8u64) | t1, t2);
    crate::feature::lemma_counts_exclusive(k.feature_type);
}

/// Within one feature type, two keys pack alike exactly when their payloads
/// are equal.
#[verifier::spinoff_prover]
#[verifier::rlimit(40)]
pub proof fn lemma_pack_injective(a: FeatureKey, b: FeatureKey)
    requires
        a.feature_type == b.feature_type,
        spec_cps_fit(a),
        spec_cps_fit(b),
    ensures
        (spec_pack(a) == spec_pack(b)) <==> (spec_payload(a) == spec_payload(b)),
{
    lemma_pack_value(a);
    lemma_pack_value(b);
    crate::feature::lemma_counts_exclusive(a.feature_type);
    let pa = spec_payload(a);
    let pb = spec_payload(b);
    if spec_pack(a) == spec_pack(b) {
        assert forall|i: int| 0 <= i < pa.len() implies pa[i] == pb[i] by {
            assert(a.cp[0] < 0x20_0000 && a.cp[1] < 0x20_0000 && a.cp[2] < 0x20_0000);
            assert(b.cp[0] < 0x20_0000 && b.cp[1] < 0x20_0000 && b.cp[2] < 0x20_0000);
        }
        assert(pa =~= pb);
    }
}

/// Within one feature type, packing keeps the lexicographic order of the
/// payloads.
pub proof fn lemma_pack_order(a: FeatureKey, b: FeatureKey)
    requires
        a.feature_type == b.feature_type,
        spec_cps_fit(a),
        spec_cps_fit(b),
    ensures
        (spec_pack(a) < spec_pack(b)) <==> spec_lex_lt(spec_payload(a), spec_payload(b)),
{
    lemma_pack_value(a);
    lemma_pack_value(b);
    crate::feature::lemma_counts_exclusive(a.feature_type);
    let pa = spec_payload(a);
    let pb = spec_payload(b);
    assert(a.cp[0] < 0x20_0000 && a.cp[1] < 0x20_0000 && a.cp[2] < 0x20_0000);
    assert(b.cp[0] < 0x20_0000 && b.cp[1] < 0x20_0000 && b.cp[2] < 0x20_0000);
    reveal_with_fuel(spec_lex_lt, 4);
    if pa.len() >= 1 {
        assert(pa.drop_first().len() == pa.len() - 1);
        if pa.len() >= 2 {
            assert(pa.drop_first().drop_first().len() == pa.len() - 2);
            assert(pa.drop_first()[0] == pa[1]);
            assert(pb.drop_first()[0] == pb[1]);
            if pa.len() >= 3 {
                assert(pa.drop_first().drop_first()[0] == pa[2]);
                assert(pb.drop_first().drop_first()[0] == pb[2]);
                assert(pa.drop_first().drop_first().drop_first().len() == 0);
            }
        }
    }
}

/// Packs the payload of `key` into a `u64` (see the module documentation).
pub fn pack_key(key: &FeatureKey) -> (r: u64)
    ensures
        r == spec_pack(*key),
{
    let ft = key.feature_type;
    let m = ft.char32_count();
    if m == 1 {
        return key.cp[0] as u64;
    } else if m == 2 {
        return ((key.cp[0] as u64) << 21u64) | (key.cp[1] as u64);
    } else if m == 3 {
        return ((((key.cp[0] as u64) << 21u64) | (key.cp[1] as u64)) << 21u64) | (
        key.cp[2] as u64);
    }
    let n = ft.chartype_count();
    if n == 1 {
        return key.ct[0].to_u8() as u64;
    } else if n == 2 {
        return ((key.ct[0].to_u8() as u64) << 8u64) | (key.ct[1].to_u8() as u64);
    } else if n == 3 {
        return ((((key.ct[0].to_u8() as u64) << 8u64) | (key.ct[1].to_u8() as u64)) << 8u64) | (
        key.ct[2].to_u8() as u64);
    }
    if ft.is_uint8_payload() {
        return key.u8val as u64;
    }
    0
}

/// The key of type `ft` with the payload unpacked from `packed`.
pub open spec fn spec_unpack(ft: FeatureType, packed: u64) -> FeatureKey {
    let m = ft.spec_char32_count();
    let n = ft.spec_chartype_count();
    let z = FeatureKey::spec_zero(ft);
    let mask = 0x1F_FFFFu64;
    if m == 1 {
        FeatureKey { cp: [(packed & mask) as u32, 0, 0], ..z }
    } else if m == 2 {
        FeatureKey { cp: [((packed >> 21u64) & mask) as u32, (packed & mask) as u32, 0], ..z }
    } else if m == 3 {
        FeatureKey {
            cp: [
                ((packed >> 42u64) & mask) as u32,
                ((packed >> 21u64) & mask) as u32,
                (packed & mask) as u32,
            ],
            ..z
        }
    } else if n == 1 {
        FeatureKey {
            ct: [spec_class_of((packed & 0xFF) as u8), CharType::Space, CharType::Space],
            ..z
        }
    } else if n == 2 {
        FeatureKey {
            ct: [
                spec_class_of(((packed >> 8u64) & 0xFF) as u8),
                spec_class_of((packed & 0xFF) as u8),
                CharType::Space,
            ],
            ..z
        }
    } else if n == 3 {
        FeatureKey {
            ct: [
                spec_class_of(((packed >> 16u64) & 0xFF) as u8),
                spec_class_of(((packed >> 8u64) & 0xFF) as u8),
                spec_class_of((packed & 0xFF) as u8),
            ],
            ..z
        }
    } else if ft.spec_is_uint8_payload() {
        FeatureKey { u8val: packed as u8, ..z }
    } else {
        z
    }
}

/// The class whose byte value is `v`, `Space` when none has it.
pub open spec fn spec_class_of(v: u8) -> CharType {
    if exists|t: CharType| t.spec_value() == v {
        choose|t: CharType| t.spec_value() == v
    } else {
        CharType::Space
    }
}

fn class_of(v: u8) -> (t: CharType)
    ensures
        t == spec_class_of(v),
{
    match CharType::from_u8(v) {
        Some(t) => {
            proof {
                crate::char_type::lemma_value_injective(t, spec_class_of(v));
            }
            t
        },
        None => CharType::Space,
    }
}

/// The key of type `ft` whose payload `packed` holds (the inverse of
/// [`pack_key`] on the keys of that type).
pub fn unpack_key(ft: FeatureType, packed: u64) -> (k: FeatureKey)
    ensures
        k == spec_unpack(ft, packed),
{
    let m = ft.char32_count();
    let mask = 0x1F_FFFFu64;
    let z = FeatureKey::no_payload_of(ft);
    if m == 1 {
        return FeatureKey { cp: [(packed & mask) as u32, 0, 0], ..z };
    } else if m == 2 {
        return FeatureKey { cp: [((packed >> 21u64) & mask) as u32, (packed & mask) as u32, 0], ..z };
    } else if m == 3 {
        return FeatureKey {
            cp: [
                ((packed >> 42u64) & mask) as u32,
                ((packed >> 21u64) & mask) as u32,
                (packed & mask) as u32,
            ],
            ..z
        };
    }
    let n = ft.chartype_count();
    if n == 1 {
        return FeatureKey {
            ct: [class_of((packed & 0xFF) as u8), CharType::Space, CharType::Space],
            ..z
        };
    } else if n == 2 {
        return FeatureKey {
            ct: [
                class_of(((packed >> 8u64) & 0xFF) as u8),
                class_of((packed & 0xFF) as u8),
                CharType::Space,
            ],
            ..z
        };
    } else if n == 3 {
        return FeatureKey {
            ct: [
                class_of(((packed >> 16u64) & 0xFF) as u8),
                class_of(((packed >> 8u64) & 0xFF) as u8),
                class_of((packed & 0xFF) as u8),
            ],
            ..z
        };
    }
    if ft.is_uint8_payload() {
        return FeatureKey { u8val: packed as u8, ..z };
    }
    z
}

/// A key whose slots outside its payload are zero, as every key built by
/// the constructors is.
pub open spec fn spec_canonical(k: FeatureKey) -> bool {
    let ft = k.feature_type;
    let m = ft.spec_char32_count();
    let n = ft.spec_chartype_count();
    &&& forall|i: int| m <= i < 3 ==> #[trigger] k.cp[i] == 0
    &&& forall|i: int| n <= i < 3 ==> #[trigger] k.ct[i] == CharType::Space
    &&& !ft.spec_is_uint8_payload() ==> k.u8val == 0
}

/// Unpacking a packed key gives the key back.
pub proof fn lemma_unpack_pack(k: FeatureKey)
    requires
        spec_cps_fit(k),
        spec_canonical(k),
    ensures
        spec_unpack(k.feature_type, spec_pack(k)) == k,
{
    let ft = k.feature_type;
    crate::feature::lemma_counts_exclusive(ft);
    let c0 = k.cp[0] as u64;
    let c1 = k.cp[1] as u64;
    let c2 = k.cp[2] as u64;
    assert(k.cp[0] < 0x20_0000 && k.cp[1] < 0x20_0000 && k.cp[2] < 0x20_0000);
    let t0 = k.ct[0].spec_value() as u64;
    let t1 = k.ct[1].spec_value() as u64;
    let t2 = k.ct[2].spec_value() as u64;
    let u = k.u8val as u64;
    assert(c0 & 0x1F_FFFFu64 == c0) by (bit_vector)
        requires
            c0 < 0x20_0000,
    ;
    assert({
        let p = (c0 << 21u64) | c1;
        &&& (p >> 21u64) & 0x1F_FFFFu64 == c0
        &&& p & 0x1F_FFFFu64 == c1
    }) by (bit_vector)
        requires
            c0 < 0x20_0000,
            c1 < 0x20_0000,
    ;
    assert({
        let p = (((c0 << 21u64) | c1) << 21u64) | c2;
        &&& (p >> 42u64) & 0x1F_FFFFu64 == c0
        &&& (p >> 21u64) & 0x1F_FFFFu64 == c1
        &&& p & 0x1F_FFFFu64 == c2
    }) by (bit_vector)
        requires
            c0 < 0x20_0000,
            c1 < 0x20_0000,
            c2 < 0x20_0000,
    ;
    assert({
        let p = (((t0 << 8u64) | t1) << 8u64) | t2;
        let q = (t0 << 8u64) | t1;
        &&& (p >> 16u64) & 0xFFu64 == t0
        &&& (p >> 8u64) & 0xFFu64 == t1
        &&& p & 0xFFu64 == t2
        &&& (q >> 8u64) & 0xFFu64 == t0
        &&& q & 0xFFu64 == t1
        &&& t0 & 0xFFu64 == t0
        &&& u & 0xFFu64 == u
    }) by (bit_vector)
        requires
            t0 < 0x100,
            t1 < 0x100,
            t2 < 0x100,
            u < 0x100,
    ;
    lemma_class_of_value(k.ct[0]);
    lemma_class_of_value(k.ct[1]);
    lemma_class_of_value(k.ct[2]);
    let r = spec_unpack(ft, spec_pack(k));
    assert(r.cp =~= k.cp);
    assert(r.ct =~= k.ct);
}

proof fn lemma_class_of_value(t: CharType)
    ensures
        spec_class_of(t.spec_value()) == t,
{
    let c = choose|c: CharType| c.spec_value() == t.spec_value();
    crate::char_type::lemma_value_injective(t, c);
}


// ------------------------------------------------------------
// Entries and references
// ------------------------------------------------------------

/// What the boundary model needs of a vocabulary entry.
#[derive(Debug, Clone, Copy)]
pub struct VocabRef {
    /// One-hot feature id (reading model, linear boundary model).
    pub feature_id: u32,
    /// Categorical (column, code) of the tree boundary model, if the key has
    /// one.
    pub cat: Option<(u32, u32)>,
}

/// One entry of the vocabulary, unpacked.
#[derive(Debug, Clone, Copy)]
pub struct VocabEntry {
    pub key: FeatureKey,
    pub feature_id: u32,
    pub cat_column: u32,
    pub cat_code: u32,
}

impl VocabEntry {
    /// The categorical (column, code), `None` when the entry has no column.
    pub fn cat(&self) -> (r: Option<(u32, u32)>)
        ensures
            r == (if self.cat_column != NO_CAT_COLUMN {
                Some((self.cat_column, self.cat_code))
            } else {
                None
            }),
    {
        if self.cat_column != NO_CAT_COLUMN {
            Some((self.cat_column, self.cat_code))
        } else {
            None
        }
    }
}

// ------------------------------------------------------------
// Sections
// ------------------------------------------------------------

/// The keys of one feature type.
#[derive(Debug)]
pub struct TypeSection {
    feature_type: FeatureType,
    keys: Vec<u64>,
    cat_column: u32,
    cat_code_base: u32,
    feature_id_base: u32,
}

/// A section as the contracts see it: type, keys, categorical column,
/// first categorical code, first feature id.
pub type SpecSection = (FeatureType, Seq<u64>, u32, u32, u32);

pub closed spec fn spec_section_view(s: TypeSection) -> SpecSection {
    (s.feature_type, s.keys@, s.cat_column, s.cat_code_base, s.feature_id_base)
}

/// Strictly ascending.
pub open spec fn spec_strictly_ascending(keys: Seq<u64>) -> bool {
    forall|a: int, b: int| 0 <= a < b < keys.len() ==> #[trigger] keys[a] < #[trigger] keys[b]
}

/// Well-formed sections: strictly ascending types and keys, valid columns,
/// ids and codes that fit, ids that follow each other from 0.
pub open spec fn spec_sections_wf(secs: Seq<SpecSection>, expected: Seq<u32>) -> bool {
    &&& secs.len() == expected.len()
    &&& secs.len() < NO_SLOT
    &&& forall|a: int, b: int|
        0 <= a < b < secs.len() ==> (#[trigger] secs[a]).0.spec_value() < (
        #[trigger] secs[b]).0.spec_value()
    &&& forall|k: int| 0 <= k < secs.len() ==> spec_strictly_ascending((#[trigger] secs[k]).1)
    &&& forall|k: int|
        0 <= k < secs.len() ==> (#[trigger] secs[k]).2 == NO_CAT_COLUMN || secs[k].2
            < MAX_BOUNDARY_CAT_COLUMNS
    &&& forall|k: int|
        0 <= k < secs.len() ==> (#[trigger] secs[k]).4 + expected[k] <= u32::MAX
    &&& forall|k: int|
        0 <= k < secs.len() ==> ((#[trigger] secs[k]).2 != NO_CAT_COLUMN ==> secs[k].3
            + expected[k] <= u32::MAX)
    &&& secs.len() > 0 ==> secs[0].4 == 0
    &&& forall|k: int|
        0 < k < secs.len() ==> (#[trigger] secs[k]).4 == secs[k - 1].4 + expected[k - 1]
}

/// The slot table points every type with a section at it, and no other.
pub open spec fn spec_slots_wf(slots: Seq<u8>, secs: Seq<SpecSection>) -> bool {
    &&& slots.len() == 256
    &&& forall|k: int| 0 <= k < secs.len() ==> slots[(#[trigger] secs[k]).0.spec_value() as int] == k
    &&& forall|v: int|
        0 <= v < 256 ==> (#[trigger] slots[v] != NO_SLOT ==> slots[v] < secs.len()
            && secs[slots[v] as int].0.spec_value() == v)
}

/// Next feature id after the sections.
pub open spec fn spec_next_id(secs: Seq<SpecSection>, expected: Seq<u32>) -> int {
    if secs.len() == 0 {
        0
    } else {
        secs.last().4 + expected.last()
    }
}

/// The vocabulary.
#[derive(Debug)]
pub struct Vocab {
    slot_of_type: Vec<u8>,
    sections: Vec<TypeSection>,
}

impl Vocab {
    /// The sections.
    pub closed spec fn spec_sections(&self) -> Seq<SpecSection> {
        self.sections@.map_values(|s: TypeSection| spec_section_view(s))
    }

    /// The vocabulary is well formed (every vocabulary this crate builds is).
    pub closed spec fn wf(&self) -> bool {
        &&& spec_sections_wf(
            self.spec_sections(),
            self.spec_sections().map_values(|s: SpecSection| s.1.len() as u32),
        )
        &&& forall|k: int| 0 <= k < self.spec_sections().len() ==> (#[trigger] self.spec_sections()[k]).1.len() <= u32::MAX
        &&& spec_slots_wf(self.slot_of_type@, self.spec_sections())
    }

    /// Where `key` stands: section `k`, index `i`.
    pub open spec fn spec_holds(&self, key: FeatureKey, k: int, i: int) -> bool {
        let secs = self.spec_sections();
        &&& 0 <= k < secs.len()
        &&& 0 <= i < secs[k].1.len()
        &&& secs[k].0 == key.feature_type
        &&& secs[k].1[i] == spec_pack(key)
    }

    /// A key stands at one place at most.
    pub proof fn lemma_holds_unique(&self, key: FeatureKey, k1: int, i1: int, k2: int, i2: int)
        requires
            self.wf(),
            self.spec_holds(key, k1, i1),
            self.spec_holds(key, k2, i2),
        ensures
            k1 == k2,
            i1 == i2,
    {
        let secs = self.spec_sections();
        if k1 < k2 {
            assert(secs[k1].0.spec_value() < secs[k2].0.spec_value());
        } else if k2 < k1 {
            assert(secs[k2].0.spec_value() < secs[k1].0.spec_value());
        }
        assert(spec_strictly_ascending(secs[k1].1));
        if i1 < i2 {
            assert(secs[k1].1[i1] < secs[k1].1[i2]);
        } else if i2 < i1 {
            assert(secs[k1].1[i2] < secs[k1].1[i1]);
        }
    }

    /// The empty vocabulary.
    pub fn new() -> (v: Vocab)
        ensures
            v.wf(),
            v.spec_sections().len() == 0,
    {
        let mut slots: Vec<u8> = Vec::new();
        let mut k: usize = 0;
        while k < 256
            invariant
                k <= 256,
                slots@.len() == k,
                forall|j: int| 0 <= j < k ==> slots@[j] == NO_SLOT,
            decreases 256 - k,
        {
            slots.push(NO_SLOT);
            k = k + 1;
        }
        let v = Vocab { slot_of_type: slots, sections: Vec::new() };
        proof {
            assert(v.spec_sections() =~= Seq::<SpecSection>::empty());
        }
        v
    }

    /// Section and index of `key`.
    fn find(&self, key: &FeatureKey) -> (r: Option<(usize, usize)>)
        requires
            self.wf(),
        ensures
            match r {
                Some((k, i)) => self.spec_holds(*key, k as int, i as int),
                None => forall|k: int, i: int| !self.spec_holds(*key, k, i),
            },
    {
        let ghost secs = self.spec_sections();
        let slot = self.slot_of_type[key.feature_type.to_u8() as usize];
        if slot == NO_SLOT {
            proof {
                assert forall|k: int, i: int| !self.spec_holds(*key, k, i) by {
                    if self.spec_holds(*key, k, i) {
                        assert(self.slot_of_type@[secs[k].0.spec_value() as int] == k);
                    }
                }
            }
            return None;
        }
        let sec = &self.sections[slot as usize];
        proof {
            assert(secs[slot as int] == spec_section_view(*sec));
            assert(secs[slot as int].0.spec_value() == key.feature_type.spec_value());
            crate::feature::lemma_feature_value_injective(sec.feature_type, key.feature_type);
        }
        let packed = pack_key(key);
        match search(&sec.keys, packed) {
            Some(i) => Some((slot as usize, i)),
            None => {
                proof {
                    assert forall|k: int, i: int| !self.spec_holds(*key, k, i) by {
                        if self.spec_holds(*key, k, i) {
                            assert(self.slot_of_type@[secs[k].0.spec_value() as int] == k);
                        }
                    }
                }
                None
            },
        }
    }

    /// The feature id of `key`, `None` when the vocabulary lacks it.
    pub fn feature_id(&self, key: &FeatureKey) -> (r: Option<u32>)
        requires
            self.wf(),
        ensures
            match r {
                Some(id) => exists|k: int, i: int|
                    self.spec_holds(*key, k, i) && id == self.spec_sections()[k].4 + i,
                None => forall|k: int, i: int| !self.spec_holds(*key, k, i),
            },
    {
        match self.find(key) {
            Some((k, i)) => {
                let sec = &self.sections[k];
                proof {
                    assert(self.spec_sections()[k as int] == spec_section_view(*sec));
                }
                Some(sec.feature_id_base + i as u32)
            },
            None => None,
        }
    }

    /// The feature id and categorical (column, code) of `key`, `None` when
    /// the vocabulary lacks it.
    pub fn resolve(&self, key: &FeatureKey) -> (r: Option<VocabRef>)
        requires
            self.wf(),
        ensures
            match r {
                Some(vr) => exists|k: int, i: int|
                    self.spec_holds(*key, k, i) && vr.feature_id == self.spec_sections()[k].4 + i
                        && vr.cat == (if self.spec_sections()[k].2 != NO_CAT_COLUMN {
                        Some((self.spec_sections()[k].2, (self.spec_sections()[k].3 + i) as u32))
                    } else {
                        None
                    }),
                None => forall|k: int, i: int| !self.spec_holds(*key, k, i),
            },
    {
        match self.find(key) {
            Some((k, i)) => {
                let sec = &self.sections[k];
                proof {
                    assert(self.spec_sections()[k as int] == spec_section_view(*sec));
                }
                let cat = if sec.cat_column != NO_CAT_COLUMN {
                    Some((sec.cat_column, sec.cat_code_base + i as u32))
                } else {
                    None
                };
                Some(VocabRef { feature_id: sec.feature_id_base + i as u32, cat })
            },
            None => None,
        }
    }

    /// Number of entries.
    pub fn len(&self) -> (n: usize)
        requires
            self.wf(),
        ensures
            n == spec_total(self.spec_sections()),
    {
        let mut n: usize = 0;
        let mut k: usize = 0;
        while k < self.sections.len()
            invariant
                self.wf(),
                k <= self.sections@.len(),
                n == spec_total(self.spec_sections().take(k as int)),
                n <= u32::MAX,
            decreases self.sections@.len() - k,
        {
            proof {
                let secs = self.spec_sections();
                assert(secs.take(k + 1).drop_last() =~= secs.take(k as int));
                assert(secs[k as int] == spec_section_view(self.sections@[k as int]));
                lemma_total_is_next_id(secs, k as int + 1);
            }
            n = n + self.sections[k].keys.len();
            k = k + 1;
        }
        proof {
            assert(self.spec_sections().take(self.sections@.len() as int) =~= self.spec_sections());
        }
        n
    }

    /// Every entry, unpacked, by section then key (feature id order).
    pub fn entries(&self) -> (r: Vec<VocabEntry>)
        requires
            self.wf(),
        ensures
            r@.len() == spec_total(self.spec_sections()),
    {
        let mut out: Vec<VocabEntry> = Vec::new();
        let mut k: usize = 0;
        while k < self.sections.len()
            invariant
                self.wf(),
                k <= self.sections@.len(),
                out@.len() == spec_total(self.spec_sections().take(k as int)),
            decreases self.sections@.len() - k,
        {
            let sec = &self.sections[k];
            let ghost secs = self.spec_sections();
            proof {
                assert(secs[k as int] == spec_section_view(*sec));
                assert(secs.take(k + 1).drop_last() =~= secs.take(k as int));
            }
            let mut i: usize = 0;
            let ghost start = out@.len();
            while i < sec.keys.len()
                invariant
                    i <= sec.keys@.len(),
                    out@.len() == start + i,
                    sec.feature_id_base + sec.keys@.len() <= u32::MAX,
                    sec.cat_column != NO_CAT_COLUMN ==> sec.cat_code_base + sec.keys@.len()
                        <= u32::MAX,
                decreases sec.keys@.len() - i,
            {
                let code = if sec.cat_column == NO_CAT_COLUMN {
                    0
                } else {
                    sec.cat_code_base + i as u32
                };
                out.push(
                    VocabEntry {
                        key: unpack_key(sec.feature_type, sec.keys[i]),
                        feature_id: sec.feature_id_base + i as u32,
                        cat_column: sec.cat_column,
                        cat_code: code,
                    },
                );
                i = i + 1;
            }
            k = k + 1;
        }
        proof {
            assert(self.spec_sections().take(self.sections@.len() as int) =~= self.spec_sections());
        }
        out
    }
}

/// Number of keys of the sections.
pub open spec fn spec_total(secs: Seq<SpecSection>) -> nat
    decreases secs.len(),
{
    if secs.len() == 0 {
        0
    } else {
        spec_total(secs.drop_last()) + secs.last().1.len()
    }
}

proof fn lemma_total_is_next_id(secs: Seq<SpecSection>, k: int)
    requires
        spec_sections_wf(secs, secs.map_values(|s: SpecSection| s.1.len() as u32)),
        forall|j: int| 0 <= j < secs.len() ==> (#[trigger] secs[j]).1.len() <= u32::MAX,
        0 <= k <= secs.len(),
    ensures
        spec_total(secs.take(k)) == spec_next_id(secs.take(k), secs.take(k).map_values(|s: SpecSection| s.1.len() as u32)),
        spec_total(secs.take(k)) <= u32::MAX,
    decreases k,
{
    if k > 0 {
        lemma_total_is_next_id(secs, k - 1);
        assert(secs.take(k).drop_last() =~= secs.take(k - 1));
        let e = secs.map_values(|s: SpecSection| s.1.len() as u32);
        assert(e[k - 1] == secs[k - 1].1.len());
        if k > 1 {
            assert(secs[k - 1].4 == secs[k - 2].4 + e[k - 2]);
        }
    }
}

/// Binary search in strictly ascending keys.
fn search(keys: &Vec<u64>, x: u64) -> (r: Option<usize>)
    requires
        spec_strictly_ascending(keys@),
    ensures
        match r {
            Some(i) => i < keys@.len() && keys@[i as int] == x,
            None => forall|i: int| 0 <= i < keys@.len() ==> keys@[i] != x,
        },
{
    let mut lo: usize = 0;
    let mut hi: usize = keys.len();
    while lo < hi
        invariant
            lo <= hi <= keys@.len(),
            spec_strictly_ascending(keys@),
            forall|i: int| 0 <= i < lo ==> keys@[i] < x,
            forall|i: int| hi <= i < keys@.len() ==> keys@[i] > x,
        decreases hi - lo,
    {
        let mid = lo + (hi - lo) / 2;
        let v = keys[mid];
        if v == x {
            return Some(mid);
        } else if v < x {
            lo = mid + 1;
        } else {
            hi = mid;
        }
    }
    None
}

// ------------------------------------------------------------
// Building
// ------------------------------------------------------------

/// Builds a [`Vocab`] section by section, checking the file's promises:
/// sections in strictly ascending type order, keys strictly ascending within
/// a section, as many keys as each section announced, ids that fit.
pub struct VocabBuilder {
    slot_of_type: Vec<u8>,
    sections: Vec<TypeSection>,
    expected: Vec<u32>,
    next_feature_id: u32,
}

proof fn lemma_push_section(secs: Seq<SpecSection>, expected: Seq<u32>, slots: Seq<u8>, sv: SpecSection, count: u32)
    requires
        spec_sections_wf(secs, expected),
        spec_slots_wf(slots, secs),
        secs.len() < NO_SLOT - 1,
        secs.len() > 0 ==> sv.0.spec_value() > secs.last().0.spec_value(),
        sv.1 == Seq::<u64>::empty(),
        sv.2 == NO_CAT_COLUMN || sv.2 < MAX_BOUNDARY_CAT_COLUMNS,
        sv.4 == spec_next_id(secs, expected),
        sv.4 + count <= u32::MAX,
        sv.2 != NO_CAT_COLUMN ==> sv.3 + count <= u32::MAX,
    ensures
        spec_sections_wf(secs.push(sv), expected.push(count)),
        spec_slots_wf(slots.update(sv.0.spec_value() as int, secs.len() as u8), secs.push(sv)),
        spec_next_id(secs.push(sv), expected.push(count)) == sv.4 + count,
{
    let s2 = secs.push(sv);
    let n = secs.len();
    let ft = sv.0.spec_value();
    let sl2 = slots.update(ft as int, n as u8);
    assert forall|k: int| 0 <= k < s2.len() implies sl2[(#[trigger] s2[k]).0.spec_value() as int] == k by {
        if k < n {
            assert(s2[k] == secs[k]);
            if n > 0 && k < n - 1 {
                assert(secs[k].0.spec_value() < secs[n - 1].0.spec_value());
            }
        }
    }
    assert forall|v: int| 0 <= v < 256 implies (#[trigger] sl2[v] != NO_SLOT ==> sl2[v] < s2.len()
        && s2[sl2[v] as int].0.spec_value() == v) by {
        if v != ft as int && sl2[v] != NO_SLOT {
            assert(s2[sl2[v] as int] == secs[sl2[v] as int]);
        }
    }
    assert forall|a: int, b: int| 0 <= a < b < s2.len() implies (#[trigger] s2[a]).0.spec_value() < (
    #[trigger] s2[b]).0.spec_value() by {
        if b == n as int && a < n - 1 {
            assert(secs[a].0.spec_value() < secs[n - 1].0.spec_value());
        }
    }
    assert(spec_strictly_ascending(sv.1));
}

/// Why opening a section fails (see [`VocabBuilder::begin_section`]), the
/// checks taken in order.
pub open spec fn spec_begin_reason(secs: Seq<SpecSection>, expected: Seq<u32>, ft: FeatureType, count: u32, col: u32, base: u32) -> Seq<char> {
    if secs.len() > 0 && ft.spec_value() <= secs.last().0.spec_value() {
        "統合語彙のセクションが feature_type 昇順に並んでいません"@
    } else if secs.len() >= NO_SLOT {
        "統合語彙のセクション数が上限 255 を超えています"@
    } else if col != NO_CAT_COLUMN && col >= MAX_BOUNDARY_CAT_COLUMNS {
        "統合語彙のカテゴリカル列番号が上限 64 以上です"@
    } else {
        "統合語彙セクションの件数で feature_id か cat_code が u32 を溢れます"@
    }
}

/// Why adding a key fails (see [`VocabBuilder::push_key`]).
pub open spec fn spec_push_reason(secs: Seq<SpecSection>) -> Seq<char> {
    if secs.len() == 0 {
        "統合語彙のセクションを開く前にキーが現れました"@
    } else {
        "統合語彙セクションのキーが昇順でないか重複しています"@
    }
}

/// Why finishing fails (see [`VocabBuilder::finish`]).
pub open spec fn spec_finish_reason(secs: Seq<SpecSection>, expected: Seq<u32>) -> Seq<char> {
    if exists|k: int| 0 <= k < secs.len() && (#[trigger] secs[k]).1.len() != expected[k] {
        "統合語彙セクションのキーの件数が宣言と違います"@
    } else {
        "統合語彙の件数合計と n_features が一致しません"@
    }
}

impl VocabBuilder {
    /// The sections opened so far.
    pub closed spec fn spec_sections(&self) -> Seq<SpecSection> {
        self.sections@.map_values(|s: TypeSection| spec_section_view(s))
    }

    /// The key counts announced for them.
    pub closed spec fn spec_expected(&self) -> Seq<u32> {
        self.expected@
    }

    pub closed spec fn wf(&self) -> bool {
        &&& spec_sections_wf(self.spec_sections(), self.expected@)
        &&& spec_slots_wf(self.slot_of_type@, self.spec_sections())
        &&& self.next_feature_id == spec_next_id(self.spec_sections(), self.expected@)
    }

    /// A builder with no section.
    pub fn new() -> (b: VocabBuilder)
        ensures
            b.wf(),
            b.spec_sections().len() == 0,
            b.spec_expected().len() == 0,
    {
        let v = Vocab::new();
        let b = VocabBuilder {
            slot_of_type: v.slot_of_type,
            sections: Vec::new(),
            expected: Vec::new(),
            next_feature_id: 0,
        };
        proof {
            assert(b.spec_sections() =~= Seq::<SpecSection>::empty());
        }
        b
    }

    /// Opens the section of `feature_type`, announcing `count` keys; the
    /// following keys go to it. An error when the type does not come after
    /// the previous section's, when there are too many sections, when the
    /// categorical column is out of range, or when ids or codes would not
    /// fit in a `u32`.
    #[verifier::rlimit(60)]
    pub fn begin_section(&mut self, feature_type: FeatureType, count: u32, cat_column: u32, cat_code_base: u32) -> (r: Result<(), Error>)
        requires
            old(self).wf(),
        ensures
            final(self).wf(),
            ({
                let secs = old(self).spec_sections();
                let bad = (secs.len() > 0 && feature_type.spec_value() <= secs.last().0.spec_value())
                    || secs.len() >= NO_SLOT
                    || (cat_column != NO_CAT_COLUMN && cat_column >= MAX_BOUNDARY_CAT_COLUMNS)
                    || spec_next_id(secs, old(self).spec_expected()) + count > u32::MAX
                    || (cat_column != NO_CAT_COLUMN && cat_code_base + count > u32::MAX);
                &&& r is Err <==> bad
                &&& r is Err ==> *final(self) == *old(self) && spec_corrupt_with(
                    r->Err_0,
                    spec_begin_reason(secs, old(self).spec_expected(), feature_type, count, cat_column, cat_code_base),
                )
                &&& r is Ok ==> final(self).spec_sections() == secs.push(
                    (feature_type, Seq::empty(), cat_column, cat_code_base, spec_next_id(secs, old(self).spec_expected()) as u32),
                ) && final(self).spec_expected() == old(self).spec_expected().push(count)
            }),
    {
        let ghost secs = self.spec_sections();
        let ft = feature_type.to_u8();
        let n = self.sections.len();
        if n > 0 {
            proof {
                assert(secs.last() == spec_section_view(self.sections@[n - 1]));
            }
            if ft <= self.sections[n - 1].feature_type.to_u8() {
                return Err(corrupt("統合語彙のセクションが feature_type 昇順に並んでいません"));
            }
        }
        if n >= 255 {
            return Err(corrupt("統合語彙のセクション数が上限 255 を超えています"));
        }
        if cat_column != NO_CAT_COLUMN && cat_column >= MAX_BOUNDARY_CAT_COLUMNS {
            return Err(corrupt("統合語彙のカテゴリカル列番号が上限 64 以上です"));
        }
        if count > 0xFFFF_FFFF - self.next_feature_id || (cat_column != NO_CAT_COLUMN && count
            > 0xFFFF_FFFF - cat_code_base) {
            return Err(corrupt("統合語彙セクションの件数で feature_id か cat_code が u32 を溢れます"));
        }
        let sec = TypeSection {
            feature_type,
            keys: Vec::new(),
            cat_column,
            cat_code_base,
            feature_id_base: self.next_feature_id,
        };
        let ghost sv = spec_section_view(sec);
        let ghost old_slots = self.slot_of_type@;
        let ghost old_exp = self.expected@;
        self.sections.push(sec);
        self.slot_of_type.set(ft as usize, n as u8);
        self.expected.push(count);
        self.next_feature_id = self.next_feature_id + count;
        proof {
            assert(self.spec_sections() =~= secs.push(sv));
            lemma_push_section(secs, old_exp, old_slots, sv, count);
            assert(self.slot_of_type@ =~= old_slots.update(ft as int, n as u8));
        }
        Ok(())
    }

    /// Adds the packed key `packed` to the open section. An error when no
    /// section is open or the key does not come after the previous one.
    pub fn push_key(&mut self, packed: u64) -> (r: Result<(), Error>)
        requires
            old(self).wf(),
        ensures
            final(self).wf(),
            ({
                let secs = old(self).spec_sections();
                let bad = secs.len() == 0 || (secs.last().1.len() > 0 && packed
                    <= secs.last().1.last());
                &&& r is Err <==> bad
                &&& r is Err ==> *final(self) == *old(self) && spec_corrupt_with(r->Err_0, spec_push_reason(secs))
                &&& r is Ok ==> final(self).spec_sections() == secs.update(
                    secs.len() - 1,
                    (secs.last().0, secs.last().1.push(packed), secs.last().2, secs.last().3, secs.last().4),
                ) && final(self).spec_expected() == old(self).spec_expected()
            }),
    {
        let ghost secs = self.spec_sections();
        let n = self.sections.len();
        if n == 0 {
            return Err(corrupt("統合語彙のセクションを開く前にキーが現れました"));
        }
        proof {
            assert(secs.last() == spec_section_view(self.sections@[n - 1]));
        }
        let nk = self.sections[n - 1].keys.len();
        if nk > 0 && packed <= self.sections[n - 1].keys[nk - 1] {
            return Err(corrupt("統合語彙セクションのキーが昇順でないか重複しています"));
        }
        let mut sec = self.sections.pop().unwrap();
        sec.keys.push(packed);
        let ghost sv = spec_section_view(sec);
        self.sections.push(sec);
        proof {
            let s2 = self.spec_sections();
            assert(s2 =~= secs.update(n - 1, sv));
            assert(spec_strictly_ascending(sv.1)) by {
                assert forall|a: int, b: int| 0 <= a < b < sv.1.len() implies #[trigger] sv.1[a] < #[trigger] sv.1[b] by {
                    if b == nk as int && a < nk as int - 1 {
                        assert(secs.last().1[a] < secs.last().1[nk - 1]);
                    }
                }
            }
            assert forall|k: int| 0 <= k < s2.len() implies spec_strictly_ascending((#[trigger] s2[k]).1) by {
                if k < n - 1 {
                    assert(s2[k] == secs[k]);
                }
            }
            assert forall|a: int, b: int| 0 <= a < b < s2.len() implies (#[trigger] s2[a]).0.spec_value() < (
            #[trigger] s2[b]).0.spec_value() by {
                assert(s2[a].0 == secs[a].0);
                assert(s2[b].0 == secs[b].0);
            }
        }
        Ok(())
    }

    /// The vocabulary built: an error when a section got another number of
    /// keys than it announced, or the ids do not add up to `n_features`.
    pub fn finish(self, n_features: u32) -> (r: Result<Vocab, Error>)
        requires
            self.wf(),
        ensures
            ({
                let secs = self.spec_sections();
                let bad = (exists|k: int| 0 <= k < secs.len() && (#[trigger] secs[k]).1.len() != self.spec_expected()[k])
                    || spec_next_id(secs, self.spec_expected()) != n_features;
                &&& r is Err <==> bad
                &&& r is Err ==> spec_corrupt_with(r->Err_0, spec_finish_reason(secs, self.spec_expected()))
                &&& r matches Ok(v) ==> v.wf() && v.spec_sections() == secs && spec_total(secs) == n_features
            }),
    {
        let ghost secs = self.spec_sections();
        let mut k: usize = 0;
        while k < self.sections.len()
            invariant
                self.wf(),
                secs == self.spec_sections(),
                k <= self.sections@.len(),
                forall|j: int| 0 <= j < k ==> (#[trigger] secs[j]).1.len() == self.expected@[j],
            decreases self.sections@.len() - k,
        {
            proof {
                assert(secs[k as int] == spec_section_view(self.sections@[k as int]));
            }
            if self.sections[k].keys.len() != self.expected[k] as usize {
                return Err(corrupt("統合語彙セクションのキーの件数が宣言と違います"));
            }
            k = k + 1;
        }
        if self.next_feature_id != n_features {
            return Err(corrupt("統合語彙の件数合計と n_features が一致しません"));
        }
        let v = Vocab { slot_of_type: self.slot_of_type, sections: self.sections };
        proof {
            assert(v.spec_sections() == secs);
            let lens = secs.map_values(|s: SpecSection| s.1.len() as u32);
            assert(lens =~= self.expected@);
            lemma_total_is_next_id(secs, secs.len() as int);
            assert(secs.take(secs.len() as int) =~= secs);
        }
        Ok(v)
    }
}
} // verus!
