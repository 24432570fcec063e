use momors_core::char_type::CharType;
use momors_core::error::Error;
use momors_core::feature::{FeatureKey, FeatureType};
use momors_core::vocab::{pack_key, unpack_key, Vocab, VocabBuilder, MAX_BOUNDARY_CAT_COLUMNS, NO_CAT_COLUMN};

fn cp_key(ft: FeatureType, cps: &[u32]) -> FeatureKey {
    let mut k = FeatureKey { feature_type: ft, ..FeatureKey::default() };
    for (i, &c) in cps.iter().enumerate() {
        k.cp[i] = c;
    }
    k
}

#[test]
fn pack_is_order_preserving_for_trigram() {
    let a = cp_key(FeatureType::TrigramPrev1SelfNext1, &[0x3042, 0x3044, 0x3046]);
    let b = cp_key(FeatureType::TrigramPrev1SelfNext1, &[0x3042, 0x3044, 0x3047]);
    let c = cp_key(FeatureType::TrigramPrev1SelfNext1, &[0x3042, 0x3045, 0x3041]);
    assert!(pack_key(&a) < pack_key(&b));
    assert!(pack_key(&b) < pack_key(&c));
    assert!(a < b && b < c);
}

#[test]
fn pack_roundtrips() {
    for (ft, cps) in [
        (FeatureType::CharSelf, vec![0x20B9F]),
        (FeatureType::BigramPrev1Self, vec![0x3042, 0x10FFFF]),
        (FeatureType::TrigramSelfNext1Next2, vec![1, 0x10FFFF, 0x3046]),
    ] {
        let k = cp_key(ft, &cps);
        assert_eq!(unpack_key(ft, pack_key(&k)), k, "{ft:?}");
    }

    let mut k = FeatureKey { feature_type: FeatureType::KanjiRunLen, u8val: 7, ..FeatureKey::default() };
    assert_eq!(unpack_key(k.feature_type, pack_key(&k)), k);

    k = FeatureKey {
        feature_type: FeatureType::TypeTransition,
        ct: [CharType::Kanji, CharType::Hiragana, CharType::default()],
        ..FeatureKey::default()
    };
    assert_eq!(unpack_key(k.feature_type, pack_key(&k)), k);

    let bias = FeatureKey::no_payload(FeatureType::Bias);
    assert_eq!(unpack_key(bias.feature_type, pack_key(&bias)), bias);
}

fn build(sections: &[(FeatureType, u32, u32, &[FeatureKey])]) -> Result<Vocab, Error> {
    let mut b = VocabBuilder::new();
    let mut total = 0u32;
    for (ft, col, base, keys) in sections {
        b.begin_section(*ft, keys.len() as u32, *col, *base)?;
        for k in *keys {
            b.push_key(pack_key(k))?;
        }
        total += keys.len() as u32;
    }
    b.finish(total)
}

#[test]
fn resolves_with_implicit_ids() {
    let bias = FeatureKey::no_payload(FeatureType::Bias);
    let a = cp_key(FeatureType::CharSelf, &[0x3042]);
    let i = cp_key(FeatureType::CharSelf, &[0x3044]);
    let u = cp_key(FeatureType::CharSelf, &[0x3046]);
    let v = build(&[
        (FeatureType::Bias, NO_CAT_COLUMN, 0, &[bias]),
        (FeatureType::CharSelf, 5, 10, &[a, i, u]),
    ])
    .unwrap();

    assert_eq!(v.len(), 4);

    let r = v.resolve(&bias).unwrap();
    assert_eq!(r.feature_id, 0);
    assert_eq!(r.cat, None);

    for (n, key) in [(0u32, a), (1, i), (2, u)] {
        let r = v.resolve(&key).unwrap();
        assert_eq!(r.feature_id, 1 + n, "feature_id");
        assert_eq!(r.cat, Some((5, 10 + n)), "cat_code");
        assert_eq!(v.feature_id(&key), Some(1 + n));
    }

    assert!(v.resolve(&cp_key(FeatureType::CharSelf, &[0x3048])).is_none());
    assert!(v.resolve(&cp_key(FeatureType::CharNext1, &[0x3042])).is_none());
}

#[test]
fn iter_roundtrips_entries() {
    let a = cp_key(FeatureType::CharSelf, &[0x3042]);
    let i = cp_key(FeatureType::CharSelf, &[0x3044]);
    let v = build(&[(FeatureType::CharSelf, 3, 7, &[a, i])]).unwrap();
    let entries: Vec<_> = v.entries();
    assert_eq!(entries.len(), 2);
    assert_eq!(entries[0].key, a);
    assert_eq!(entries[0].feature_id, 0);
    assert_eq!((entries[0].cat_column, entries[0].cat_code), (3, 7));
    assert_eq!(entries[1].key, i);
    assert_eq!(entries[1].feature_id, 1);
    assert_eq!((entries[1].cat_column, entries[1].cat_code), (3, 8));
}

#[test]
fn builder_rejects_descending_keys() {
    let err = build(&[(
        FeatureType::CharSelf,
        5,
        0,
        &[cp_key(FeatureType::CharSelf, &[0x3044]), cp_key(FeatureType::CharSelf, &[0x3042])],
    )])
    .unwrap_err();
    assert!(matches!(err, Error::CorruptModel { .. }), "{err:?}");
}

#[test]
fn builder_rejects_duplicate_keys() {
    let k = cp_key(FeatureType::CharSelf, &[0x3042]);
    let err = build(&[(FeatureType::CharSelf, 5, 0, &[k, k])]).unwrap_err();
    assert!(matches!(err, Error::CorruptModel { .. }), "{err:?}");
}

#[test]
fn builder_rejects_descending_section_types() {
    let err = build(&[
        (FeatureType::CharSelf, NO_CAT_COLUMN, 0, &[cp_key(FeatureType::CharSelf, &[0x3042])]),
        (FeatureType::Bias, NO_CAT_COLUMN, 0, &[FeatureKey::no_payload(FeatureType::Bias)]),
    ])
    .unwrap_err();
    assert!(matches!(err, Error::CorruptModel { .. }), "{err:?}");
}

#[test]
fn builder_rejects_count_mismatch() {
    let mut b = VocabBuilder::new();
    b.begin_section(FeatureType::CharSelf, 2, NO_CAT_COLUMN, 0).unwrap();
    b.push_key(pack_key(&cp_key(FeatureType::CharSelf, &[0x3042]))).unwrap();
    let err = b.finish(2).unwrap_err();
    assert!(matches!(err, Error::CorruptModel { .. }), "{err:?}");
}

#[test]
fn builder_rejects_total_mismatch() {
    let mut b = VocabBuilder::new();
    b.begin_section(FeatureType::CharSelf, 1, NO_CAT_COLUMN, 0).unwrap();
    b.push_key(pack_key(&cp_key(FeatureType::CharSelf, &[0x3042]))).unwrap();
    let err = b.finish(99).unwrap_err();
    assert!(matches!(err, Error::CorruptModel { .. }), "{err:?}");
}

#[test]
fn builder_rejects_out_of_range_cat_column() {
    let mut b = VocabBuilder::new();
    let err = b.begin_section(FeatureType::CharSelf, 1, MAX_BOUNDARY_CAT_COLUMNS, 0).unwrap_err();
    assert!(matches!(err, Error::CorruptModel { .. }), "{err:?}");
}

#[test]
fn pack_values_are_exact() {
    let k = cp_key(FeatureType::BigramPrev1Self, &[1, 2]);
    assert_eq!(pack_key(&k), (1u64 << 21) | 2);
    let k = FeatureKey::type_2(FeatureType::TypeTransition, CharType::Kanji, CharType::Hiragana);
    assert_eq!(pack_key(&k), 0x4240);
    assert_eq!(pack_key(&FeatureKey::u8_payload(FeatureType::KanjiRunLen, 9)), 9);
    assert_eq!(pack_key(&FeatureKey::no_payload(FeatureType::Bias)), 0);
}
