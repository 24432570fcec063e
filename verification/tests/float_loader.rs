use momors_core::boundary::FloatBoundary;
use momors_core::error::Error;
use momors_core::loader::{load_float_from_reader, VERSION};
use momors_core::vocab::NO_CAT_COLUMN;

#[test]
fn float_loader_invalid_magic_returns_error() {
    let bad_data = b"XXXX\x01\x00\x00\x00\x00\x00\x00\x00\x00\x00\x00\x00";
    let result = load_float_from_reader(&bad_data[..], "test");
    assert!(matches!(result, Err(Error::InvalidMagic { .. })));
}

#[test]
fn float_loader_invalid_version_returns_error() {
    let bad_data = b"MBMF\x99\x00\x00\x00\x00\x00\x00\x00\x00\x00\x00\x00";
    let result = load_float_from_reader(&bad_data[..], "test");
    assert!(matches!(result, Err(Error::UnsupportedVersion { version: 0x99 })));
}

#[test]
fn float_file_with_mbm_magic_is_refused() {
    let mut b = Vec::new();
    b.extend_from_slice(b"MOMO");
    b.push(VERSION);
    b.extend_from_slice(&[0; 11]);
    assert!(matches!(load_float_from_reader(&b, "test"), Err(Error::InvalidMagic { .. })));
}

#[test]
fn float_file_loads_unscaled_weights() {
    let mut b = Vec::new();
    b.extend_from_slice(b"MBMF");
    b.push(VERSION);
    b.extend_from_slice(&[0, 0, 0]);
    b.extend_from_slice(&1u32.to_le_bytes());
    b.extend_from_slice(&1u32.to_le_bytes());
    // vocabulary: the bias alone
    b.extend_from_slice(&1u32.to_le_bytes());
    b.push(0x00);
    b.extend_from_slice(&[0, 0, 0]);
    b.extend_from_slice(&1u32.to_le_bytes());
    b.extend_from_slice(&NO_CAT_COLUMN.to_le_bytes());
    b.extend_from_slice(&0u32.to_le_bytes());
    b.extend_from_slice(&0u64.to_le_bytes());
    // one label
    b.push(3);
    b.extend_from_slice("カ".as_bytes());
    // one non-zero: class 0, weight 0.5
    b.extend_from_slice(&1u32.to_le_bytes());
    b.extend_from_slice(&1u16.to_le_bytes());
    b.extend_from_slice(&0u16.to_le_bytes());
    b.extend_from_slice(&0.5f32.to_le_bytes());
    // intercept
    b.extend_from_slice(&0.25f32.to_le_bytes());
    // linear boundary: one weight, two intercepts
    b.push(0);
    b.extend_from_slice(&(-1.5f32).to_le_bytes());
    b.extend_from_slice(&0.0f32.to_le_bytes());
    b.extend_from_slice(&0.125f32.to_le_bytes());
    // no names, no single characters
    b.extend_from_slice(&0u32.to_le_bytes());
    b.extend_from_slice(&0u32.to_le_bytes());
    let m = load_float_from_reader(&b, "test").expect("loads");
    assert_eq!(m.n_classes(), 1);
    assert_eq!(m.read_class(0), Some("カ"));
    assert_eq!(m.read_feature_column(0), vec![(0, 0.5f32.to_bits())]);
    assert_eq!(f32::from_bits(m.intercept_read[0]), 0.25);
    match m.boundary {
        FloatBoundary::Linear { data, intercept } => {
            assert_eq!(data, vec![(-1.5f32).to_bits()]);
            assert_eq!(f32::from_bits(intercept.1), 0.125);
        }
        FloatBoundary::Tree(_) => panic!("linear expected"),
    }
}
