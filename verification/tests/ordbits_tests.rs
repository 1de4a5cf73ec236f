use fmaas_router::ordbits::{is_nan_bits32, le_bits32};

#[test]
fn bit_order_matches_value_order() {
    let values: [f32; 8] = [-3.5, -0.0, 0.0, 1e-5, 0.7, 1.0, 42.25, -1e-7];
    for &a in &values {
        for &b in &values {
            assert_eq!(
                le_bits32(a.to_bits(), b.to_bits()),
                a <= b,
                "disagree on {a} <= {b}"
            );
        }
    }
}

#[test]
fn nan_detection_matches() {
    assert!(is_nan_bits32(f32::NAN.to_bits()));
    assert!(!is_nan_bits32(1.0f32.to_bits()));
    assert!(!is_nan_bits32(f32::INFINITY.to_bits()));
    assert!(!is_nan_bits32((-f32::INFINITY).to_bits()));
}
