use vector3::{ceil_bits, floor_bits, Vector3};

#[test]
fn floor_it() {
    let vector = Vector3::new(5.3f64.to_bits(), 2.1f64.to_bits(), 5.4f64.to_bits());
    assert_eq!(
        vector.floor(),
        Vector3::new(5.0f64.to_bits(), 2.0f64.to_bits(), 5.0f64.to_bits())
    );
}

#[test]
fn ceil_it() {
    let vector = Vector3::new(5.7f64.to_bits(), 2.6f64.to_bits(), 5.5f64.to_bits());
    assert_eq!(
        vector.ceil(),
        Vector3::new(6.0f64.to_bits(), 3.0f64.to_bits(), 6.0f64.to_bits())
    );
}

#[test]
fn floor_of_negative_values() {
    let vector = Vector3::new((-0.5f64).to_bits(), (-2.25f64).to_bits(), (-7.0f64).to_bits());
    assert_eq!(
        vector.floor(),
        Vector3::new((-1.0f64).to_bits(), (-3.0f64).to_bits(), (-7.0f64).to_bits())
    );
}

#[test]
fn ceil_of_negative_values_keeps_the_signed_zero() {
    let vector = Vector3::new((-0.5f64).to_bits(), (-2.25f64).to_bits(), (-0.0f64).to_bits());
    assert_eq!(
        vector.ceil(),
        Vector3::new((-0.0f64).to_bits(), (-2.0f64).to_bits(), (-0.0f64).to_bits())
    );
}

#[test]
fn rounding_passes_nan_and_infinity_through() {
    let v = Vector3::new(
        f64::NAN.to_bits(),
        f64::INFINITY.to_bits(),
        f64::NEG_INFINITY.to_bits(),
    );
    assert_eq!(v.floor(), v);
    assert_eq!(v.ceil(), v);
}

#[test]
fn rounding_matches_the_host_float_library() {
    let samples: Vec<f64> = vec![
        0.0,
        -0.0,
        0.25,
        -0.25,
        0.5,
        -0.5,
        1.0,
        -1.0,
        1.5,
        -1.5,
        2.25,
        -2.25,
        5.3,
        -5.3,
        5.5,
        -5.5,
        5.7,
        -5.7,
        1234.0,
        -1234.0,
        1234.0625,
        -1234.0625,
        1e-320,
        -1e-320,
        f64::MIN_POSITIVE,
        -f64::MIN_POSITIVE,
        4503599627370495.5,
        -4503599627370495.5,
        4503599627370496.0,
        -4503599627370496.0,
        9007199254740991.0,
        -9007199254740991.0,
        1e300,
        -1e300,
        f64::MAX,
        f64::MIN,
    ];
    for v in samples {
        assert_eq!(
            floor_bits(v.to_bits()),
            v.floor().to_bits(),
            "floor disagrees at {v}"
        );
        assert_eq!(
            ceil_bits(v.to_bits()),
            v.ceil().to_bits(),
            "ceil disagrees at {v}"
        );
    }
}

#[test]
fn rounding_sweep_across_magnitudes() {
    for i in 0..10000u32 {
        let v = (i as f64) * 0.37 - 1850.0;
        assert_eq!(floor_bits(v.to_bits()), v.floor().to_bits());
        assert_eq!(ceil_bits(v.to_bits()), v.ceil().to_bits());
        let w = v * 1.0e-5;
        assert_eq!(floor_bits(w.to_bits()), w.floor().to_bits());
        assert_eq!(ceil_bits(w.to_bits()), w.ceil().to_bits());
        let u = v * 3.0e13;
        assert_eq!(floor_bits(u.to_bits()), u.floor().to_bits());
        assert_eq!(ceil_bits(u.to_bits()), u.ceil().to_bits());
    }
}
