use vector3::{Vector3, Vector3Error};

#[test]
fn default_values() {
    let zero = Vector3::default();
    assert_eq!(
        zero,
        Vector3::new(0f64.to_bits(), 0f64.to_bits(), 0f64.to_bits())
    );
}

#[test]
fn to_bytes_and_back() {
    let vector_a = Vector3 {
        x: 4.0f64.to_bits(),
        y: 4.0f64.to_bits(),
        z: 4.0f64.to_bits(),
    };

    assert_eq!(
        vec![
            64, 16, 0, 0, 0, 0, 0, 0, 64, 16, 0, 0, 0, 0, 0, 0, 64, 16, 0, 0, 0, 0, 0, 0
        ],
        vector_a.to_be_bytes()
    );

    let bytes = vector_a.to_be_bytes();
    let vector_b = Vector3::from_be_bytes(&bytes);
    assert_eq!(vector_a, vector_b.unwrap());
}

#[test]
fn twenty_three_bytes_are_rejected() {
    let bytes: Vec<u8> = vec![0u8; 23];
    assert_eq!(
        Vector3::from_be_bytes(&bytes),
        Err(Vector3Error::LengthMismatch)
    );
}

#[test]
fn twenty_five_bytes_are_rejected() {
    let bytes: Vec<u8> = vec![0u8; 25];
    assert_eq!(
        Vector3::from_be_bytes(&bytes),
        Err(Vector3Error::LengthMismatch)
    );
}

#[test]
fn empty_buffer_is_rejected() {
    let bytes: Vec<u8> = Vec::new();
    assert_eq!(
        Vector3::from_be_bytes(&bytes),
        Err(Vector3Error::LengthMismatch)
    );
}

#[test]
fn nan_and_infinity_round_trip_bitwise() {
    let v = Vector3::new(
        f64::NAN.to_bits(),
        f64::INFINITY.to_bits(),
        f64::NEG_INFINITY.to_bits(),
    );
    let bytes = v.to_be_bytes();
    let back = Vector3::from_be_bytes(&bytes).unwrap();
    // The exact bit pattern of every component survives the round trip,
    // even though a NaN component is unequal to itself as a float.
    assert_eq!(v, back);
    assert!(!v.float_eq(&back));
}

#[test]
fn finite_round_trip_is_float_equal() {
    let v = Vector3::new(1.5f64.to_bits(), (-4.3f64).to_bits(), 2.7f64.to_bits());
    let bytes = v.to_be_bytes();
    let back = Vector3::from_be_bytes(&bytes).unwrap();
    assert_eq!(v, back);
    assert!(v.float_eq(&back));
}

#[test]
fn u64_codec_is_big_endian() {
    let bytes = vector3::u64_to_be_bytes(0x0102030405060708);
    assert_eq!(bytes, vec![1, 2, 3, 4, 5, 6, 7, 8]);
    assert_eq!(vector3::u64_from_be_bytes(&bytes), 0x0102030405060708);
}

#[test]
fn signed_zeroes_are_float_equal_but_not_bitwise_equal() {
    let pos = Vector3::new(0.0f64.to_bits(), 0.0f64.to_bits(), 0.0f64.to_bits());
    let neg = Vector3::new((-0.0f64).to_bits(), 0.0f64.to_bits(), (-0.0f64).to_bits());
    assert!(pos.float_eq(&neg));
    assert_ne!(pos, neg);
}

#[test]
fn wire_format_matches_the_std_encoding() {
    let vals: Vec<f64> = vec![
        0.0,
        -0.0,
        1.5,
        -4.3,
        2.7e-8,
        1e300,
        -1e-320,
        f64::NAN,
        f64::INFINITY,
        f64::NEG_INFINITY,
    ];
    for &a in &vals {
        let v = Vector3::new(a.to_bits(), (-a).to_bits(), (a * 3.0).to_bits());
        let mut expected: Vec<u8> = Vec::new();
        expected.extend_from_slice(&a.to_be_bytes());
        expected.extend_from_slice(&(-a).to_be_bytes());
        expected.extend_from_slice(&(a * 3.0).to_be_bytes());
        assert_eq!(v.to_be_bytes(), expected);
        let back = Vector3::from_be_bytes(&expected).unwrap();
        assert_eq!(back, v);
    }
}

#[test]
fn new_zero_is_positive_zero() {
    let zero = Vector3::new_zero();
    assert_eq!(zero.x, 0.0f64.to_bits());
    assert_eq!(zero.y, 0.0f64.to_bits());
    assert_eq!(zero.z, 0.0f64.to_bits());
    assert!(zero.float_eq(&zero));
}
