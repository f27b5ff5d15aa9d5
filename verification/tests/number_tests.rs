use purp_value::{Number, NumberType};

// Cross-width lossless reads are value-based, not tag-based.

#[test]
fn get_u8_accepts_a_fitting_wider_value() {
    assert_eq!(Number::from(42i32).get_u8(), Some(42));
}

#[test]
fn get_u8_rejects_sign_loss() {
    assert_eq!(Number::from(-1i32).get_u8(), None);
}

#[test]
fn cross_width_reads_agree() {
    let v: i64 = 300;
    assert_eq!(
        Number::from(v).get_u16(),
        Number::from(v as u16).get_u16()
    );
    assert_eq!(Number::from(v).get_u8(), None);
    assert_eq!(Number::from(v as u16).get_i64(), Some(300));
}

#[test]
fn get_at_the_extremes() {
    assert_eq!(Number::from(u128::MAX).get_u128(), Some(u128::MAX));
    assert_eq!(Number::from(u128::MAX).get_i128(), None);
    assert_eq!(Number::from(i128::MIN).get_i128(), Some(i128::MIN));
    assert_eq!(Number::from(i128::MIN).get_i64(), None);
    assert_eq!(Number::from(-128i8).get_i8(), Some(-128));
    assert_eq!(Number::from(255u8).get_i8(), None);
}

#[test]
fn unsafe_reads_return_the_value() {
    assert_eq!(Number::from(42i32).get_u8_unsafe(), 42);
    assert_eq!(Number::from(7u8).get_i64_unsafe(), 7);
}

// The origin tag is remembered and reported.

#[test]
fn number_type_follows_the_setter() {
    let mut n = Number::new();
    assert_eq!(n.number_type(), NumberType::Unknown);
    n.set_u8(1);
    assert_eq!(n.number_type(), NumberType::U8);
    n.set_i64(-1);
    assert_eq!(n.number_type(), NumberType::I64);
    n.set_f32_bits(1.5f32.to_bits());
    assert_eq!(n.number_type(), NumberType::F32);
    n.set_f64_bits(2.5f64.to_bits());
    assert_eq!(n.number_type(), NumberType::F64);
}

#[test]
fn is_width_checks_the_tag_not_the_value() {
    let n = Number::from(42i32);
    assert!(n.is_i32());
    assert!(!n.is_u8());
    assert_eq!(n.get_u8(), Some(42));
}

#[test]
fn classification_by_tag() {
    assert!(Number::from(1u64).is_integer());
    assert!(Number::from(1u64).is_unsigned());
    assert!(!Number::from(1u64).is_signed());
    assert!(Number::from(-1i8).is_signed());
    let f = Number::F64Bits(2.5f64.to_bits());
    assert!(f.is_float());
    assert!(f.is_signed());
    assert!(!f.is_integer());
}

#[test]
fn classification_by_value() {
    assert!(Number::from(0u8).is_zero());
    assert!(!Number::from(0u8).is_positive());
    assert!(!Number::from(0u8).is_negative());
    assert!(Number::from(3i16).is_positive());
    assert!(Number::from(-3i16).is_negative());
    let negative_zero = Number::F64Bits((-0.0f64).to_bits());
    assert!(negative_zero.is_zero());
    assert!(!negative_zero.is_negative());
    let f = Number::F32Bits((-1.5f32).to_bits());
    assert!(f.is_negative());
    assert!(!f.is_zero());
}

// Cleaning narrows the representation without moving the value.

#[test]
fn clean_narrows_to_the_smallest_tag() {
    let mut n = Number::from(7i64);
    n.clean();
    assert_eq!(n.number_type(), NumberType::U8);
    assert_eq!(n.get_i64(), Some(7));

    let mut m = Number::from(-300i64);
    m.clean();
    assert_eq!(m.number_type(), NumberType::I16);
    assert_eq!(m.get_i64(), Some(-300));
}

#[test]
fn clean_is_idempotent() {
    let mut n = Number::from(70000u64);
    n.clean();
    let first = n.clone();
    n.clean();
    assert_eq!(n, first);
    assert_eq!(n.number_type(), NumberType::U32);
}

#[test]
fn clean_leaves_floats_and_unset_cells_alone() {
    let mut f = Number::F32Bits(1.5f32.to_bits());
    f.clean();
    assert_eq!(f.number_type(), NumberType::F32);
    assert_eq!(f.get_f32_bits(), Some(1.5f32.to_bits()));

    let mut u = Number::new();
    u.clean();
    assert_eq!(u.number_type(), NumberType::Unknown);
}

// Equality is logical: the tag does not matter, the value does.

#[test]
fn equality_ignores_the_origin_width() {
    assert_eq!(Number::from(3i32), Number::from(3u8));
    assert_eq!(Number::from(0u128), Number::from(0i8));
    assert_ne!(Number::from(3i32), Number::from(4i32));
    assert_ne!(Number::from(-1i32), Number::from(1u32));
}

#[test]
fn floats_compare_by_tag_and_bits() {
    assert_eq!(
        Number::F64Bits(2.5f64.to_bits()),
        Number::F64Bits(2.5f64.to_bits())
    );
    assert_ne!(
        Number::F32Bits(2.5f32.to_bits()),
        Number::F64Bits(2.5f64.to_bits())
    );
    assert_ne!(Number::F64Bits(3.0f64.to_bits()), Number::from(3u8));
    assert_eq!(Number::new(), Number::new());
    assert_ne!(Number::new(), Number::from(0u8));
}

#[test]
fn float_bits_round_trip() {
    let mut n = Number::new();
    n.set_f64_bits(3.14f64.to_bits());
    assert_eq!(f64::from_bits(n.get_f64_bits().unwrap()), 3.14);
    assert_eq!(n.get_u8(), None);
    assert_eq!(n.get_f32_bits(), None);
}

#[test]
fn clean_narrowing_boundaries() {
    let cases: [(i128, NumberType); 8] = [
        (255, NumberType::U8),
        (256, NumberType::U16),
        (65535, NumberType::U16),
        (65536, NumberType::U32),
        (-128, NumberType::I8),
        (-129, NumberType::I16),
        (4294967296, NumberType::U64),
        (-9223372036854775809, NumberType::I128),
    ];
    for (value, expected) in cases {
        let mut n = Number::from(value);
        n.clean();
        assert_eq!(n.number_type(), expected);
        assert_eq!(n.get_i128(), Some(value));
    }
}

#[test]
fn decimal_text_is_the_logical_value() {
    assert_eq!(Number::from(0u8).to_decimal_string(), "0");
    assert_eq!(Number::from(1234567890123i64).to_decimal_string(), "1234567890123");
    assert_eq!(Number::from(-45i8).to_decimal_string(), "-45");
    assert_eq!(
        Number::from(i128::MIN).to_decimal_string(),
        "-170141183460469231731687303715884105728"
    );
    assert_eq!(
        Number::from(u128::MAX).to_decimal_string(),
        "340282366920938463463374607431768211455"
    );
}
