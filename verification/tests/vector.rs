use renderer3d::vector::{Scalar, Vec3};

fn scalar(value: f64) -> Scalar {
    Scalar::from_bits(value.to_bits())
}

fn number(scalar: Scalar) -> f64 {
    f64::from_bits(scalar.bits)
}

fn samples() -> Vec<f64> {
    vec![
        f64::NEG_INFINITY,
        f64::MIN,
        -9.0,
        -1.5,
        -1.0,
        -f64::MIN_POSITIVE,
        -5e-324,
        -0.0,
        0.0,
        5e-324,
        f64::MIN_POSITIVE,
        0.5,
        1.0,
        1.0000000000000002,
        5.0,
        9.0,
        f64::MAX,
        f64::INFINITY,
        f64::NAN,
        -f64::NAN,
    ]
}

#[test]
fn zero_and_one_are_the_numbers_zero_and_one() {
    assert_eq!(number(Scalar::zero()), 0.0);
    assert!(number(Scalar::zero()).is_sign_positive());
    assert_eq!(number(Scalar::one()), 1.0);
    let zero = Vec3::zero();
    let one = Vec3::one();
    assert_eq!((number(zero.x()), number(zero.y()), number(zero.z())), (0.0, 0.0, 0.0));
    assert_eq!((number(one.x()), number(one.y()), number(one.z())), (1.0, 1.0, 1.0));
}

#[test]
fn negated_is_the_negative() {
    for value in samples() {
        assert_eq!(scalar(value).negated().bits, (-value).to_bits());
        assert_eq!(scalar(value).negated().negated(), scalar(value));
    }
}

#[test]
fn is_nan_and_is_zero_agree_with_the_numbers() {
    for value in samples() {
        assert_eq!(scalar(value).is_nan(), value.is_nan());
        assert_eq!(scalar(value).is_zero(), value == 0.0);
        assert_eq!(scalar(value).is_finite(), value.is_finite());
        assert_eq!(scalar(value).is_negative(), value < 0.0);
    }
}

#[test]
fn equals_and_less_than_agree_with_the_numbers() {
    for a in samples() {
        for b in samples() {
            assert_eq!(scalar(a).equals(&scalar(b)), a == b, "{a} == {b}");
            assert_eq!(scalar(a).less_than(&scalar(b)), a < b, "{a} < {b}");
        }
    }
}

#[test]
fn total_order_key_orders_as_total_cmp() {
    for a in samples() {
        for b in samples() {
            let keys = scalar(a).total_order_key().cmp(&scalar(b).total_order_key());
            assert_eq!(keys, a.total_cmp(&b), "{a} against {b}");
        }
    }
}

#[test]
fn total_order_key_has_the_documented_ends() {
    assert_eq!(scalar(0.0).total_order_key(), 0);
    assert_eq!(scalar(-0.0).total_order_key(), -1);
    assert_eq!(Scalar::from_bits(u64::MAX).total_order_key(), i64::MIN);
    assert_eq!(Scalar::from_bits(i64::MAX as u64).total_order_key(), i64::MAX);
    assert_eq!(scalar(1.0).total_order_key(), 0x3FF0_0000_0000_0000);
}

#[test]
fn vectors_compare_coordinate_by_coordinate() {
    let a = Vec3(scalar(0.0), scalar(1.0), scalar(-2.5));
    let b = Vec3(scalar(-0.0), scalar(1.0), scalar(-2.5));
    let c = Vec3(scalar(0.0), scalar(1.0), scalar(2.5));
    let d = Vec3(scalar(f64::NAN), scalar(1.0), scalar(2.5));
    assert!(a.equals(&b));
    assert!(!a.equals(&c));
    assert!(!d.equals(&d));
    assert_ne!(a, b);
}

#[test]
fn zero_vector_may_have_zeros_of_either_sign() {
    assert!(Vec3::zero().is_zero());
    assert!(Vec3(scalar(-0.0), scalar(0.0), scalar(-0.0)).is_zero());
    assert!(!Vec3(scalar(0.0), scalar(5e-324), scalar(0.0)).is_zero());
    assert!(!Vec3(scalar(f64::NAN), scalar(0.0), scalar(0.0)).is_zero());
    assert!(!Vec3::one().is_zero());
}
