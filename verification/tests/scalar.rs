use raytracer::scalar::{Scalar, INFINITY_BITS, MAX_BITS, ONE_BITS, SIGN_BIT};
use raytracer::vec3::Vec3;

fn s(x: f64) -> Scalar {
    Scalar::from_bits(x.to_bits())
}

fn f(x: Scalar) -> f64 {
    f64::from_bits(x.to_bits())
}

fn samples() -> Vec<f64> {
    vec![
        0.0,
        -0.0,
        1.0,
        -1.0,
        0.5,
        -0.5,
        1.0e-310,
        -1.0e-310,
        f64::MAX,
        f64::MIN,
        f64::MIN_POSITIVE,
        f64::INFINITY,
        f64::NEG_INFINITY,
        f64::NAN,
        -f64::NAN,
        3.25,
        -1234.5,
    ]
}

#[test]
fn comparisons_agree_with_the_hardware() {
    for a in samples() {
        for b in samples() {
            assert_eq!(s(a).lt(s(b)), a < b, "{} < {}", a, b);
            assert_eq!(s(a).le(s(b)), a <= b, "{} <= {}", a, b);
            assert_eq!(s(a).gt(s(b)), a > b, "{} > {}", a, b);
            assert_eq!(s(a).ge(s(b)), a >= b, "{} >= {}", a, b);
            assert_eq!(s(a).equals(s(b)), a == b, "{} == {}", a, b);
        }
    }
}

#[test]
fn minimum_and_maximum_agree_with_the_hardware() {
    for a in samples() {
        for b in samples() {
            let low = f(s(a).min(s(b)));
            let high = f(s(a).max(s(b)));
            assert_eq!(low.is_nan(), a.min(b).is_nan());
            assert_eq!(high.is_nan(), a.max(b).is_nan());
            if !low.is_nan() {
                assert_eq!(low, a.min(b));
                assert_eq!(high, a.max(b));
            }
        }
    }
}

#[test]
fn minimum_and_maximum_tell_the_zeros_apart() {
    assert_eq!(s(0.0).min(s(-0.0)), s(-0.0));
    assert_eq!(s(-0.0).min(s(0.0)), s(-0.0));
    assert_eq!(s(0.0).max(s(-0.0)), s(0.0));
    assert_eq!(s(-0.0).max(s(0.0)), s(0.0));
}

#[test]
fn minimum_and_maximum_do_not_depend_on_order_or_grouping() {
    for a in samples() {
        for b in samples() {
            assert_eq!(s(a).min(s(b)), s(b).min(s(a)));
            assert_eq!(s(a).max(s(b)), s(b).max(s(a)));
            for c in samples() {
                assert_eq!(s(a).min(s(b)).min(s(c)), s(a).min(s(b).min(s(c))));
                assert_eq!(s(a).max(s(b)).max(s(c)), s(a).max(s(b).max(s(c))));
            }
        }
        assert_eq!(s(a).min(s(a)), s(a));
        assert_eq!(s(a).max(s(a)), s(a));
    }
}

#[test]
fn negation_and_absolute_value_agree_with_the_hardware() {
    for a in samples() {
        assert_eq!(s(a).neg().to_bits(), (-a).to_bits());
        assert_eq!(s(a).abs().to_bits(), a.abs().to_bits());
        assert_eq!(s(a).is_nan(), a.is_nan());
        assert_eq!(s(a).is_negative(), a.is_sign_negative());
        assert_eq!(s(a).neg().neg(), s(a));
    }
}

#[test]
fn order_key_is_the_signed_magnitude() {
    assert_eq!(s(0.0).ordinal(), 0);
    assert_eq!(s(-0.0).ordinal(), 0);
    assert_eq!(s(1.0).ordinal(), ONE_BITS as i64);
    assert_eq!(s(-1.0).ordinal(), -(ONE_BITS as i64));
    assert_eq!(s(f64::INFINITY).ordinal(), INFINITY_BITS as i64);
    assert_eq!(s(f64::MIN).ordinal(), -(MAX_BITS as i64));
    assert_eq!(Scalar::from_bits(u64::MAX).ordinal(), -(i64::MAX));
    assert_eq!(Scalar::from_bits(SIGN_BIT - 1).ordinal(), i64::MAX);
}

#[test]
fn named_values_are_what_they_say() {
    assert_eq!(f(Scalar::zero()), 0.0);
    assert!(!Scalar::zero().is_negative());
    assert_eq!(f(Scalar::one()), 1.0);
    assert_eq!(f(Scalar::infinity()), f64::INFINITY);
    assert_eq!(f(Scalar::neg_infinity()), f64::NEG_INFINITY);
    assert_eq!(f(Scalar::largest()), f64::MAX);
    assert_eq!(f(Scalar::smallest()), f64::MIN);
    assert_eq!(Scalar::from_bits(SIGN_BIT).to_bits(), (-0.0f64).to_bits());
    assert_eq!(f(Scalar::from_bits(raytracer::ray::SHADOW_EPSILON_BITS)), 0.0001);
}

#[test]
fn vector_components_and_signs() {
    let v = Vec3::new(s(1.0), s(-2.0), s(3.0));
    assert_eq!(v.get(0), s(1.0));
    assert_eq!(v.get(1), s(-2.0));
    assert_eq!(v.get(2), s(3.0));
    assert_eq!(v.neg(), Vec3::new(s(-1.0), s(2.0), s(-3.0)));
    assert_eq!(v.abs(), Vec3::new(s(1.0), s(2.0), s(3.0)));
    assert_eq!(Vec3::zeros(), Vec3::new(s(0.0), s(0.0), s(0.0)));
    assert!(!v.has_nan());
    assert!(Vec3::new(s(1.0), s(f64::NAN), s(3.0)).has_nan());
    let w = Vec3::new(s(0.0), s(5.0), s(-7.0));
    assert_eq!(v.component_min(w), Vec3::new(s(0.0), s(-2.0), s(-7.0)));
    assert_eq!(v.component_max(w), Vec3::new(s(1.0), s(5.0), s(3.0)));
}

#[test]
fn largest_component_compares_from_the_first_on() {
    let largest = |x: f64, y: f64, z: f64| f(Vec3::new(s(x), s(y), s(z)).max());
    assert_eq!(largest(-1.0, 2.0, 3.0), 3.0);
    assert_eq!(largest(-1.0, -2.0, -3.0), -1.0);
    assert_eq!(largest(5.0, 2.0, 3.0), 5.0);
    assert_eq!(largest(f64::NAN, 2.0, 1.0), 2.0);
    assert_eq!(largest(1.0, f64::NAN, 0.5), 0.5);
    assert!(largest(1.0, 2.0, f64::NAN).is_nan());
    for x in samples() {
        for y in samples() {
            for z in samples() {
                let ours = largest(x, y, z);
                let theirs = nalgebra::Vector3::new(x, y, z).max();
                assert_eq!(ours.to_bits(), theirs.to_bits(), "{} {} {}", x, y, z);
            }
        }
    }
}
