use three_mass_problem::camera::farthest;
use three_mass_problem::scalar::{Scalar, INFINITY_BITS, SIGN_BIT};
use three_mass_problem::vector::Vector2D;

fn q(x: f64) -> Scalar {
    Scalar::from_bits(x.to_bits())
}

fn num(s: Scalar) -> f64 {
    f64::from_bits(s.to_bits())
}

fn samples() -> Vec<f64> {
    vec![
        0.0,
        -0.0,
        1.0,
        -1.0,
        0.5,
        -0.5,
        2.0,
        1.0e6,
        -1.0e6,
        1.0e22,
        6.67430e-11,
        5.97219e24,
        f64::MIN_POSITIVE,
        -f64::MIN_POSITIVE,
        f64::from_bits(1),
        f64::from_bits(SIGN_BIT + 1),
        f64::MAX,
        f64::MIN,
        f64::INFINITY,
        f64::NEG_INFINITY,
        f64::NAN,
        -f64::NAN,
        f64::from_bits(0x7ff0_0000_0000_0001),
        f64::from_bits(0xffff_ffff_ffff_ffff),
    ]
}

fn same_number(a: f64, b: f64) -> bool {
    (a.is_nan() && b.is_nan()) || a == b
}

#[test]
fn bits_round_trip() {
    assert_eq!(Scalar::from_bits(0x3ff0_0000_0000_0000).to_bits(), 0x3ff0_0000_0000_0000);
    assert_eq!(num(Scalar::from_bits(0x3ff0_0000_0000_0000)), 1.0);
    assert_eq!(q(-2.0).bits, 0xc000_0000_0000_0000);
    assert_eq!(INFINITY_BITS, f64::INFINITY.to_bits());
    assert_eq!(SIGN_BIT, (-0.0f64).to_bits());
}

#[test]
fn classification_agrees_with_the_hardware() {
    for x in samples() {
        assert_eq!(q(x).is_nan(), x.is_nan(), "is_nan of {:?}", x);
        assert_eq!(q(x).is_finite(), x.is_finite(), "is_finite of {:?}", x);
        assert_eq!(q(x).is_positive(), x > 0.0, "is_positive of {:?}", x);
    }
}

#[test]
fn zero_and_nan_are_not_positive() {
    assert!(!q(0.0).is_positive());
    assert!(!q(-0.0).is_positive());
    assert!(!q(f64::NAN).is_positive());
    assert!(!q(-1.0).is_positive());
    assert!(!q(f64::NEG_INFINITY).is_positive());
    assert!(q(f64::from_bits(1)).is_positive());
    assert!(q(f64::INFINITY).is_positive());
}

#[test]
fn infinities_and_nans_are_not_finite() {
    assert!(q(0.0).is_finite());
    assert!(q(f64::MAX).is_finite());
    assert!(q(f64::MIN).is_finite());
    assert!(!q(f64::INFINITY).is_finite());
    assert!(!q(f64::NEG_INFINITY).is_finite());
    assert!(!q(f64::NAN).is_finite());
}

#[test]
fn order_agrees_with_the_hardware() {
    for a in samples() {
        for b in samples() {
            assert_eq!(q(a).lt(q(b)), a < b, "{:?} < {:?}", a, b);
        }
    }
}

#[test]
fn the_two_zeros_are_equal_numbers() {
    assert!(!q(0.0).lt(q(-0.0)));
    assert!(!q(-0.0).lt(q(0.0)));
    assert!(q(-f64::MIN_POSITIVE).lt(q(-0.0)));
    assert!(q(0.0).lt(q(f64::from_bits(1))));
}

#[test]
fn negation_agrees_with_the_hardware() {
    for x in samples() {
        assert_eq!(q(x).negated().to_bits(), (-x).to_bits(), "negation of {:?}", x);
    }
}

#[test]
fn negation_flips_only_the_sign_bit() {
    assert_eq!(q(1.0).negated(), q(-1.0));
    assert_eq!(q(0.0).negated().bits, SIGN_BIT);
    assert_eq!(q(-0.0).negated().bits, 0);
    assert_eq!(Scalar::from_bits(0x7ff8_0000_0000_0001).negated().bits, 0xfff8_0000_0000_0001);
    for x in samples() {
        assert_eq!(q(x).negated().negated(), q(x));
    }
}

#[test]
fn max_agrees_with_the_hardware() {
    for a in samples() {
        for b in samples() {
            let got: f64 = num(q(a).max(q(b)));
            assert!(same_number(got, a.max(b)), "max({:?}, {:?}) gave {:?}", a, b, got);
        }
    }
}

#[test]
fn min_agrees_with_the_hardware() {
    for a in samples() {
        for b in samples() {
            let got: f64 = num(q(a).min(q(b)));
            assert!(same_number(got, a.min(b)), "min({:?}, {:?}) gave {:?}", a, b, got);
        }
    }
}

#[test]
fn max_and_min_skip_a_nan() {
    assert_eq!(q(f64::NAN).max(q(3.0)), q(3.0));
    assert_eq!(q(3.0).max(q(f64::NAN)), q(3.0));
    assert_eq!(q(f64::NAN).min(q(3.0)), q(3.0));
    assert_eq!(q(3.0).min(q(f64::NAN)), q(3.0));
    assert!(q(f64::NAN).max(q(f64::NAN)).is_nan());
    assert_eq!(q(2.0).max(q(3.0)), q(3.0));
    assert_eq!(q(2.0).min(q(3.0)), q(2.0));
    assert_eq!(q(-2.0).max(q(-3.0)), q(-2.0));
    assert_eq!(q(-2.0).min(q(-3.0)), q(-3.0));
}

#[test]
fn vector_negation_negates_both_components() {
    let v = Vector2D::new(q(3.0), q(-4.0));
    assert_eq!(v.x, q(3.0));
    assert_eq!(v.y, q(-4.0));
    let w = v.negated();
    assert_eq!(w, Vector2D::new(q(-3.0), q(4.0)));
    assert_eq!(w.negated(), v);
    let z = Vector2D::new(q(0.0), q(-0.0)).negated();
    assert_eq!(z.x.bits, SIGN_BIT);
    assert_eq!(z.y.bits, 0);
}

#[test]
fn farthest_of_nothing_is_the_floor() {
    assert_eq!(farthest(&Vec::new(), q(1.0)), q(1.0));
}

#[test]
fn farthest_picks_the_largest_distance() {
    let distances = vec![q(0.5), q(3.0), q(2.0)];
    assert_eq!(farthest(&distances, q(1.0)), q(3.0));
    let close = vec![q(0.5), q(0.25), q(0.0)];
    assert_eq!(farthest(&close, q(1.0)), q(1.0));
    let tie = vec![q(1.0), q(1.0)];
    assert_eq!(farthest(&tie, q(1.0)), q(1.0));
}

#[test]
fn farthest_skips_what_is_not_a_number() {
    let distances = vec![q(f64::NAN), q(7.0), q(f64::NAN), q(4.0)];
    assert_eq!(farthest(&distances, q(1.0)), q(7.0));
    let only = vec![q(f64::NAN)];
    assert_eq!(farthest(&only, q(1.0)), q(1.0));
}

#[test]
fn farthest_agrees_with_a_running_maximum() {
    let values = samples();
    let distances: Vec<Scalar> = values.iter().map(|x| q(*x)).collect();
    let mut expected: f64 = 1.0;
    for x in values {
        if x > expected {
            expected = x;
        }
    }
    assert_eq!(num(farthest(&distances, q(1.0))), expected);
}
