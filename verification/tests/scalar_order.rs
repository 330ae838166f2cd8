use raytracing::scalar::Scalar;

fn s(x: f64) -> Scalar {
    Scalar::from_bits(x.to_bits())
}

fn samples() -> Vec<f64> {
    vec![
        0.0,
        -0.0,
        f64::from_bits(1),
        -f64::from_bits(1),
        f64::MIN_POSITIVE,
        -f64::MIN_POSITIVE,
        1e-160,
        1e-8,
        -1e-8,
        0.001,
        0.5,
        -0.5,
        0.999,
        1.0,
        -1.0,
        1.0 + f64::EPSILON,
        1.5,
        2.0,
        255.744,
        1000.0,
        -1000.0,
        f64::MAX,
        f64::MIN,
        f64::INFINITY,
        f64::NEG_INFINITY,
        f64::NAN,
        -f64::NAN,
        f64::from_bits(0x7FF0_0000_0000_0001),
    ]
}

#[test]
fn lt_agrees_with_hardware_on_all_pairs() {
    for &a in &samples() {
        for &b in &samples() {
            assert_eq!(s(a).lt(s(b)), a < b, "{a:?} < {b:?}");
        }
    }
}

#[test]
fn le_agrees_with_hardware_on_all_pairs() {
    for &a in &samples() {
        for &b in &samples() {
            assert_eq!(s(a).le(s(b)), a <= b, "{a:?} <= {b:?}");
        }
    }
}

#[test]
fn gt_and_ge_agree_with_hardware_on_all_pairs() {
    for &a in &samples() {
        for &b in &samples() {
            assert_eq!(s(a).gt(s(b)), a > b, "{a:?} > {b:?}");
            assert_eq!(s(a).ge(s(b)), a >= b, "{a:?} >= {b:?}");
        }
    }
}

#[test]
fn the_two_zeros_are_equal_in_order_but_not_in_bits() {
    let plus = s(0.0);
    let minus = s(-0.0);
    assert!(!plus.lt(minus));
    assert!(!minus.lt(plus));
    assert!(plus.le(minus));
    assert!(minus.le(plus));
    assert_ne!(plus, minus);
}

#[test]
fn nan_is_unordered() {
    let nan = s(f64::NAN);
    for &b in &samples() {
        assert!(!nan.lt(s(b)));
        assert!(!nan.le(s(b)));
        assert!(!s(b).lt(nan));
        assert!(!s(b).le(nan));
    }
    assert!(nan.is_nan());
    assert!(!s(f64::INFINITY).is_nan());
    assert!(!s(f64::NEG_INFINITY).is_nan());
    assert!(!s(0.0).is_nan());
}

#[test]
fn is_nan_agrees_with_hardware() {
    for &a in &samples() {
        assert_eq!(s(a).is_nan(), a.is_nan());
    }
}

#[test]
fn negated_is_the_product_with_minus_one() {
    for &a in &samples() {
        let n = s(a).negated();
        if a.is_nan() {
            assert!(n.is_nan());
        } else {
            assert_eq!(n.to_bits(), (a * -1.0).to_bits());
            assert_eq!(n.to_bits(), (-a).to_bits());
        }
        assert_eq!(n.negated(), s(a));
    }
}

#[test]
fn abs_agrees_with_hardware() {
    for &a in &samples() {
        assert_eq!(s(a).abs().to_bits(), a.abs().to_bits());
    }
}

#[test]
fn named_constants_have_their_values() {
    assert_eq!(f64::from_bits(Scalar::zero().to_bits()), 0.0);
    assert_eq!(Scalar::zero().to_bits(), 0);
    assert_eq!(f64::from_bits(Scalar::one().to_bits()), 1.0);
    assert_eq!(f64::from_bits(Scalar::infinity().to_bits()), f64::INFINITY);
    assert_eq!(f64::from_bits(Scalar::neg_infinity().to_bits()), f64::NEG_INFINITY);
    assert_eq!(Scalar::from_bits(42).to_bits(), 42);
    assert_eq!(s(-2.5).magnitude_bits(), 2.5f64.to_bits());
}

#[test]
fn order_is_transitive_on_samples() {
    let v = samples();
    for &a in &v {
        for &b in &v {
            for &c in &v {
                if s(a).lt(s(b)) && s(b).lt(s(c)) {
                    assert!(s(a).lt(s(c)));
                }
                if s(a).le(s(b)) && s(b).lt(s(c)) {
                    assert!(s(a).lt(s(c)));
                }
            }
        }
    }
}

#[test]
fn min_is_the_smaller_and_skips_a_nan() {
    assert_eq!(s(0.3).min(s(1.0)), s(0.3));
    assert_eq!(s(1.7).min(s(1.0)), s(1.0));
    assert_eq!(s(1.0).min(s(1.0)), s(1.0));
    assert_eq!(s(-2.0).min(s(1.0)), s(-2.0));
    assert_eq!(s(f64::NAN).min(s(1.0)), s(1.0));
    assert_eq!(s(1.0).min(s(f64::NAN)), s(1.0));
    assert!(s(f64::NAN).min(s(f64::NAN)).is_nan());
    assert_eq!(s(f64::INFINITY).min(s(1.0)), s(1.0));
    assert_eq!(s(f64::NEG_INFINITY).min(s(1.0)), s(f64::NEG_INFINITY));
}

#[test]
fn min_agrees_with_hardware() {
    for &a in &samples() {
        for &b in &samples() {
            let got = f64::from_bits(s(a).min(s(b)).to_bits());
            let expected = a.min(b);
            if expected.is_nan() {
                assert!(got.is_nan());
            } else {
                // equal as numbers; of the two zeros either may be given
                assert_eq!(got, expected, "min({a:?}, {b:?})");
            }
        }
    }
}

#[test]
fn order_agrees_with_hardware_on_many_encodings() {
    let mut state: u64 = 0xD1B5_4A32_D192_ED03;
    let mut next = move || {
        state ^= state << 13;
        state ^= state >> 7;
        state ^= state << 17;
        state
    };
    for round in 0..20000 {
        let a = next();
        // every fourth pair shares sign and exponent, so that fractions decide
        let b = if round % 4 == 0 { (a & 0xFFF0_0000_0000_0000) | (next() >> 12) } else { next() };
        let (x, y) = (f64::from_bits(a), f64::from_bits(b));
        let (p, q) = (Scalar::from_bits(a), Scalar::from_bits(b));
        assert_eq!(p.lt(q), x < y);
        assert_eq!(p.le(q), x <= y);
        assert_eq!(p.gt(q), x > y);
        assert_eq!(p.ge(q), x >= y);
        assert_eq!(p.is_nan(), x.is_nan());
        assert_eq!(p.abs().to_bits(), x.abs().to_bits());
    }
}
