use raytracing::interval::Interval;
use raytracing::scalar::Scalar;

fn s(x: f64) -> Scalar {
    Scalar::from_bits(x.to_bits())
}

fn range(min: f64, max: f64) -> Interval {
    Interval { min: s(min), max: s(max) }
}

fn points() -> Vec<f64> {
    vec![
        f64::NEG_INFINITY,
        -10.0,
        -1.0,
        -0.0,
        0.0,
        0.001,
        0.5,
        0.999,
        1.0,
        2.0,
        10.0,
        f64::INFINITY,
        f64::NAN,
    ]
}

#[test]
fn default_is_empty() {
    let i = Interval::default();
    assert_eq!(f64::from_bits(i.min.to_bits()), f64::INFINITY);
    assert_eq!(f64::from_bits(i.max.to_bits()), f64::NEG_INFINITY);
    for &x in &points() {
        assert!(!i.conatins(s(x)));
        assert!(!i.surrounds(s(x)));
    }
}

#[test]
fn contains_counts_the_ends_in() {
    let i = range(-1.0, 2.0);
    assert!(i.conatins(s(-1.0)));
    assert!(i.conatins(s(2.0)));
    assert!(i.conatins(s(0.0)));
    assert!(!i.conatins(s(-1.0000000000000002)));
    assert!(!i.conatins(s(2.0000000000000004)));
    assert!(!i.conatins(s(f64::NAN)));
}

#[test]
fn surrounds_leaves_the_ends_out() {
    let i = range(-1.0, 2.0);
    assert!(!i.surrounds(s(-1.0)));
    assert!(!i.surrounds(s(2.0)));
    assert!(i.surrounds(s(0.0)));
    assert!(i.surrounds(s(-0.9999999999999999)));
    assert!(i.surrounds(s(1.9999999999999998)));
    assert!(!i.surrounds(s(f64::NAN)));
}

#[test]
fn a_hit_on_the_near_cut_is_rejected() {
    let i = range(0.001, f64::INFINITY);
    assert!(!i.surrounds(s(0.001)));
    assert!(i.conatins(s(0.001)));
    assert!(i.surrounds(s(0.0010000000000000002)));
    assert!(!i.surrounds(s(f64::INFINITY)));
    assert!(i.surrounds(s(f64::MAX)));
}

#[test]
fn clamp_saturates() {
    let i = range(0.0, 0.999);
    assert_eq!(i.clamp(s(-5.0)), s(0.0));
    assert_eq!(i.clamp(s(5.0)), s(0.999));
    assert_eq!(i.clamp(s(0.25)), s(0.25));
    assert_eq!(i.clamp(s(0.0)), s(0.0));
    assert_eq!(i.clamp(s(0.999)), s(0.999));
    assert_eq!(i.clamp(s(f64::INFINITY)), s(0.999));
    assert_eq!(i.clamp(s(f64::NEG_INFINITY)), s(0.0));
    assert!(i.clamp(s(f64::NAN)).is_nan());
}

#[test]
fn predicates_and_clamp_agree_with_hardware() {
    for &lo in &points() {
        for &hi in &points() {
            let i = range(lo, hi);
            for &x in &points() {
                assert_eq!(i.conatins(s(x)), lo <= x && x <= hi);
                assert_eq!(i.surrounds(s(x)), lo < x && x < hi);
                let expected = if x < lo {
                    lo
                } else if x > hi {
                    hi
                } else {
                    x
                };
                assert_eq!(i.clamp(s(x)).to_bits(), expected.to_bits());
            }
        }
    }
}
