use raytracing::color::Color;
use raytracing::hittable::HitRecord;
use raytracing::materials::{Dielectric, Lambertian, Material, Metal, Scatter};
use raytracing::ray::Ray;
use raytracing::scalar::Scalar;
use raytracing::vec3::{accepts_disk_sample, Vec3};

fn s(x: f64) -> Scalar {
    Scalar::from_bits(x.to_bits())
}

fn f(x: Scalar) -> f64 {
    f64::from_bits(x.to_bits())
}

fn v(x: f64, y: f64, z: f64) -> Vec3 {
    Vec3::new(s(x), s(y), s(z))
}

fn record() -> HitRecord {
    let mut rec = HitRecord::default();
    rec.point = v(1.0, 2.0, 3.0);
    rec.normal = v(0.0, 1.0, 0.0);
    rec.t = s(4.0);
    rec.front_face = true;
    rec
}

fn red() -> Color {
    Color::new(s(0.9), s(0.1), s(0.1))
}

#[test]
fn lambertian_scatters_along_the_candidate() {
    let m = Lambertian::new(red());
    let got = m.scatter(&record(), v(0.3, 1.2, -0.4));
    assert_eq!(
        got,
        Some(Scatter {
            attenuation: red(),
            scattered: Ray { origin: v(1.0, 2.0, 3.0), direction: v(0.3, 1.2, -0.4) },
        })
    );
}

#[test]
fn lambertian_falls_back_to_the_normal_where_the_candidate_vanishes() {
    let m = Lambertian::new(red());
    let got = m.scatter(&record(), v(1e-9, -1e-9, 0.0)).expect("never absorbed");
    assert_eq!(got.scattered.direction, v(0.0, 1.0, 0.0));
    assert_eq!(got.scattered.origin, v(1.0, 2.0, 3.0));
    assert_eq!(got.attenuation, red());
    let kept = m.scatter(&record(), v(1e-9, 1e-8, 0.0)).expect("never absorbed");
    assert_eq!(kept.scattered.direction, v(1e-9, 1e-8, 0.0));
}

#[test]
fn near_zero_needs_every_component_below_the_threshold() {
    assert!(v(0.0, 0.0, 0.0).near_zero());
    assert!(v(-0.0, 9.9e-9, -9.9e-9).near_zero());
    assert!(!v(1e-8, 0.0, 0.0).near_zero());
    assert!(!v(0.0, -1e-8, 0.0).near_zero());
    assert!(!v(0.0, 0.0, 1.0).near_zero());
    assert!(!v(f64::NAN, 0.0, 0.0).near_zero());
    for x in [0.0, 5e-9, -5e-9, 1e-8, -1e-8, 2e-8, 1.0, f64::NAN, f64::INFINITY] {
        for y in [0.0, 9.999999e-9, 1.0000001e-8] {
            let expected = (x as f64).abs() < 1e-8 && (y as f64).abs() < 1e-8;
            assert_eq!(v(x, y, -0.0).near_zero(), expected);
        }
    }
}

#[test]
fn metal_blur_is_cut_down_to_one() {
    assert_eq!(f(Metal::new(red(), s(0.3)).fuzz), 0.3);
    assert_eq!(f(Metal::new(red(), s(1.0)).fuzz), 1.0);
    assert_eq!(f(Metal::new(red(), s(1.0000000000000002)).fuzz), 1.0);
    assert_eq!(f(Metal::new(red(), s(7.0)).fuzz), 1.0);
    assert_eq!(f(Metal::new(red(), s(f64::INFINITY)).fuzz), 1.0);
    assert_eq!(f(Metal::new(red(), s(0.0)).fuzz), 0.0);
    assert_eq!(Metal::new(red(), s(0.3)).albedo, red());
}

#[test]
fn metal_scatters_what_leaves_the_surface() {
    let m = Metal::new(red(), s(0.2));
    let got = m.scatter(&record(), v(0.5, 0.5, 0.0), s(0.5));
    assert_eq!(
        got,
        Some(Scatter {
            attenuation: red(),
            scattered: Ray { origin: v(1.0, 2.0, 3.0), direction: v(0.5, 0.5, 0.0) },
        })
    );
}

#[test]
fn metal_absorbs_what_points_into_the_surface() {
    let m = Metal::new(red(), s(1.0));
    assert_eq!(m.scatter(&record(), v(0.5, -0.5, 0.0), s(-0.5)), None);
    assert_eq!(m.scatter(&record(), v(0.5, 0.0, 0.0), s(0.0)), None);
    assert_eq!(m.scatter(&record(), v(0.5, 0.0, 0.0), s(-0.0)), None);
    assert_eq!(m.scatter(&record(), v(0.5, 0.0, 0.0), s(f64::NAN)), None);
    assert!(m.scatter(&record(), v(0.5, 0.0, 0.0), s(f64::from_bits(1))).is_some());
}

#[test]
fn dielectric_ratio_depends_on_the_face() {
    let glass = Dielectric::new(s(1.5));
    assert_eq!(glass.refraction_index, s(1.5));
    assert_eq!(glass.refraction_ratio(true, s(1.0 / 1.5)), s(1.0 / 1.5));
    assert_eq!(glass.refraction_ratio(false, s(1.0 / 1.5)), s(1.5));
}

#[test]
fn dielectric_of_index_one_has_ratio_one_on_both_faces() {
    let air = Dielectric::new(s(1.0));
    assert_eq!(air.refraction_ratio(true, s(1.0 / 1.0)), s(1.0));
    assert_eq!(air.refraction_ratio(false, s(1.0 / 1.0)), s(1.0));
    // With ratio one the sine of an angle, at most one, never forbids refraction.
    for sine in [0.0, 0.3, 0.9999999, 1.0] {
        assert!(!Dielectric::cannot_refract(s(1.0 * sine)));
    }
}

#[test]
fn dielectric_reflects_totally_above_the_critical_angle() {
    assert!(Dielectric::cannot_refract(s(1.5 * 0.8)));
    assert!(!Dielectric::cannot_refract(s(1.5 * 0.5)));
    assert!(!Dielectric::cannot_refract(s(1.0)));
    assert!(Dielectric::cannot_refract(s(1.0000000000000002)));
    assert!(!Dielectric::cannot_refract(s(f64::NAN)));
}

#[test]
fn dielectric_reflects_when_the_reflectance_exceeds_the_draw() {
    assert!(Dielectric::reflects(s(0.7), s(0.2)));
    assert!(!Dielectric::reflects(s(0.2), s(0.7)));
    assert!(!Dielectric::reflects(s(0.5), s(0.5)));
    assert!(!Dielectric::reflects(s(f64::NAN), s(0.5)));
}

#[test]
fn dielectric_never_absorbs_and_never_tints() {
    let glass = Dielectric::new(s(1.5));
    let got = glass.scatter(&record(), v(0.1, -0.9, 0.2));
    assert_eq!(
        got,
        Some(Scatter {
            attenuation: Color::white(),
            scattered: Ray { origin: v(1.0, 2.0, 3.0), direction: v(0.1, -0.9, 0.2) },
        })
    );
}

#[test]
fn attenuation_is_the_albedo_or_white() {
    assert_eq!(Material::Lambertian(Lambertian::new(red())).attenuation(), red());
    assert_eq!(Material::Metal(Metal::new(red(), s(0.5))).attenuation(), red());
    assert_eq!(Material::Dielectric(Dielectric::new(s(1.5))).attenuation(), Color::white());
}

#[test]
fn unit_sample_is_accepted_inside_the_ball_but_not_at_the_centre() {
    assert!(Vec3::accepts_unit_sample(s(1.0)));
    assert!(Vec3::accepts_unit_sample(s(0.5)));
    assert!(Vec3::accepts_unit_sample(s(1.0000000000000001e-160)));
    assert!(!Vec3::accepts_unit_sample(s(1e-160)));
    assert!(!Vec3::accepts_unit_sample(s(0.0)));
    assert!(!Vec3::accepts_unit_sample(s(1.0000000000000002)));
    assert!(!Vec3::accepts_unit_sample(s(3.0)));
    assert!(!Vec3::accepts_unit_sample(s(f64::NAN)));
    for x in [0.0, 1e-200, 1e-160, 2e-160, 0.3, 1.0, 1.1, f64::NAN] {
        assert_eq!(Vec3::accepts_unit_sample(s(x)), 1e-160 < x && x <= 1.0);
    }
}

#[test]
fn disk_sample_is_accepted_strictly_inside_the_disk() {
    assert!(accepts_disk_sample(s(0.0)));
    assert!(accepts_disk_sample(s(0.9999999999999999)));
    assert!(!accepts_disk_sample(s(1.0)));
    assert!(!accepts_disk_sample(s(2.0)));
    assert!(!accepts_disk_sample(s(f64::NAN)));
}

#[test]
fn hemisphere_vector_is_turned_toward_the_normal() {
    let p = v(0.6, -0.8, 0.0);
    assert_eq!(p.random_on_hemisphere(s(0.4)), p);
    assert_eq!(p.random_on_hemisphere(s(-0.4)), v(-0.6, 0.8, -0.0));
    assert_eq!(p.random_on_hemisphere(s(0.0)), v(-0.6, 0.8, -0.0));
}

#[test]
fn negated_vector_is_the_product_with_minus_one() {
    let p = v(0.6, -0.8, 0.0);
    let n = p.negated();
    assert_eq!(n.x.to_bits(), (0.6f64 * -1.0).to_bits());
    assert_eq!(n.y.to_bits(), (-0.8f64 * -1.0).to_bits());
    assert_eq!(n.z.to_bits(), (0.0f64 * -1.0).to_bits());
    assert_eq!(n.negated(), p);
    assert_eq!(Vec3::zero(), v(0.0, 0.0, 0.0));
}
