use raytracer::fx::{Fx, FX_SCALE};
use raytracer::point3d::Point3D;
use raytracer::ray::Ray;

fn fx(n: i64) -> Fx {
    Fx::from_int(n)
}

fn to_f64(v: Fx) -> f64 {
    v.raw as f64 / FX_SCALE as f64
}

fn pt(x: i64, y: i64, z: i64) -> Point3D {
    Point3D::new(fx(x), fx(y), fx(z))
}

#[test]
fn scalar_arithmetic_is_exact_where_no_rounding_occurs() {
    assert_eq!(fx(3).add(fx(4)).raw, 7 * FX_SCALE);
    assert_eq!(fx(3).sub(fx(10)).raw, -7 * FX_SCALE);
    assert_eq!(fx(6).mul(fx(7)).raw, 42 * FX_SCALE);
    assert_eq!(fx(42).div(fx(6)).raw, 7 * FX_SCALE);
    assert_eq!(fx(-42).div(fx(6)).raw, -7 * FX_SCALE);
    assert_eq!(Fx::from_ratio(1, 2).raw, FX_SCALE / 2);
}

#[test]
fn square_root_of_perfect_squares_is_exact() {
    assert_eq!(fx(4).sqrt().raw, 2 * FX_SCALE);
    assert_eq!(fx(9).sqrt().raw, 3 * FX_SCALE);
    assert_eq!(fx(0).sqrt().raw, 0);
    assert_eq!(fx(1).sqrt().raw, FX_SCALE);
}

#[test]
fn dot_and_cross_products_match_hand_values() {
    let a = pt(1, 2, 3);
    let b = pt(4, -5, 6);
    assert_eq!(a.dot(&b).raw, (4 - 10 + 18) * FX_SCALE);
    let c = a.cross(&b);
    assert_eq!(c.x.raw, (2 * 6 - 3 * -5) * FX_SCALE);
    assert_eq!(c.y.raw, (3 * 4 - 1 * 6) * FX_SCALE);
    assert_eq!(c.z.raw, (1 * -5 - 2 * 4) * FX_SCALE);
}

#[test]
fn unit_vector_of_axis_vector_is_exact() {
    let v = pt(0, 0, -4);
    let u = v.unit_vector();
    assert_eq!(u.x.raw, 0);
    assert_eq!(u.y.raw, 0);
    assert_eq!(u.z.raw, -FX_SCALE);
}

#[test]
fn unit_vector_length_is_one_within_tolerance() {
    let cases = [
        (3, 4, 12),
        (1, 1, 1),
        (-7, 2, 9),
        (100, -250, 311),
        (1, 0, 0),
        (0, -17, 4),
    ];
    for (x, y, z) in cases {
        let u = pt(x, y, z).unit_vector();
        let len = (to_f64(u.x).powi(2) + to_f64(u.y).powi(2) + to_f64(u.z).powi(2)).sqrt();
        assert!(
            (len - 1.0).abs() < 1e-9,
            "length of normalized ({x},{y},{z}) was {len}"
        );
    }
}

#[test]
fn near_zero_detects_only_tiny_vectors() {
    assert!(Point3D::new(Fx::from_raw(1), Fx::from_raw(-2), Fx::from_raw(0)).near_zero());
    assert!(!pt(0, 0, 1).near_zero());
}

#[test]
fn ray_at_zero_returns_the_origin() {
    let cases = [
        (pt(0, 0, 0), pt(0, 0, -1)),
        (pt(5, -3, 2), pt(1, 1, 1)),
        (pt(-9, 100, 4), pt(0, 2, 0)),
    ];
    for (origin, direction) in cases {
        let ray = Ray::new(origin, direction);
        let back = ray.at(Fx::zero());
        assert_eq!(back, origin);
    }
}

#[test]
fn ray_at_walks_the_direction() {
    let ray = Ray::new(pt(1, 2, 3), pt(0, 0, -1));
    let p = ray.at(fx(5));
    assert_eq!(p, pt(1, 2, -2));
}

#[test]
fn random_point_stays_in_range() {
    for _ in 0..100 {
        let p = Point3D::random(fx(-1), fx(1));
        for c in [p.x, p.y, p.z] {
            assert!(-FX_SCALE <= c.raw && c.raw <= FX_SCALE);
        }
    }
}

#[test]
fn random_unit_vector_is_normalized() {
    for _ in 0..50 {
        let u = Point3D::random_unit_vector().expect("sampler gave up");
        let len = (to_f64(u.x).powi(2) + to_f64(u.y).powi(2) + to_f64(u.z).powi(2)).sqrt();
        assert!((len - 1.0).abs() < 1e-9, "length was {len}");
    }
}

#[test]
fn accessors_and_setters_mirror_the_fields() {
    let mut p = pt(1, 2, 3);
    assert_eq!(p.x(), fx(1));
    assert_eq!(p.y(), fx(2));
    assert_eq!(p.z(), fx(3));
    p.set_x(fx(9));
    p.set_y(fx(8));
    p.set_z(fx(7));
    assert_eq!(p, pt(9, 8, 7));
}
