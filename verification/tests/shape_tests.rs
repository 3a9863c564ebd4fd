use raytracer::color::Color;
use raytracer::fx::{Fx, FX_SCALE};
use raytracer::material::{Material, Matte};
use raytracer::objects::{Cube, Cylinder, Intersection, Plane, Sphere, T_LIMIT, T_MIN_DEFAULT};
use raytracer::point3d::Point3D;
use raytracer::ray::Ray;

fn fx(n: i64) -> Fx {
    Fx::from_int(n)
}

fn pt(x: i64, y: i64, z: i64) -> Point3D {
    Point3D::new(fx(x), fx(y), fx(z))
}

fn matte() -> Material {
    Material::Matte(Matte::new(Color::green()))
}

fn window(t_min_raw: i128, t_max_raw: i128) -> Intersection {
    let mut rec = Intersection::new();
    rec.t_min = Fx::from_raw(t_min_raw);
    rec.t = Fx::from_raw(t_max_raw);
    rec
}

#[test]
fn sphere_ray_through_center_hits_at_distance_minus_radius() {
    let sphere = Sphere::new(pt(0, 0, -6), fx(1), matte());
    let ray = Ray::new(pt(0, 0, 0), pt(0, 0, -1));
    let mut rec = Intersection::new();
    assert!(sphere.hit(&ray, &mut rec));
    assert!(rec.hit_anything);
    assert_eq!(rec.t.raw, 5 * FX_SCALE);
    assert_eq!(rec.point, pt(0, 0, -5));
    assert_eq!(rec.normal, pt(0, 0, 1));
}

#[test]
fn sphere_behind_the_origin_misses() {
    let sphere = Sphere::new(pt(0, 0, 6), fx(1), matte());
    let ray = Ray::new(pt(0, 0, 0), pt(0, 0, -1));
    let mut rec = Intersection::new();
    assert!(!sphere.hit(&ray, &mut rec));
    assert!(!rec.hit_anything);
    assert_eq!(rec.t.raw, T_LIMIT);
}

#[test]
fn sphere_rejects_hits_exactly_on_the_window_bounds() {
    // The entry root is exactly 5 and the exit root exactly 7; a window
    // of (5, 7) must reject both (the interval is open).
    let sphere = Sphere::new(pt(0, 0, -6), fx(1), matte());
    let ray = Ray::new(pt(0, 0, 0), pt(0, 0, -1));
    let mut rec = window(5 * FX_SCALE, 7 * FX_SCALE);
    assert!(!sphere.hit(&ray, &mut rec));
    assert_eq!(rec.t.raw, 7 * FX_SCALE);
    assert_eq!(rec.t_min.raw, 5 * FX_SCALE);
    assert!(!rec.hit_anything);
}

#[test]
fn sphere_far_root_is_used_when_the_near_root_is_excluded() {
    let sphere = Sphere::new(pt(0, 0, -6), fx(1), matte());
    let ray = Ray::new(pt(0, 0, 0), pt(0, 0, -1));
    let mut rec = window(6 * FX_SCALE, T_LIMIT);
    assert!(sphere.hit(&ray, &mut rec));
    assert_eq!(rec.t.raw, 7 * FX_SCALE);
    // The far surface faces away, so the stored normal is flipped to
    // oppose the ray.
    assert_eq!(rec.normal, pt(0, 0, 1));
}

#[test]
fn plane_ray_along_normal_hits_at_the_offset() {
    let plane = Plane::new(pt(0, 3, 0), pt(0, 1, 0));
    let ray = Ray::new(pt(0, 0, 0), pt(0, 1, 0));
    let mut rec = Intersection::new();
    assert!(plane.hit(&ray, &mut rec));
    assert_eq!(rec.t.raw, 3 * FX_SCALE);
    assert_eq!(rec.point, pt(0, 3, 0));
    assert_eq!(rec.normal, pt(0, 1, 0));
}

#[test]
fn plane_parallel_ray_misses() {
    let plane = Plane::new(pt(0, -1, 0), pt(0, 1, 0));
    let ray = Ray::new(pt(0, 0, 0), pt(1, 0, 0));
    let mut rec = Intersection::new();
    assert!(!plane.hit(&ray, &mut rec));
    assert!(!rec.hit_anything);
}

#[test]
fn plane_rejects_hits_exactly_on_the_window_bounds() {
    let plane = Plane::new(pt(0, 3, 0), pt(0, 1, 0));
    let ray = Ray::new(pt(0, 0, 0), pt(0, 1, 0));
    let mut rec = window(3 * FX_SCALE, T_LIMIT);
    assert!(!plane.hit(&ray, &mut rec));
    let mut rec = window(T_MIN_DEFAULT, 3 * FX_SCALE);
    assert!(!plane.hit(&ray, &mut rec));
}

#[test]
fn cube_entry_face_and_normal() {
    let cube = Cube::new(pt(-1, -1, -5), pt(1, 1, -4), matte());
    let ray = Ray::new(pt(0, 0, 0), pt(0, 0, -1));
    let mut rec = Intersection::new();
    assert!(cube.hit(&ray, &mut rec));
    assert_eq!(rec.t.raw, 4 * FX_SCALE);
    assert_eq!(rec.point, pt(0, 0, -4));
    // The hit lies on the maximum-z face, whose normal points at the ray.
    assert_eq!(rec.normal, pt(0, 0, 1));
}

#[test]
fn cube_ray_outside_the_slabs_misses() {
    let cube = Cube::new(pt(-1, -1, -5), pt(1, 1, -4), matte());
    let ray = Ray::new(pt(3, 0, 0), pt(0, 0, -1));
    let mut rec = Intersection::new();
    assert!(!cube.hit(&ray, &mut rec));
    assert!(!rec.hit_anything);
}

#[test]
fn cylinder_side_hit_has_radial_normal() {
    let cyl = Cylinder::new(pt(0, -1, 0), fx(1), matte(), fx(2));
    let ray = Ray::new(pt(5, 0, 0), pt(-1, 0, 0));
    let mut rec = Intersection::new();
    assert!(cyl.hit(&ray, &mut rec));
    assert_eq!(rec.t.raw, 4 * FX_SCALE);
    assert_eq!(rec.point, pt(1, 0, 0));
    assert_eq!(rec.normal, pt(1, 0, 0));
}

#[test]
fn cylinder_top_cap_hit_from_above() {
    let cyl = Cylinder::new(pt(0, -1, 0), fx(1), matte(), fx(2));
    let ray = Ray::new(pt(0, 5, 0), pt(0, -1, 0));
    let mut rec = Intersection::new();
    assert!(cyl.hit(&ray, &mut rec));
    assert_eq!(rec.t.raw, 4 * FX_SCALE);
    assert_eq!(rec.point, pt(0, 1, 0));
    assert_eq!(rec.normal, pt(0, 1, 0));
}

#[test]
fn cylinder_ray_past_the_height_misses() {
    let cyl = Cylinder::new(pt(0, -1, 0), fx(1), matte(), fx(2));
    let ray = Ray::new(pt(5, 10, 0), pt(-1, 0, 0));
    let mut rec = Intersection::new();
    assert!(!cyl.hit(&ray, &mut rec));
    assert!(!rec.hit_anything);
}

#[test]
fn tilted_cylinder_uses_its_axis() {
    // The same cylinder laid along the x axis: a vertical ray now meets
    // the lateral surface.
    let cyl = Cylinder::with_axis(pt(-1, 0, 0), pt(1, 0, 0), fx(1), matte(), fx(2));
    let ray = Ray::new(pt(0, 5, 0), pt(0, -1, 0));
    let mut rec = Intersection::new();
    assert!(cyl.hit(&ray, &mut rec));
    assert_eq!(rec.t.raw, 4 * FX_SCALE);
    assert_eq!(rec.point, pt(0, 1, 0));
    assert_eq!(rec.normal, pt(0, 1, 0));
}

#[test]
fn a_miss_leaves_the_record_untouched() {
    let sphere = Sphere::new(pt(0, 0, -6), fx(1), matte());
    let ray = Ray::new(pt(0, 0, 0), pt(0, 1, 0));
    let before = Intersection::new();
    let mut rec = before;
    assert!(!sphere.hit(&ray, &mut rec));
    assert_eq!(rec.t.raw, before.t.raw);
    assert_eq!(rec.t_min.raw, before.t_min.raw);
    assert_eq!(rec.hit_anything, before.hit_anything);
}
