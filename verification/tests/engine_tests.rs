use raytracer::camera::Camera;
use raytracer::color::Color;
use raytracer::fx::{Fx, FX_SCALE};
use raytracer::image::Image;
use raytracer::material::{Light, Material, Matte, Metal};
use raytracer::objects::{Intersection, Primitive, Sphere};
use raytracer::point3d::Point3D;
use raytracer::ray::Ray;
use raytracer::raytracer::RayTracer;

fn fx(n: i64) -> Fx {
    Fx::from_int(n)
}

fn pt(x: i64, y: i64, z: i64) -> Point3D {
    Point3D::new(fx(x), fx(y), fx(z))
}

fn camera_at(origin: Point3D, target: Point3D) -> Camera {
    Camera::new(origin, target, pt(0, 1, 0), Fx::from_ratio(1, 4), Fx::from_ratio(3, 2))
}

fn tracer_with(objects: Vec<Primitive>, light: Sphere) -> RayTracer {
    let image = Image::new(10, 10);
    let camera = camera_at(pt(0, 0, 5), pt(0, 0, 0));
    RayTracer::new(image, camera, objects, light)
}

fn default_light() -> Sphere {
    Sphere::new_light(pt(0, 10, 0), Fx::from_ratio(1, 2))
}

fn matte_sphere(center: Point3D) -> Primitive {
    Primitive::Sphere(Sphere::new(center, fx(1), Material::Matte(Matte::new(Color::green()))))
}

#[test]
fn depth_zero_returns_exactly_black() {
    let tracer = tracer_with(vec![matte_sphere(pt(0, 0, -6))], default_light());
    let rays = [
        Ray::new(pt(0, 0, 0), pt(0, 0, -1)),
        Ray::new(pt(5, 2, 1), pt(0, 1, 0)),
    ];
    for ray in rays {
        let c = tracer.find_pixel_color(&ray, 0);
        assert_eq!((c.r.raw, c.g.raw, c.b.raw), (0, 0, 0));
    }
}

#[test]
fn a_ray_that_hits_nothing_returns_the_sky_color() {
    let tracer = tracer_with(vec![matte_sphere(pt(0, 0, -6))], default_light());
    let ray = Ray::new(pt(0, 0, 0), pt(0, 1, 0));
    let c = tracer.find_pixel_color(&ray, 50);
    assert_eq!(c.r.raw, FX_SCALE / 2);
    assert_eq!(c.g.raw, 7 * FX_SCALE / 10);
    assert_eq!(c.b.raw, FX_SCALE);
}

#[test]
fn hitting_an_emitter_absorbs_the_path() {
    let lamp = Primitive::Sphere(Sphere::new_light(pt(0, 0, -6), Fx::from_ratio(1, 2)));
    let tracer = tracer_with(vec![lamp], default_light());
    let ray = Ray::new(pt(0, 0, 0), pt(0, 0, -1));
    let c = tracer.find_pixel_color(&ray, 50);
    assert_eq!((c.r.raw, c.g.raw, c.b.raw), (0, 0, 0));
}

#[test]
fn hit_scene_keeps_the_nearest_of_two_spheres() {
    let near = matte_sphere(pt(0, 0, -3));
    let far = matte_sphere(pt(0, 0, -6));
    let ray = Ray::new(pt(0, 0, 0), pt(0, 0, -1));
    for objects in [vec![near, far], vec![far, near]] {
        let tracer = tracer_with(objects, default_light());
        let rec = tracer.hit_scene(&ray);
        assert!(rec.hit_anything);
        assert_eq!(rec.t.raw, 2 * FX_SCALE);
    }
}

#[test]
fn rerunning_a_hit_on_a_narrowed_record_never_moves_farther() {
    let sphere = Sphere::new(pt(0, 0, -6), fx(1), Material::Matte(Matte::new(Color::green())));
    let tracer = tracer_with(vec![Primitive::Sphere(sphere)], default_light());
    let ray = Ray::new(pt(0, 0, 0), pt(0, 0, -1));
    let first = tracer.hit_scene(&ray);
    assert_eq!(first.t.raw, 5 * FX_SCALE);
    let mut rec = first;
    let closer = sphere.hit(&ray, &mut rec);
    assert!(!closer);
    assert_eq!(rec.t.raw, first.t.raw);
}

#[test]
fn shadow_ray_is_clear_without_occluders_and_blocked_with_one() {
    let light = default_light();
    let open = tracer_with(vec![], light);
    assert!(open.cast_ray_to_light(&pt(0, 0, 0)).is_none());
    let occluded = tracer_with(vec![matte_sphere(pt(0, 5, 0))], light);
    let hit = occluded.cast_ray_to_light(&pt(0, 0, 0));
    assert!(hit.is_some());
    assert_eq!(hit.unwrap().t.raw, 4 * FX_SCALE);
}

#[test]
fn an_occluder_beyond_the_light_does_not_block_it() {
    // The light sits four units up; a sphere ten units up is behind it and
    // must not cast this point into shadow.
    let light = Sphere::new_light(pt(0, 4, 0), Fx::from_ratio(1, 2));
    let tracer = tracer_with(vec![matte_sphere(pt(0, 10, 0))], light);
    assert!(tracer.cast_ray_to_light(&pt(0, 0, 0)).is_none());
    // Moved in front of the light, the same sphere blocks it.
    let tracer = tracer_with(vec![matte_sphere(pt(0, 2, 0))], light);
    assert!(tracer.cast_ray_to_light(&pt(0, 0, 0)).is_some());
}

#[test]
fn unobstructed_point_below_the_light_receives_direct_light() {
    let tracer = tracer_with(vec![], default_light());
    let mut rec = Intersection::new();
    rec.point = pt(0, 0, 0);
    rec.normal = pt(0, 1, 0);
    let c = tracer.light_specular_diffuse_adjustment(&rec);
    // Diffuse 0.4 at full incidence, no specular, intensity one half.
    assert_eq!(c.r.raw, (4 * FX_SCALE / 10) / 2);
    assert!(c.r.raw > 0 && c.g.raw > 0 && c.b.raw > 0);
}

#[test]
fn a_point_facing_away_from_the_light_receives_no_direct_light() {
    let tracer = tracer_with(vec![], default_light());
    let mut rec = Intersection::new();
    rec.point = pt(0, 0, 0);
    rec.normal = pt(0, -1, 0);
    let c = tracer.light_specular_diffuse_adjustment(&rec);
    assert_eq!((c.r.raw, c.g.raw, c.b.raw), (0, 0, 0));
}

#[test]
fn matte_scatter_always_bounces_from_the_hit_point() {
    let matte = Matte::new(Color::green());
    let mut rec = Intersection::new();
    rec.point = pt(0, 0, -5);
    rec.normal = pt(0, 0, 1);
    let ray = Ray::new(pt(0, 0, 0), pt(0, 0, -1));
    for _ in 0..20 {
        let (bounced, albedo) = matte.scatter(&ray, &rec).expect("matte always scatters");
        assert_eq!(bounced.origin, rec.point);
        assert_eq!(albedo, Color::green());
    }
}

#[test]
fn metal_reflection_below_the_surface_is_absorbed() {
    let metal = Metal::new();
    let mut rec = Intersection::new();
    rec.point = pt(0, 0, -5);
    // A normal pointing along the ray makes the reflection point inward.
    rec.normal = pt(0, 0, -1);
    let ray = Ray::new(pt(0, 0, 0), pt(0, 0, -1));
    assert!(metal.scatter(&ray, &rec).is_none());
}

#[test]
fn metal_head_on_reflection_bounces_straight_back() {
    let metal = Metal::new();
    let mut rec = Intersection::new();
    rec.point = pt(0, 0, -5);
    rec.normal = pt(0, 0, 1);
    let ray = Ray::new(pt(0, 0, 0), pt(0, 0, -1));
    let (bounced, albedo) = metal.scatter(&ray, &rec).expect("head-on reflection scatters");
    assert_eq!(bounced.origin, rec.point);
    assert_eq!(bounced.direction, pt(0, 0, 1));
    assert_eq!(albedo, Color::white());
}

#[test]
fn material_intensity_is_one_except_for_lights() {
    assert_eq!(Material::Matte(Matte::new(Color::red())).intensity().raw, FX_SCALE);
    assert_eq!(Material::Metal(Metal::new()).intensity().raw, FX_SCALE);
    assert_eq!(Material::Light(Light::new(Fx::from_ratio(1, 2))).intensity().raw, FX_SCALE / 2);
}

#[test]
fn camera_center_ray_looks_forward() {
    let camera = camera_at(pt(0, 0, 0), pt(0, 0, -4));
    let ray = camera.make_ray(Fx::zero(), Fx::zero());
    assert_eq!(ray.origin, pt(0, 0, 0));
    assert_eq!(ray.direction, pt(0, 0, -1));
}

#[test]
fn scene_with_one_matte_sphere_reports_the_expected_hit() {
    // A single matte sphere of radius one centered six units down the
    // view axis: the ray through the image center hits at five, with a
    // normal facing straight back.
    let tracer = tracer_with(vec![matte_sphere(pt(0, 0, -6))], default_light());
    let camera = camera_at(pt(0, 0, 0), pt(0, 0, -4));
    let ray = camera.make_ray(Fx::zero(), Fx::zero());
    let rec = tracer.hit_scene(&ray);
    assert!(rec.hit_anything);
    assert_eq!(rec.t.raw, 5 * FX_SCALE);
    assert_eq!(rec.normal, pt(0, 0, 1));
    assert!(matches!(rec.material, Some(Material::Matte(_))));
}

#[test]
fn render_fills_every_pixel() {
    let image = Image::new(4, 3);
    let camera = camera_at(pt(0, 0, 0), pt(0, 0, -4));
    let mut tracer = RayTracer::new(
        image,
        camera,
        vec![matte_sphere(pt(0, 0, -6))],
        default_light(),
    );
    tracer.render();
    assert_eq!(tracer.image.pixels.len(), 12);
    for pixel in &tracer.image.pixels {
        assert!(pixel.r.raw >= 0 && pixel.g.raw >= 0 && pixel.b.raw >= 0);
        let q = pixel.quantize(tracer.image.samples_per_pixel);
        assert!(q.0 <= 255 && q.1 <= 255 && q.2 <= 255);
    }
}

#[test]
fn image_set_pixel_lands_row_major() {
    let mut image = Image::new(3, 2);
    image.set_pixel(2, 1, Color::white());
    assert_eq!(image.pixels[2 + 1 * 3], Color::white());
    assert_eq!(image.pixels[0], Color::black());
}
