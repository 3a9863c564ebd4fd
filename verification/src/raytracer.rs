//! The engine: per-pixel sampling, nearest-hit resolution across all
//! primitives, recursive bounce shading, shadow rays and a diffuse/specular
//! direct-lighting term.

use crate::camera::{make_ray_spec, Camera};
use crate::color::{c_mul, c_scale, c_sum, Color, CHAN_LIM};
use crate::fx::{
    fxdiv, fxmul, fxsqrt, lemma_fxmul_bound, lemma_fxmul_nonneg, lemma_tdiv_bound, tdiv, Fx,
    FX_PROD_LIM, FX_SCALE,
};
use crate::image::Image;
use crate::material::{matte_dir_ok, reflect_spec, Material, Metal};
use crate::objects::{
    initial_intersection, Intersection, Primitive, Sphere, DIR_GUARD, NORM_LIM, POINT_LIM,
    T_LIMIT, T_MIN_DEFAULT, WORLD_LIM,
};
use crate::point3d::{
    dot_spec, lemma_dot_in_range, pt_diff, unit_spec, Point3D, PT_UNIT_LIM,
};
use crate::ray::Ray;
use vstd::prelude::*;

verus! {

/// Largest raw channel magnitude a traced color can reach: 2^57.
pub const COLOR_LIM: i128 = 144115188075855872;

/// Largest raw channel magnitude of the direct-lighting term: 2^56.
pub const ADJUST_LIM: i128 = 72057594037927936;

/// Largest recursion depth the engine accepts.
pub const DEPTH_LIM: i32 = 64;

/// The whole renderer: scene, camera, light, pixel buffer and the bounce
/// budget.
pub struct RayTracer {
    pub max_depth: i32,
    pub camera: Camera,
    pub objects: Vec<Primitive>,
    pub image: Image,
    pub light: Sphere,
}

/// The record left after one primitive has tested the ray against the
/// running record: narrowed on a hit, unchanged on a miss.
pub open spec fn apply_hit(o: Primitive, ray: Ray, rec: Intersection) -> Intersection {
    match o.hit_spec(ray, rec.t_min.raw as int, rec.t.raw as int) {
        Option::None => rec,
        Option::Some((t, n)) => Intersection {
            point: crate::ray::at_spec(ray, t),
            normal: n,
            t: Fx { raw: t as i128 },
            material: Option::Some(o.material_of()),
            t_min: rec.t_min,
            hit_anything: true,
        },
    }
}

/// The record left after every primitive in the sequence has tested the
/// ray, in order.
pub open spec fn fold_hits(objs: Seq<Primitive>, ray: Ray, rec: Intersection) -> Intersection
    decreases objs.len(),
{
    if objs.len() == 0 {
        rec
    } else {
        fold_hits(objs.drop_first(), ray, apply_hit(objs[0], ray, rec))
    }
}

/// Folding one more primitive onto the end applies it to the folded record.
pub proof fn lemma_fold_snoc(objs: Seq<Primitive>, x: Primitive, ray: Ray, rec: Intersection)
    ensures
        fold_hits(objs.push(x), ray, rec) == apply_hit(x, ray, fold_hits(objs, ray, rec)),
    decreases objs.len(),
{
    if objs.len() == 0 {
        assert(objs.push(x)[0] == x);
        assert(objs.push(x).drop_first() =~= Seq::<Primitive>::empty());
        assert(fold_hits(objs.push(x), ray, rec) == fold_hits(
            Seq::<Primitive>::empty(),
            ray,
            apply_hit(x, ray, rec),
        ));
        assert(fold_hits(Seq::<Primitive>::empty(), ray, apply_hit(x, ray, rec)) == apply_hit(
            x,
            ray,
            rec,
        ));
        assert(fold_hits(objs, ray, rec) == rec);
    } else {
        assert(objs.push(x)[0] == objs[0]);
        assert(objs.push(x).drop_first() =~= objs.drop_first().push(x));
        lemma_fold_snoc(objs.drop_first(), x, ray, apply_hit(objs[0], ray, rec));
        assert(fold_hits(objs.push(x), ray, rec) == fold_hits(
            objs.drop_first().push(x),
            ray,
            apply_hit(objs[0], ray, rec),
        ));
        assert(fold_hits(objs, ray, rec) == fold_hits(
            objs.drop_first(),
            ray,
            apply_hit(objs[0], ray, rec),
        ));
    }
}

/// The shadow ray from a point toward the light's center: the offset,
/// normalized when it is long enough, kept raw otherwise.
pub open spec fn shadow_ray_spec(light_center: Point3D, p: Point3D) -> Ray {
    let diff = pt_diff(light_center, p);
    if dot_spec(diff, diff) >= 1 {
        Ray { origin: p, direction: unit_spec(diff) }
    } else {
        Ray { origin: p, direction: diff }
    }
}

/// The ceiling of a shadow query's window: the distance to the light's
/// center, clamped into the engine's parametric range, so that only
/// occluders strictly before the light can block it.
pub open spec fn shadow_limit_spec(light_center: Point3D, p: Point3D) -> int {
    let diff = pt_diff(light_center, p);
    let d = fxsqrt(dot_spec(diff, diff));
    if d < T_MIN_DEFAULT {
        T_MIN_DEFAULT as int
    } else if d > T_LIMIT {
        T_LIMIT as int
    } else {
        d
    }
}

/// The record a shadow query starts from: nothing hit, the window open
/// from the default floor up to the distance to the light.
pub open spec fn shadow_start_spec(light_center: Point3D, p: Point3D) -> Intersection {
    Intersection {
        point: Point3D { x: Fx { raw: 0 }, y: Fx { raw: 0 }, z: Fx { raw: 0 } },
        normal: Point3D { x: Fx { raw: 0 }, y: Fx { raw: 0 }, z: Fx { raw: 0 } },
        t: Fx { raw: shadow_limit_spec(light_center, p) as i128 },
        material: Option::None,
        t_min: Fx { raw: T_MIN_DEFAULT as i128 },
        hit_anything: false,
    }
}

/// The background color returned for rays that hit nothing.
pub open spec fn sky_spec() -> Color {
    Color { r: Fx { raw: 34359738368 }, g: Fx { raw: 48103633715 }, b: Fx {
        raw: FX_SCALE as i128,
    } }
}

/// The direct-lighting term at a hit: a diffuse part from the angle between
/// the light direction and the normal, and a specular part from the angle
/// between the mirror reflection of the light direction and the view
/// direction, both clamped at zero, weighted by fixed coefficients and the
/// light's intensity. A hit point that coincides with the light's center or
/// the camera's origin contributes nothing.
pub open spec fn light_adjust_spec(light: Sphere, cam_origin: Point3D, rec: Intersection) -> Color {
    let lvdiff = pt_diff(light.center, rec.point);
    let vdiff = pt_diff(rec.point, cam_origin);
    if dot_spec(lvdiff, lvdiff) < 1 || dot_spec(vdiff, vdiff) < 1 {
        Color::black_spec()
    } else {
        let lv = unit_spec(lvdiff);
        let light_angle = dot_spec(lv, rec.normal);
        let reflection = reflect_spec(lv, rec.normal);
        let view = unit_spec(vdiff);
        let reflection_angle = dot_spec(reflection, view);
        let diffuse = if light_angle < 0 {
            0
        } else {
            light_angle
        };
        let specular = if reflection_angle < 0 {
            0
        } else {
            reflection_angle
        };
        let d = fxmul(fxmul(FX_SCALE as int, tdiv(4 * FX_SCALE, 10)), diffuse);
        let s = fxmul(fxmul(FX_SCALE as int, tdiv(2 * FX_SCALE, 10)), specular);
        let i = light.material.intensity_spec();
        Color { r: Fx { raw: fxmul(d + s, i) as i128 }, g: Fx { raw: fxmul(d + s, i) as i128 }, b:
            Fx { raw: fxmul(d + s, i) as i128 } }
    }
}

/// The bounce ray leaving a hit point in a given direction.
pub open spec fn bounce_from(p: Point3D, d: Point3D) -> Ray {
    Ray { origin: p, direction: d }
}

/// The shading combination after a scatter: half the albedo-attenuated
/// recursive color, plus the direct-lighting term exactly when the shadow
/// query toward the light finds no occluder before it.
pub open spec fn shade_spec(
    objs: Seq<Primitive>,
    light: Sphere,
    cam_origin: Point3D,
    rec: Intersection,
    albedo: Color,
    sub: Color,
) -> Color {
    let pixel = c_scale(c_mul(albedo, sub), 34359738368);
    let srec = fold_hits(
        objs,
        shadow_ray_spec(light.center, rec.point),
        shadow_start_spec(light.center, rec.point),
    );
    if srec.hit_anything {
        pixel
    } else {
        c_sum(light_adjust_spec(light, cam_origin, rec), pixel)
    }
}

/// One admissible outcome of tracing a ray with the given bounce budget.
/// A spent budget yields exactly black. Otherwise the nearest hit decides:
/// no hit yields the sky; an emitter, or a metal reflection pointing into
/// the surface, absorbs the path to black; a scattering surface combines
/// some admissible bounce's recursive color by [`shade_spec`]. The bounce
/// direction is exact for metal and existentially quantified for the
/// randomly nudged matte bounce: the relation states what holds of every
/// outcome of the sampler.
pub open spec fn traced(
    objs: Seq<Primitive>,
    light: Sphere,
    cam_origin: Point3D,
    ray: Ray,
    depth: int,
    c: Color,
) -> bool
    decreases depth,
{
    if depth <= 0 {
        c == Color::black_spec()
    } else {
        let rec = fold_hits(objs, ray, initial_intersection());
        if !rec.hit_anything {
            c == sky_spec()
        } else {
            match rec.material {
                Option::None => c == Color::black_spec(),
                Option::Some(m) => match m {
                    Material::Light(_) => c == Color::black_spec(),
                    Material::Metal(mm) => {
                        let refl = reflect_spec(unit_spec(ray.direction), rec.normal);
                        if dot_spec(ray.direction, ray.direction) >= 1 && dot_spec(refl, rec.normal)
                            >= 0 {
                            exists|sub: Color|
                                #![trigger shade_spec(objs, light, cam_origin, rec, mm.color, sub)]
                                {
                                    &&& traced(
                                        objs,
                                        light,
                                        cam_origin,
                                        bounce_from(rec.point, refl),
                                        depth - 1,
                                        sub,
                                    )
                                    &&& c == shade_spec(objs, light, cam_origin, rec, mm.color, sub)
                                }
                        } else {
                            c == Color::black_spec()
                        }
                    },
                    Material::Matte(mt) => exists|d: Point3D, sub: Color|
                        #![trigger bounce_from(rec.point, d), shade_spec(objs, light, cam_origin, rec, mt.color, sub)]
                        {
                            &&& matte_dir_ok(rec.normal, d)
                            &&& traced(
                                objs,
                                light,
                                cam_origin,
                                bounce_from(rec.point, d),
                                depth - 1,
                                sub,
                            )
                            &&& c == shade_spec(objs, light, cam_origin, rec, mt.color, sub)
                        },
                },
            }
        }
    }
}

/// A screen coordinate computed from a pixel index and one random
/// fraction: `(2 (index + rnd)) / extent - 1` across, or
/// `(-2 index + rnd) / extent + 1` down.
pub open spec fn jitter_value(index: int, extent: int, flip: bool, rnd: int) -> int {
    if !flip {
        fxdiv(2 * (index * FX_SCALE + rnd), extent * FX_SCALE) - FX_SCALE
    } else {
        fxdiv(-2 * (index * FX_SCALE) + rnd, extent * FX_SCALE) + FX_SCALE
    }
}

/// The coordinate arises from some random fraction in `[0, 1)`.
pub open spec fn jittered(uv: int, index: int, extent: int, flip: bool) -> bool {
    exists|rnd: int| 0 <= rnd < FX_SCALE && uv == #[trigger] jitter_value(index, extent, flip, rnd)
}

/// One admissible accumulated pixel: the sum of `n` sample colors, each an
/// admissible trace of a camera ray through jittered screen coordinates
/// for this pixel. The sum is never divided by the sample count: averaging
/// is the tone mapper's job.
pub open spec fn sampled_sum(
    objs: Seq<Primitive>,
    light: Sphere,
    cam: Camera,
    depth: int,
    col: int,
    row: int,
    width: int,
    height: int,
    n: int,
    c: Color,
) -> bool
    decreases n,
{
    if n <= 0 {
        c == Color::black_spec()
    } else {
        exists|u: int, v: int, sample: Color, rest: Color|
            #![trigger make_ray_spec(cam, u, v), c_sum(rest, sample)]
            {
                &&& jittered(u, col, width, false)
                &&& jittered(v, row, height, true)
                &&& traced(objs, light, cam.origin, make_ray_spec(cam, u, v), depth, sample)
                &&& sampled_sum(objs, light, cam, depth, col, row, width, height, n - 1, rest)
                &&& c == c_sum(rest, sample)
            }
    }
}

/// A row-major index stays inside the buffer.
proof fn lemma_row_major_in_range(px: int, py: int, w: int, h: int)
    requires
        0 <= px < w,
        0 <= py < h,
    ensures
        0 <= px + py * w < w * h,
{
    assert(0 <= px + py * w < w * h) by (nonlinear_arith)
        requires
            0 <= px < w,
            0 <= py < h,
    ;
}

/// Two row-major indices agree only on the same pixel.
proof fn lemma_row_major_distinct(px: int, py: int, x: int, y: int, w: int)
    requires
        0 <= px < w,
        0 <= x < w,
        px + py * w == x + y * w,
    ensures
        px == x && py == y,
{
    assert(px - x == (y - py) * w) by (nonlinear_arith)
        requires
            px + py * w == x + y * w,
    ;
    if py != y {
        assert(false) by (nonlinear_arith)
            requires
                px - x == (y - py) * w,
                -w < px - x < w,
                y != py,
        ;
    }
}

impl RayTracer {
    /// The scene stays inside the world budget: camera and buffer well
    /// formed, light bounded, every primitive well formed, bounce budget
    /// bounded.
    pub open spec fn wf(self) -> bool {
        &&& self.camera.wf()
        &&& self.image.wf()
        &&& self.light.center.bounded(WORLD_LIM as int)
        &&& self.light.material.wf()
        &&& 0 <= self.max_depth <= DEPTH_LIM
        &&& forall|i: int| 0 <= i < self.objects.len() ==> (#[trigger] self.objects[i]).wf()
    }

    /// A renderer with the default bounce budget of 50.
    pub fn new(image: Image, camera: Camera, objects: Vec<Primitive>, light: Sphere) -> (r:
        RayTracer)
        requires
            camera.wf(),
            image.wf(),
            light.center.bounded(WORLD_LIM as int),
            light.material.wf(),
            forall|i: int| 0 <= i < objects.len() ==> (#[trigger] objects[i]).wf(),
        ensures
            r.wf(),
            r.camera == camera,
            r.image == image,
            r.objects == objects,
            r.light == light,
            r.max_depth == 50,
    {
        RayTracer { image, camera, objects, light, max_depth: 50 }
    }

    /// Run every primitive's test against one record, starting from the
    /// given window; the result is the fold of all the tests, in order.
    fn hit_scene_from(&self, ray: &Ray, start: Intersection) -> (rec: Intersection)
        requires
            forall|i: int| 0 <= i < self.objects.len() ==> (#[trigger] self.objects[i]).wf(),
            start.wf(),
        ensures
            rec == fold_hits(self.objects@, *ray, start),
            rec.wf(),
            rec.t_min == start.t_min,
    {
        let mut rec: Intersection = start;
        let n: usize = self.objects.len();
        let mut i: usize = 0;
        while i < n
            invariant
                i <= n,
                n == self.objects.len(),
                forall|j: int| 0 <= j < self.objects.len() ==> (#[trigger] self.objects[j]).wf(),
                rec == fold_hits(self.objects@.take(i as int), *ray, start),
                rec.wf(),
                rec.t_min == start.t_min,
            decreases n - i,
        {
            let ghost pre = rec;
            let _closer: bool = self.objects[i].hit(ray, &mut rec);
            proof {
                assert(rec == apply_hit(self.objects@[i as int], *ray, pre));
                lemma_fold_snoc(
                    self.objects@.take(i as int),
                    self.objects@[i as int],
                    *ray,
                    start,
                );
                assert(self.objects@.take(i as int).push(self.objects@[i as int]) =~= self.objects@
                    .take(i + 1));
            }
            i = i + 1;
        }
        proof {
            assert(self.objects@.take(n as int) =~= self.objects@);
        }
        rec
    }

    /// Resolve the nearest intersection of the ray across all primitives:
    /// every primitive tests the ray against one record, narrowing it in
    /// place, so the result carries the closest accepted hit.
    pub fn hit_scene(&self, ray: &Ray) -> (rec: Intersection)
        requires
            forall|i: int| 0 <= i < self.objects.len() ==> (#[trigger] self.objects[i]).wf(),
        ensures
            rec == fold_hits(self.objects@, *ray, initial_intersection()),
            rec.wf(),
            rec.t_min.raw == T_MIN_DEFAULT,
    {
        let start: Intersection = Intersection::new();
        self.hit_scene_from(ray, start)
    }

    /// Cast a shadow ray from a point toward the light: the occluding
    /// intersection when anything stands strictly before the light's
    /// center, `None` when the path up to the light is clear. Primitives
    /// beyond the light never block it: the query's window is bounded by
    /// the distance to the light.
    pub fn cast_ray_to_light(&self, intersection_point: &Point3D) -> (r: Option<Intersection>)
        requires
            self.wf(),
            intersection_point.bounded(POINT_LIM as int),
        ensures
            ({
                let srec = fold_hits(
                    self.objects@,
                    shadow_ray_spec(self.light.center, *intersection_point),
                    shadow_start_spec(self.light.center, *intersection_point),
                );
                &&& (r is Some <==> srec.hit_anything)
                &&& (r matches Some(o) ==> o == srec)
            }),
    {
        let diff: Point3D = self.light.center.sub(*intersection_point);
        proof {
            lemma_dot_in_range(diff, diff, PT_UNIT_LIM as int, PT_UNIT_LIM as int);
        }
        let ls: Fx = diff.length_squared();
        let light_vec: Point3D = if ls.raw >= 1 {
            diff.unit_vector()
        } else {
            diff
        };
        let shadow_ray: Ray = Ray::new(*intersection_point, light_vec);
        let distance: Fx = ls.sqrt();
        let limit: i128 = if distance.raw < T_MIN_DEFAULT {
            T_MIN_DEFAULT
        } else if distance.raw > T_LIMIT {
            T_LIMIT
        } else {
            distance.raw
        };
        let mut start: Intersection = Intersection::new();
        start.t = Fx::from_raw(limit);
        proof {
            assert(start == shadow_start_spec(self.light.center, *intersection_point));
        }
        let result: Intersection = self.hit_scene_from(&shadow_ray, start);
        if result.hit_anything {
            Some(result)
        } else {
            None
        }
    }

    /// The direct-lighting term at a hit. A point lit at no less than half
    /// incidence by a light of no less than half intensity receives a
    /// strictly positive term (closer to grazing incidence, or under
    /// raw-unit intensities, truncation can round the whole term to zero);
    /// a point whose light and reflection angles are both non-positive
    /// receives exactly black.
    pub fn light_specular_diffuse_adjustment(&self, intersection: &Intersection) -> (c: Color)
        requires
            self.wf(),
            intersection.point.bounded(POINT_LIM as int),
            intersection.normal.bounded(NORM_LIM as int),
        ensures
            c == light_adjust_spec(self.light, self.camera.origin, *intersection),
            c.channels_in(0, ADJUST_LIM as int),
            ({
                let lvdiff = pt_diff(self.light.center, intersection.point);
                let vdiff = pt_diff(intersection.point, self.camera.origin);
                let lv = unit_spec(lvdiff);
                &&& (dot_spec(lvdiff, lvdiff) >= 1 && dot_spec(vdiff, vdiff) >= 1 && dot_spec(
                    lv,
                    intersection.normal,
                ) >= 34359738368 && self.light.material.intensity_spec() >= 34359738368) ==> (
                c.r.raw > 0 && c.g.raw > 0 && c.b.raw > 0)
                &&& (dot_spec(lv, intersection.normal) <= 0 && dot_spec(
                    reflect_spec(lv, intersection.normal),
                    unit_spec(vdiff),
                ) <= 0) ==> c == Color::black_spec()
            }),
    {
        let light_diff: Point3D = self.light.center.sub(intersection.point);
        let view_diff: Point3D = intersection.point.sub(self.camera.origin);
        proof {
            lemma_dot_in_range(light_diff, light_diff, PT_UNIT_LIM as int, PT_UNIT_LIM as int);
            lemma_dot_in_range(view_diff, view_diff, PT_UNIT_LIM as int, PT_UNIT_LIM as int);
        }
        let lls: Fx = light_diff.length_squared();
        let vls: Fx = view_diff.length_squared();
        if lls.raw < 1 || vls.raw < 1 {
            return Color::black();
        }
        let light_vec: Point3D = light_diff.unit_vector();
        proof {
            lemma_dot_in_range(light_vec, intersection.normal, 2 * FX_SCALE, NORM_LIM as int);
        }
        let light_angle: Fx = light_vec.dot(&intersection.normal);
        let reflection_vec: Point3D = Metal::reflect(&light_vec, &intersection.normal);
        let view_direction: Point3D = view_diff.unit_vector();
        proof {
            lemma_dot_in_range(reflection_vec, view_direction, DIR_GUARD as int, 2 * FX_SCALE);
        }
        let reflection_angle: Fx = reflection_vec.dot(&view_direction);
        let diffuse_reflection: Fx = if light_angle.raw < 0 {
            Fx::zero()
        } else {
            light_angle
        };
        let specular_reflection: Fx = if reflection_angle.raw < 0 {
            Fx::zero()
        } else {
            reflection_angle
        };
        let dcoef: Fx = Fx::from_ratio(4, 10);
        let scoef: Fx = Fx::from_ratio(2, 10);
        proof {
            lemma_fxmul_bound(FX_SCALE as int, dcoef.raw as int, FX_SCALE as int, FX_SCALE as int);
            lemma_fxmul_bound(FX_SCALE as int, scoef.raw as int, FX_SCALE as int, FX_SCALE as int);
            lemma_fxmul_nonneg(FX_SCALE as int, dcoef.raw as int);
            lemma_fxmul_nonneg(FX_SCALE as int, scoef.raw as int);
            lemma_tdiv_bound(4 * FX_SCALE, 10, 4 * FX_SCALE);
            lemma_tdiv_bound(2 * FX_SCALE, 10, 2 * FX_SCALE);
        }
        let dtint: Color = Color::white().scale(dcoef);
        let stint: Color = Color::white().scale(scoef);
        proof {
            lemma_fxmul_bound(
                dtint.r.raw as int,
                diffuse_reflection.raw as int,
                FX_SCALE as int,
                12 * FX_SCALE,
            );
            lemma_fxmul_bound(
                stint.r.raw as int,
                specular_reflection.raw as int,
                FX_SCALE as int,
                768 * FX_SCALE,
            );
            lemma_fxmul_nonneg(dtint.r.raw as int, diffuse_reflection.raw as int);
            lemma_fxmul_nonneg(stint.r.raw as int, specular_reflection.raw as int);
        }
        let dpart: Color = dtint.scale(diffuse_reflection);
        let spart: Color = stint.scale(specular_reflection);
        let summed: Color = dpart.add(spart);
        let intensity: Fx = self.light.material.intensity();
        proof {
            lemma_fxmul_bound(summed.r.raw as int, intensity.raw as int, 780 * FX_SCALE, WORLD_LIM
                as int);
            lemma_fxmul_nonneg(summed.r.raw as int, intensity.raw as int);
        }
        let result: Color = summed.scale(intensity);
        proof {
            // The exact weight of one unit by a coefficient is the
            // coefficient itself.
            crate::fx::lemma_tdiv_exact(dcoef.raw as int);
            crate::fx::lemma_tdiv_exact(scoef.raw as int);
            assert((FX_SCALE as int) * dcoef.raw == dcoef.raw * FX_SCALE && (FX_SCALE as int)
                * scoef.raw == scoef.raw * FX_SCALE) by (nonlinear_arith);
            assert(dtint.r.raw == dcoef.raw && stint.r.raw == scoef.raw);
            if light_angle.raw >= 34359738368 && intensity.raw >= 34359738368 {
                // Half incidence and half intensity keep the term positive.
                crate::fx::lemma_fxmul_mono(
                    dtint.r.raw as int,
                    diffuse_reflection.raw as int,
                    27487790694,
                    34359738368,
                );
                assert(fxmul(27487790694, 34359738368) == 13743895347);
                crate::fx::lemma_fxmul_mono(
                    summed.r.raw as int,
                    intensity.raw as int,
                    13743895347,
                    34359738368,
                );
                assert(fxmul(13743895347, 34359738368) == 6871947673);
            }
            if light_angle.raw <= 0 && reflection_angle.raw <= 0 {
                // Both clamped terms vanish, and so does their weighted sum.
                crate::fx::lemma_tdiv_exact(0);
                assert(dtint.r.raw * 0 == 0 * FX_SCALE && stint.r.raw * 0 == 0 * FX_SCALE && 0
                    * intensity.raw == 0 * FX_SCALE) by (nonlinear_arith);
                assert(result == Color::black_spec());
            }
        }
        result
    }

    /// One traced path: resolve the nearest hit, ask its material to
    /// scatter, recurse on the bounce with half the energy, and add the
    /// direct-lighting term when the light is not occluded. The result is
    /// an admissible outcome of the [`traced`] relation; in particular a
    /// spent recursion budget is exactly black, a ray that hits nothing is
    /// exactly the sky color, and an absorbed path (an emissive hit, or a
    /// metal reflection into the surface) is exactly black.
    pub fn find_pixel_color(&self, ray: &Ray, depth: i32) -> (c: Color)
        requires
            self.wf(),
            ray.direction.bounded(DIR_GUARD as int),
        ensures
            traced(self.objects@, self.light, self.camera.origin, *ray, depth as int, c),
            c.channels_in(0, COLOR_LIM as int),
            depth <= 0 ==> c == Color::black_spec(),
            ({
                let rec = fold_hits(self.objects@, *ray, initial_intersection());
                &&& (depth > 0 && !rec.hit_anything) ==> c == sky_spec()
                &&& (depth > 0 && rec.hit_anything && (rec.material matches Some(
                    m,
                ) && (m matches Material::Light(_)))) ==> c == Color::black_spec()
            }),
        decreases depth,
    {
        if depth <= 0 {
            return Color::black();
        }
        let intersection: Intersection = self.hit_scene(ray);
        if intersection.hit_anything {
            let m: Material = match &intersection.material {
                Option::Some(mm) => *mm,
                Option::None => {
                    return Color::black();
                },
            };
            let bounce: Option<(Ray, Color)> = m.scatter(ray, &intersection);
            match bounce {
                Option::None => Color::black(),
                Option::Some((bounce_ray, color)) => {
                    let target_color: Color = self.find_pixel_color(&bounce_ray, depth - 1);
                    proof {
                        lemma_fxmul_bound(
                            color.r.raw as int,
                            target_color.r.raw as int,
                            FX_SCALE as int,
                            COLOR_LIM as int,
                        );
                        lemma_fxmul_bound(
                            color.g.raw as int,
                            target_color.g.raw as int,
                            FX_SCALE as int,
                            COLOR_LIM as int,
                        );
                        lemma_fxmul_bound(
                            color.b.raw as int,
                            target_color.b.raw as int,
                            FX_SCALE as int,
                            COLOR_LIM as int,
                        );
                        lemma_fxmul_nonneg(color.r.raw as int, target_color.r.raw as int);
                        lemma_fxmul_nonneg(color.g.raw as int, target_color.g.raw as int);
                        lemma_fxmul_nonneg(color.b.raw as int, target_color.b.raw as int);
                    }
                    let attenuated: Color = color.mul(target_color);
                    let half: Fx = Fx::from_ratio(1, 2);
                    proof {
                        lemma_tdiv_bound(FX_SCALE as int, 2, FX_SCALE as int);
                        lemma_fxmul_bound(
                            attenuated.r.raw as int,
                            half.raw as int,
                            COLOR_LIM as int,
                            34359738368,
                        );
                        lemma_fxmul_bound(
                            attenuated.g.raw as int,
                            half.raw as int,
                            COLOR_LIM as int,
                            34359738368,
                        );
                        lemma_fxmul_bound(
                            attenuated.b.raw as int,
                            half.raw as int,
                            COLOR_LIM as int,
                            34359738368,
                        );
                        lemma_fxmul_nonneg(attenuated.r.raw as int, half.raw as int);
                        lemma_fxmul_nonneg(attenuated.g.raw as int, half.raw as int);
                        lemma_fxmul_nonneg(attenuated.b.raw as int, half.raw as int);
                    }
                    let pixel_color: Color = attenuated.scale(half);
                    let light_blocked: Option<Intersection> = self.cast_ray_to_light(
                        &intersection.point,
                    );
                    let result: Color = if light_blocked.is_some() {
                        pixel_color
                    } else {
                        self.light_specular_diffuse_adjustment(&intersection).add(pixel_color)
                    };
                    proof {
                        let objs = self.objects@;
                        let li = self.light;
                        let co = self.camera.origin;
                        let rec = fold_hits(objs, *ray, initial_intersection());
                        assert(bounce_from(rec.point, bounce_ray.direction) == bounce_ray);
                        match m {
                            Material::Matte(mt) => {
                                assert(result == shade_spec(objs, li, co, rec, mt.color,
                                    target_color));
                                assert(matte_dir_ok(rec.normal, bounce_ray.direction));
                                assert(traced(objs, li, co, bounce_from(
                                    rec.point,
                                    bounce_ray.direction,
                                ), depth - 1, target_color));
                                assert(traced(objs, li, co, *ray, depth as int, result));
                            },
                            Material::Metal(mm) => {
                                let refl = reflect_spec(unit_spec(ray.direction), rec.normal);
                                assert(bounce_ray.direction == refl);
                                assert(result == shade_spec(objs, li, co, rec, mm.color,
                                    target_color));
                                assert(traced(objs, li, co, bounce_from(rec.point, refl), depth - 1,
                                    target_color));
                                assert(traced(objs, li, co, *ray, depth as int, result));
                            },
                            Material::Light(_) => {
                                assert(false);
                            },
                        }
                    }
                    result
                },
            }
        } else {
            Color::new(Fx::from_ratio(1, 2), Fx::from_ratio(7, 10), Fx::one())
        }
    }

    /// Accumulate one pixel: the sum of `samples_per_pixel` traced camera
    /// rays through jittered sub-pixel positions.
    pub fn intersect(&self, col: usize, row: usize) -> (c: Color)
        requires
            self.wf(),
            col < self.image.width,
            row < self.image.height,
        ensures
            sampled_sum(
                self.objects@,
                self.light,
                self.camera,
                self.max_depth as int,
                col as int,
                row as int,
                self.image.width as int,
                self.image.height as int,
                self.image.samples_per_pixel as int,
                c,
            ),
            c.channels_in(0, CHAN_LIM as int),
    {
        let mut pixel: Color = Color::black();
        let spp: u32 = self.image.samples_per_pixel;
        let mut i: u32 = 0;
        while i < spp
            invariant
                self.wf(),
                col < self.image.width,
                row < self.image.height,
                spp == self.image.samples_per_pixel,
                i <= spp,
                pixel.channels_in(0, (i as int) * (COLOR_LIM as int)),
                sampled_sum(
                    self.objects@,
                    self.light,
                    self.camera,
                    self.max_depth as int,
                    col as int,
                    row as int,
                    self.image.width as int,
                    self.image.height as int,
                    i as int,
                    pixel,
                ),
            decreases spp - i,
        {
            let u: Fx = screen_coordinate(col, self.image.width, false);
            let v: Fx = screen_coordinate(row, self.image.height, true);
            let ray: Ray = self.camera.make_ray(u, v);
            let sample_pixel: Color = self.find_pixel_color(&ray, self.max_depth);
            proof {
                assert((i as int) * (COLOR_LIM as int) + COLOR_LIM <= (i + 1) * (COLOR_LIM as int)
                    <= 1048576 * (COLOR_LIM as int)) by (nonlinear_arith)
                    requires
                        0 <= i < 1048576,
                ;
            }
            let ghost prev = pixel;
            pixel = pixel.add(sample_pixel);
            proof {
                assert(ray == make_ray_spec(self.camera, u.raw as int, v.raw as int));
                assert(pixel == c_sum(prev, sample_pixel));
                assert(sampled_sum(
                    self.objects@,
                    self.light,
                    self.camera,
                    self.max_depth as int,
                    col as int,
                    row as int,
                    self.image.width as int,
                    self.image.height as int,
                    i + 1,
                    pixel,
                ));
            }
            i = i + 1;
        }
        proof {
            assert((spp as int) * (COLOR_LIM as int) <= CHAN_LIM as int) by (nonlinear_arith)
                requires
                    spp <= 1048576,
            ;
        }
        pixel
    }

    /// Fill the whole buffer: every pixel of the final image holds an
    /// admissible sample sum for its own coordinates.
    pub fn render(&mut self)
        requires
            old(self).wf(),
        ensures
            final(self).wf(),
            final(self).camera == old(self).camera,
            final(self).light == old(self).light,
            final(self).objects == old(self).objects,
            final(self).max_depth == old(self).max_depth,
            final(self).image.width == old(self).image.width,
            final(self).image.height == old(self).image.height,
            final(self).image.samples_per_pixel == old(self).image.samples_per_pixel,
            forall|px: int, py: int|
                0 <= px < old(self).image.width && 0 <= py < old(self).image.height
                    ==> sampled_sum(
                    old(self).objects@,
                    old(self).light,
                    old(self).camera,
                    old(self).max_depth as int,
                    px,
                    py,
                    old(self).image.width as int,
                    old(self).image.height as int,
                    old(self).image.samples_per_pixel as int,
                    #[trigger] final(self).image.pixels@[px + py * old(self).image.width],
                ),
    {
        let w: usize = self.image.width;
        let h: usize = self.image.height;
        let mut x: usize = 0;
        while x < w
            invariant
                self.wf(),
                self.camera == old(self).camera,
                self.light == old(self).light,
                self.objects == old(self).objects,
                self.max_depth == old(self).max_depth,
                self.image.width == w,
                self.image.height == h,
                self.image.samples_per_pixel == old(self).image.samples_per_pixel,
                w == old(self).image.width,
                h == old(self).image.height,
                x <= w,
                forall|px: int, py: int|
                    0 <= px < x && 0 <= py < h ==> sampled_sum(
                        self.objects@,
                        self.light,
                        self.camera,
                        self.max_depth as int,
                        px,
                        py,
                        w as int,
                        h as int,
                        self.image.samples_per_pixel as int,
                        #[trigger] self.image.pixels@[px + py * w],
                    ),
            decreases w - x,
        {
            let mut y: usize = 0;
            while y < h
                invariant
                    self.wf(),
                    self.camera == old(self).camera,
                    self.light == old(self).light,
                    self.objects == old(self).objects,
                    self.max_depth == old(self).max_depth,
                    self.image.width == w,
                    self.image.height == h,
                    self.image.samples_per_pixel == old(self).image.samples_per_pixel,
                    w == old(self).image.width,
                    h == old(self).image.height,
                    x < w,
                    y <= h,
                    forall|px: int, py: int|
                        0 <= px && 0 <= py < h && (px < x || (px == x && py < y)) ==> sampled_sum(
                            self.objects@,
                            self.light,
                            self.camera,
                            self.max_depth as int,
                            px,
                            py,
                            w as int,
                            h as int,
                            self.image.samples_per_pixel as int,
                            #[trigger] self.image.pixels@[px + py * w],
                        ),
                decreases h - y,
            {
                let pixel: Color = self.intersect(x, y);
                let ghost before = self.image.pixels@;
                self.image.set_pixel(x, y, pixel);
                proof {
                    assert forall|px: int, py: int|
                        0 <= px && 0 <= py < h && (px < x || (px == x && py < y + 1)) implies
                        sampled_sum(
                            self.objects@,
                            self.light,
                            self.camera,
                            self.max_depth as int,
                            px,
                            py,
                            w as int,
                            h as int,
                            self.image.samples_per_pixel as int,
                            #[trigger] self.image.pixels@[px + py * w],
                        ) by {
                        lemma_row_major_in_range(px, py, w as int, h as int);
                        lemma_row_major_in_range(x as int, y as int, w as int, h as int);
                        assert(self.image.pixels@.len() == w * h);
                        if px == x && py == y {
                            assert(self.image.pixels@[px + py * w] == pixel);
                        } else {
                            if px + py * w == x + y * (w as int) {
                                lemma_row_major_distinct(px, py, x as int, y as int, w as int);
                            }
                            assert(self.image.pixels@[px + py * w] == before[px + py * w]);
                        }
                    }
                }
                y = y + 1;
            }
            x = x + 1;
        }
    }
}

/// One jittered screen coordinate in roughly `[-1, 1]`: the pixel index
/// plus a random fraction, scaled to device coordinates. Columns map left
/// to right, rows top to bottom (`flip`).
fn screen_coordinate(index: usize, extent: usize, flip: bool) -> (r: Fx)
    requires
        index < extent,
        extent <= 32768,
    ensures
        -3 * FX_SCALE <= r.raw <= 3 * FX_SCALE,
        jittered(r.raw as int, index as int, extent as int, flip),
{
    let rnd: Fx = random_fraction();
    let indexf: Fx = Fx::from_int(index as i64);
    let extentf: Fx = Fx::from_int(extent as i64);
    proof {
        lemma_fxmul_bound(2 * FX_SCALE, indexf.raw as int + rnd.raw as int, 2 * FX_SCALE, 32768
            * FX_SCALE);
        lemma_fxmul_bound(-2 * FX_SCALE, indexf.raw as int, 2 * FX_SCALE, 32768 * FX_SCALE);
    }
    if !flip {
        // u = (2 * (col + rnd)) / width - 1
        let num: Fx = Fx::from_int(2).mul(indexf.add(rnd));
        proof {
            let xx = indexf.raw as int + rnd.raw as int;
            crate::fx::lemma_tdiv_exact(2 * xx);
            assert((2 * (FX_SCALE as int)) * xx == (2 * xx) * (FX_SCALE as int))
                by (nonlinear_arith);
            assert(num.raw == 2 * xx);
            lemma_scaled_ratio_bound(num.raw as int, extent as int);
        }
        let scaled: Fx = num.div(extentf);
        let r: Fx = scaled.sub(Fx::one());
        proof {
            assert(r.raw == jitter_value(index as int, extent as int, false, rnd.raw as int));
        }
        r
    } else {
        // v = (-2 * row + rnd) / height + 1
        let doubled: Fx = Fx::from_int(-2).mul(indexf);
        proof {
            let xx = indexf.raw as int;
            crate::fx::lemma_tdiv_exact(-2 * xx);
            assert((-2 * (FX_SCALE as int)) * xx == (-2 * xx) * (FX_SCALE as int))
                by (nonlinear_arith);
            assert(doubled.raw == -2 * xx);
        }
        let num: Fx = doubled.add(rnd);
        proof {
            lemma_scaled_ratio_bound(num.raw as int, extent as int);
        }
        let scaled: Fx = num.div(extentf);
        let r: Fx = scaled.add(Fx::one());
        proof {
            assert(r.raw == jitter_value(index as int, extent as int, true, rnd.raw as int));
        }
        r
    }
}

/// A numerator within twice the extent divides down to at most two whole
/// units.
proof fn lemma_scaled_ratio_bound(num: int, extent: int)
    requires
        1 <= extent <= 32768,
        -2 * extent * FX_SCALE <= num <= 2 * extent * FX_SCALE,
    ensures
        -FX_PROD_LIM <= num * FX_SCALE <= FX_PROD_LIM,
        -2 * FX_SCALE <= tdiv(num * FX_SCALE, extent * FX_SCALE) <= 2 * FX_SCALE,
{
    let s = FX_SCALE as int;
    assert(-2 * extent * s * s <= num * s <= 2 * extent * s * s && 2 * extent * s * s
        <= FX_PROD_LIM && (2 * s) * (extent * s) == 2 * extent * s * s && extent * s >= 1)
        by (nonlinear_arith)
        requires
            1 <= extent <= 32768,
            -2 * extent * s <= num <= 2 * extent * s,
            s == 68719476736,
    ;
    lemma_tdiv_bound(num * s, extent * s, 2 * extent * s * s);
    vstd::arithmetic::div_mod::lemma_div_by_multiple(2 * s, extent * s);
}

/// One random fraction in `[0, 1)`: a random 64-bit value reduced to the
/// unit scale.
fn random_fraction() -> (r: Fx)
    ensures
        0 <= r.raw < FX_SCALE,
{
    let v: u64 = rand::random::<u64>();
    let reduced: u64 = v % 68719476736u64;
    Fx { raw: reduced as i128 }
}

} // verus!
