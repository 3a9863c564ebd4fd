//! Materials: how a ray bounces off a surface, and what color it keeps.

use crate::color::Color;
use crate::fx::{fxmul, lemma_fxmul_bound, Fx, FX_SCALE};
use crate::objects::{Intersection, DIR_GUARD, NORM_LIM, POINT_LIM, WORLD_LIM};
use crate::point3d::{dot_spec, lemma_dot_in_range, near_zero_spec, pt_sum, unit_spec, Point3D};
use crate::ray::Ray;
use vstd::prelude::*;

verus! {

/// A surface's scattering behavior: diffuse, mirror-reflective, or emissive.
#[derive(Clone, Copy, Debug)]
pub enum Material {
    Matte(Matte),
    Metal(Metal),
    Light(Light),
}

/// A diffuse surface with a fixed albedo.
#[derive(Clone, Copy, Debug)]
pub struct Matte {
    pub color: Color,
}

/// A mirror surface; reflects with a fixed (white) attenuation.
#[derive(Clone, Copy, Debug)]
pub struct Metal {
    pub color: Color,
}

/// An emitter: never scatters, carries an intensity for direct lighting.
#[derive(Clone, Copy, Debug)]
pub struct Light {
    pub intensity: Fx,
}

/// Mirror reflection `v - 2 (v . n) n`, over rounded products.
pub open spec fn reflect_spec(v: Point3D, n: Point3D) -> Point3D {
    let d = dot_spec(v, n);
    Point3D {
        x: Fx { raw: (v.x.raw - fxmul(2 * n.x.raw, d)) as i128 },
        y: Fx { raw: (v.y.raw - fxmul(2 * n.y.raw, d)) as i128 },
        z: Fx { raw: (v.z.raw - fxmul(2 * n.z.raw, d)) as i128 },
    }
}

/// A diffuse bounce direction: the surface normal nudged by some unit
/// vector, or the normal itself when the nudged sum degenerates to
/// (numerically) zero or the sampler gives up.
pub open spec fn matte_dir_ok(n: Point3D, d: Point3D) -> bool {
    ||| d == n
    ||| exists|u: Point3D|
        {
            &&& #[trigger] u.bounded(2 * FX_SCALE)
            &&& d == pt_sum(n, u)
            &&& !near_zero_spec(d)
        }
}

/// What scattering on a matte surface guarantees: always a bounce, from the
/// hit point, in an admissible diffuse direction, keeping the albedo.
pub open spec fn matte_post(m: Matte, hit: Intersection, r: Option<(Ray, Color)>) -> bool {
    &&& r is Some
    &&& r matches Some(rc) ==> {
        &&& rc.0.origin == hit.point
        &&& rc.0.direction.bounded(DIR_GUARD as int)
        &&& matte_dir_ok(hit.normal, rc.0.direction)
        &&& rc.1 == m.color
    }
}

/// What scattering on a metal surface guarantees: a bounce exactly when the
/// incoming direction is long enough to normalize and the reflection does
/// not point into the surface; the bounce is the exact mirror reflection.
pub open spec fn metal_post(m: Metal, ray: Ray, hit: Intersection, r: Option<(Ray, Color)>) -> bool {
    let refl = reflect_spec(unit_spec(ray.direction), hit.normal);
    &&& (r is Some <==> (dot_spec(ray.direction, ray.direction) >= 1 && dot_spec(refl, hit.normal)
        >= 0))
    &&& r matches Some(rc) ==> {
        &&& rc.0.origin == hit.point
        &&& rc.0.direction == refl
        &&& rc.0.direction.bounded(DIR_GUARD as int)
        &&& rc.1 == m.color
    }
}

impl Material {
    /// The channels of an albedo stay within one unit; an emitter's
    /// intensity stays within the world budget.
    pub open spec fn wf(self) -> bool {
        match self {
            Material::Matte(m) => m.color.channels_in(0, FX_SCALE as int),
            Material::Metal(m) => m.color.channels_in(0, FX_SCALE as int),
            Material::Light(l) => 0 <= l.intensity.raw <= WORLD_LIM,
        }
    }

    /// The emitted intensity: the light's own scalar; one for every other
    /// material.
    pub open spec fn intensity_spec(self) -> int {
        match self {
            Material::Matte(_) => FX_SCALE as int,
            Material::Metal(_) => FX_SCALE as int,
            Material::Light(l) => l.intensity.raw as int,
        }
    }

    pub fn intensity(&self) -> (r: Fx)
        ensures
            r.raw == self.intensity_spec(),
    {
        match self {
            Material::Matte(_) => Fx::one(),
            Material::Metal(_) => Fx::one(),
            Material::Light(l) => l.intensity,
        }
    }

    /// Dispatch scattering to the variant's own rule.
    pub fn scatter(&self, ray: &Ray, hit: &Intersection) -> (r: Option<(Ray, Color)>)
        requires
            self.wf(),
            hit.point.bounded(POINT_LIM as int),
            hit.normal.bounded(NORM_LIM as int),
            ray.direction.bounded(DIR_GUARD as int),
        ensures
            self matches Material::Matte(m) ==> matte_post(*m, *hit, r),
            self matches Material::Metal(m) ==> metal_post(*m, *ray, *hit, r),
            self matches Material::Light(_) ==> r is None,
    {
        match self {
            Material::Matte(m) => m.scatter(ray, hit),
            Material::Metal(m) => m.scatter(ray, hit),
            Material::Light(l) => l.scatter(ray, hit),
        }
    }
}

impl Matte {
    pub fn new(color: Color) -> (r: Matte)
        ensures
            r.color == color,
    {
        Matte { color }
    }

    /// Diffuse bounce: nudge the normal by a random unit vector; fall back
    /// to the normal itself when the sum degenerates or the sampler fails.
    pub fn scatter(&self, _ray: &Ray, hit: &Intersection) -> (r: Option<(Ray, Color)>)
        requires
            hit.point.bounded(POINT_LIM as int),
            hit.normal.bounded(NORM_LIM as int),
        ensures
            matte_post(*self, *hit, r),
    {
        let mut scatter_direction: Point3D = match Point3D::random_unit_vector() {
            Some(u) => hit.normal.add(u),
            None => hit.normal,
        };
        if scatter_direction.near_zero() {
            scatter_direction = hit.normal;
        }
        let ghost chosen = scatter_direction;
        let target: Point3D = hit.point.add(scatter_direction);
        let bounced_ray: Ray = Ray::new(hit.point, target.sub(hit.point));
        proof {
            assert(bounced_ray.direction == chosen);
        }
        Some((bounced_ray, self.color))
    }
}

impl Metal {
    pub fn new() -> (r: Metal)
        ensures
            r.color.channels_in(FX_SCALE as int, FX_SCALE as int),
            r.color.channels_in(0, FX_SCALE as int),
    {
        Metal { color: Color::white() }
    }

    /// Mirror reflection `v - 2 (v . n) n`; the doubling of the normal is
    /// exact, the two products round toward zero.
    pub fn reflect(v: &Point3D, n: &Point3D) -> (r: Point3D)
        requires
            v.bounded(2 * FX_SCALE),
            n.bounded(NORM_LIM as int),
        ensures
            r == reflect_spec(*v, *n),
            r.bounded(DIR_GUARD as int),
    {
        proof {
            lemma_dot_in_range(*v, *n, 2 * FX_SCALE, NORM_LIM as int);
        }
        let d: Fx = v.dot(n);
        let twice: Point3D = n.add(*n);
        proof {
            let db = 3 * ((2 * FX_SCALE * NORM_LIM) / (FX_SCALE as int));
            lemma_fxmul_bound(twice.x.raw as int, d.raw as int, 2 * NORM_LIM, db);
            lemma_fxmul_bound(twice.y.raw as int, d.raw as int, 2 * NORM_LIM, db);
            lemma_fxmul_bound(twice.z.raw as int, d.raw as int, 2 * NORM_LIM, db);
        }
        let step: Point3D = twice.scale(d);
        v.sub(step)
    }

    /// Reflect the (normalized) incoming direction; absorb the ray when it
    /// cannot be normalized or when the reflection points into the surface.
    pub fn scatter(&self, ray: &Ray, hit: &Intersection) -> (r: Option<(Ray, Color)>)
        requires
            hit.point.bounded(POINT_LIM as int),
            hit.normal.bounded(NORM_LIM as int),
            ray.direction.bounded(DIR_GUARD as int),
        ensures
            metal_post(*self, *ray, *hit, r),
    {
        proof {
            lemma_dot_in_range(ray.direction, ray.direction, DIR_GUARD as int, DIR_GUARD as int);
        }
        let ls: Fx = ray.direction.length_squared();
        if ls.raw < 1 {
            return None;
        }
        let unit_in: Point3D = ray.direction.unit_vector();
        let reflected: Point3D = Metal::reflect(&unit_in, &hit.normal);
        let scattered: Ray = Ray::new(hit.point, reflected);
        proof {
            lemma_dot_in_range(scattered.direction, hit.normal, DIR_GUARD as int, NORM_LIM as int);
        }
        let facing: Fx = scattered.direction.dot(&hit.normal);
        if facing.raw < 0 {
            return None;
        }
        Some((scattered, self.color))
    }
}

impl Light {
    pub fn new(intensity: Fx) -> (r: Light)
        ensures
            r.intensity == intensity,
    {
        Light { intensity }
    }

    /// An emitter absorbs every path.
    pub fn scatter(&self, _ray: &Ray, _hit: &Intersection) -> (r: Option<(Ray, Color)>)
        ensures
            r is None,
    {
        None
    }
}

} // verus!
