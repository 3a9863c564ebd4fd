//! Spheres, and the quadratic ray-sphere intersection test.

use crate::fx::{fxdiv, fxmul, fxsqrt, lemma_fxmul_bound, Fx, FX_PROD_LIM, FX_SCALE};
use crate::material::{Light, Material};
use crate::objects::{
    narrowed, Intersection, DIR_GUARD, NORM_LIM, POS_GUARD, T_LIMIT, WORLD_LIM,
};
use crate::point3d::{
    dot_spec, lemma_dot_in_range, lemma_fxmul_self_nonneg, pt_diff, pt_neg, Point3D,
};
use crate::ray::{at_spec, Ray};
use vstd::prelude::*;

verus! {

/// A sphere: center, radius and surface material. With an emissive material
/// it doubles as the scene's light marker.
#[derive(Clone, Copy)]
pub struct Sphere {
    pub center: Point3D,
    pub radius: Fx,
    pub material: Material,
}

/// The parametric distance a sphere test accepts, if any: the smaller root
/// of the rounded quadratic when it falls strictly inside the window,
/// otherwise the larger root, otherwise nothing. A degenerate quadratic
/// (zero leading coefficient) or a negative discriminant is a miss.
pub open spec fn sphere_hit_t(s: Sphere, ray: Ray, t_min: int, t_max: int) -> Option<int> {
    let oc = pt_diff(ray.origin, s.center);
    let a = dot_spec(ray.direction, ray.direction);
    let h = dot_spec(oc, ray.direction);
    let c = dot_spec(oc, oc) - fxmul(s.radius.raw as int, s.radius.raw as int);
    let disc = fxmul(h, h) - fxmul(a, c);
    if a == 0 || disc < 0 {
        None
    } else {
        let sq = fxsqrt(disc);
        let r1 = fxdiv(-h - sq, a);
        if t_min < r1 < t_max {
            Some(r1)
        } else {
            let r2 = fxdiv(-h + sq, a);
            if t_min < r2 < t_max {
                Some(r2)
            } else {
                None
            }
        }
    }
}

/// The outward surface normal at the hit point: the offset from the center,
/// divided by the radius, before any front-face flip.
pub open spec fn sphere_normal_raw(s: Sphere, ray: Ray, t: int) -> Point3D {
    let p = at_spec(ray, t);
    Point3D {
        x: Fx { raw: fxdiv(p.x.raw - s.center.x.raw, s.radius.raw as int) as i128 },
        y: Fx { raw: fxdiv(p.y.raw - s.center.y.raw, s.radius.raw as int) as i128 },
        z: Fx { raw: fxdiv(p.z.raw - s.center.z.raw, s.radius.raw as int) as i128 },
    }
}

/// The full outcome of a sphere test: the accepted distance and the
/// front-facing normal. A ray outside the numeric guards, or a hit whose
/// computed normal overflows the normal budget, is treated as a miss.
pub open spec fn sphere_hit_spec(s: Sphere, ray: Ray, t_min: int, t_max: int) -> Option<
    (int, Point3D),
> {
    if !ray.origin.bounded(POS_GUARD as int) || !ray.direction.bounded(DIR_GUARD as int) {
        None
    } else {
        match sphere_hit_t(s, ray, t_min, t_max) {
            None => None,
            Some(t) => {
                let n0 = sphere_normal_raw(s, ray, t);
                if !n0.bounded(NORM_LIM as int) {
                    None
                } else if dot_spec(ray.direction, n0) < 0 {
                    Some((t, n0))
                } else {
                    Some((t, pt_neg(n0)))
                }
            },
        }
    }
}

impl Sphere {
    /// Center and radius within the world budget, radius positive, material
    /// well formed.
    pub open spec fn wf(self) -> bool {
        &&& self.center.bounded(WORLD_LIM as int)
        &&& 0 < self.radius.raw <= WORLD_LIM
        &&& self.material.wf()
    }

    pub fn new(center: Point3D, radius: Fx, material: Material) -> (r: Sphere)
        ensures
            r == (Sphere { center, radius, material }),
    {
        Sphere { center, radius, material }
    }

    /// A unit sphere carrying only an emissive material: the scene's light.
    pub fn new_light(center: Point3D, intensity: Fx) -> (r: Sphere)
        ensures
            r.center == center,
            r.radius.raw == FX_SCALE,
            r.material == Material::Light(Light { intensity }),
    {
        let l: Light = Light::new(intensity);
        let material: Material = Material::Light(l);
        Sphere { center, radius: Fx::one(), material }
    }

    /// Test the ray against the sphere, narrowing the record in place on a
    /// closer hit; the record is untouched on a miss.
    pub fn hit(&self, ray: &Ray, rec: &mut Intersection) -> (r: bool)
        requires
            self.wf(),
            old(rec).wf(),
        ensures
            final(rec).wf(),
            ({
                let res = sphere_hit_spec(
                    *self,
                    *ray,
                    old(rec).t_min.raw as int,
                    old(rec).t.raw as int,
                );
                match res {
                    None => !r && *final(rec) == *old(rec),
                    Some((t, n)) => {
                        &&& r
                        &&& narrowed(*old(rec), *final(rec), self.material)
                        &&& final(rec).t.raw == t
                        &&& final(rec).point == at_spec(*ray, t)
                        &&& final(rec).normal == n
                    },
                }
            }),
    {
        if !ray.origin.check_bounded(POS_GUARD) || !ray.direction.check_bounded(DIR_GUARD) {
            return false;
        }
        // Translate the origin so the sphere is centered; form the quadratic.
        let oc: Point3D = ray.origin.sub(self.center);
        proof {
            lemma_dot_in_range(ray.direction, ray.direction, DIR_GUARD as int, DIR_GUARD as int);
            lemma_dot_in_range(oc, ray.direction, (POS_GUARD + WORLD_LIM) as int, DIR_GUARD as int);
            lemma_dot_in_range(
                oc,
                oc,
                (POS_GUARD + WORLD_LIM) as int,
                (POS_GUARD + WORLD_LIM) as int,
            );
            lemma_fxmul_bound(
                self.radius.raw as int,
                self.radius.raw as int,
                WORLD_LIM as int,
                WORLD_LIM as int,
            );
            lemma_fxmul_self_nonneg(ray.direction.x.raw as int);
            lemma_fxmul_self_nonneg(ray.direction.y.raw as int);
            lemma_fxmul_self_nonneg(ray.direction.z.raw as int);
        }
        let a: Fx = ray.direction.length_squared();
        let half_b: Fx = oc.dot(&ray.direction);
        let oc2: Fx = oc.length_squared();
        let c: Fx = oc2.sub(self.radius.mul(self.radius));
        // The discriminant decides whether the ray meets the sphere at all.
        proof {
            lemma_fxmul_bound(
                half_b.raw as int,
                half_b.raw as int,
                4000000000000000000,
                4000000000000000000,
            );
            lemma_fxmul_bound(a.raw as int, c.raw as int, 3378303000000000, 3600000000000000000000);
        }
        let hh: Fx = half_b.mul(half_b);
        let ac: Fx = a.mul(c);
        let disc: Fx = hh.sub(ac);
        if a.raw == 0 || disc.raw < 0 {
            return false;
        }
        let sqrtd: Fx = disc.sqrt();
        proof {
            assert(sqrtd.raw * FX_SCALE <= FX_PROD_LIM && -FX_PROD_LIM <= -sqrtd.raw * FX_SCALE)
                by (nonlinear_arith)
                requires
                    0 <= sqrtd.raw < 0x10000000000000000,
                    FX_SCALE == 68719476736,
                    FX_PROD_LIM == 85070591730234615865843651857942052864,
            ;
        }
        // Prefer the nearer root; fall back to the farther one.
        let mut root: Fx = half_b.neg().sub(sqrtd).div(a);
        if root.raw <= rec.t_min.raw || root.raw >= rec.t.raw {
            root = half_b.neg().add(sqrtd).div(a);
            if root.raw <= rec.t_min.raw || root.raw >= rec.t.raw {
                return false;
            }
        }
        proof {
            assert(-FX_PROD_LIM <= ray.direction.x.raw * root.raw <= FX_PROD_LIM && -FX_PROD_LIM
                <= ray.direction.y.raw * root.raw <= FX_PROD_LIM && -FX_PROD_LIM
                <= ray.direction.z.raw * root.raw <= FX_PROD_LIM) by (nonlinear_arith)
                requires
                    ray.direction.bounded(DIR_GUARD as int),
                    0 < root.raw <= T_LIMIT,
                    DIR_GUARD == 8796093022208,
                    T_LIMIT == 35184372088832,
                    FX_PROD_LIM == 85070591730234615865843651857942052864,
            ;
            lemma_fxmul_bound(ray.direction.x.raw as int, root.raw as int, DIR_GUARD as int, T_LIMIT as int);
            lemma_fxmul_bound(ray.direction.y.raw as int, root.raw as int, DIR_GUARD as int, T_LIMIT as int);
            lemma_fxmul_bound(ray.direction.z.raw as int, root.raw as int, DIR_GUARD as int, T_LIMIT as int);
        }
        // Record the hit: point, front-facing normal, material, distance.
        let point: Point3D = ray.at(root);
        let n0: Point3D = point.sub(self.center).div(self.radius);
        if !n0.check_bounded(NORM_LIM) {
            return false;
        }
        proof {
            lemma_dot_in_range(ray.direction, n0, DIR_GUARD as int, NORM_LIM as int);
        }
        let front: Fx = ray.direction.dot(&n0);
        let normal: Point3D = if front.raw < 0 {
            n0
        } else {
            n0.neg()
        };
        rec.point = point;
        rec.normal = normal;
        rec.material = Some(self.material);
        rec.t = root;
        rec.hit_anything = true;
        true
    }
}

} // verus!
