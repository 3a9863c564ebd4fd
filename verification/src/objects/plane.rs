//! Infinite planes, and the linear ray-plane intersection test.

use crate::color::Color;
use crate::fx::{fxdiv, Fx, FX_SCALE};
use crate::material::{Material, Matte};
use crate::objects::{
    narrowed, Intersection, DIR_GUARD, NORM_LIM, POS_GUARD, T_LIMIT, WORLD_LIM,
};
use crate::point3d::{dot_spec, lemma_dot_in_range, pt_diff, Point3D};
use crate::ray::{at_spec, Ray};
use vstd::prelude::*;

verus! {

/// A plane through a point with a fixed normal, carrying a gray matte
/// surface.
#[derive(Clone, Copy)]
pub struct Plane {
    pub point: Point3D,
    pub normal: Point3D,
    pub material: Material,
}

/// The parametric distance a plane test accepts, if any: the linear solution
/// when the ray is not parallel to the plane and the distance falls strictly
/// inside the window. A zero denominator (a parallel ray) is a miss.
pub open spec fn plane_hit_t(p: Plane, ray: Ray, t_min: int, t_max: int) -> Option<int> {
    let dn = dot_spec(p.normal, ray.direction);
    if dn == 0 {
        None
    } else {
        let t = fxdiv(dot_spec(p.normal, pt_diff(p.point, ray.origin)), dn);
        if t_min < t < t_max {
            Some(t)
        } else {
            None
        }
    }
}

/// The full outcome of a plane test: a ray outside the numeric guards is a
/// miss; the recorded normal is the plane's own, unflipped.
pub open spec fn plane_hit_spec(p: Plane, ray: Ray, t_min: int, t_max: int) -> Option<int> {
    if !ray.origin.bounded(POS_GUARD as int) || !ray.direction.bounded(DIR_GUARD as int) {
        None
    } else {
        plane_hit_t(p, ray, t_min, t_max)
    }
}

impl Plane {
    /// Anchor point within the world budget, normal within the normal
    /// budget, material well formed.
    pub open spec fn wf(self) -> bool {
        &&& self.point.bounded(WORLD_LIM as int)
        &&& self.normal.bounded(NORM_LIM as int)
        &&& self.material.wf()
    }

    /// A plane with a gray matte surface.
    pub fn new(point: Point3D, normal: Point3D) -> (r: Plane)
        ensures
            r.point == point,
            r.normal == normal,
            (r.material matches Material::Matte(m) && m.color.channels_in(
                crate::fx::tdiv(4 * FX_SCALE, 10),
                crate::fx::tdiv(4 * FX_SCALE, 10),
            )),
            r.material.wf(),
    {
        let matte: Matte = Matte::new(Color::gray());
        proof {
            crate::fx::lemma_tdiv_bound(4 * FX_SCALE, 10, 4 * FX_SCALE);
        }
        let material: Material = Material::Matte(matte);
        Plane { point, normal, material }
    }

    /// Test the ray against the plane, narrowing the record in place on a
    /// closer hit; the record is untouched on a miss.
    pub fn hit(&self, ray: &Ray, rec: &mut Intersection) -> (r: bool)
        requires
            self.wf(),
            old(rec).wf(),
        ensures
            final(rec).wf(),
            ({
                let res = plane_hit_spec(
                    *self,
                    *ray,
                    old(rec).t_min.raw as int,
                    old(rec).t.raw as int,
                );
                match res {
                    None => !r && *final(rec) == *old(rec),
                    Some(t) => {
                        &&& r
                        &&& narrowed(*old(rec), *final(rec), self.material)
                        &&& final(rec).t.raw == t
                        &&& final(rec).point == at_spec(*ray, t)
                        &&& final(rec).normal == self.normal
                    },
                }
            }),
    {
        if !ray.origin.check_bounded(POS_GUARD) || !ray.direction.check_bounded(DIR_GUARD) {
            return false;
        }
        proof {
            lemma_dot_in_range(self.normal, ray.direction, NORM_LIM as int, DIR_GUARD as int);
        }
        let d_dot_n: Fx = self.normal.dot(&ray.direction);
        if d_dot_n.raw == 0 {
            // The ray runs parallel to the plane.
            return false;
        }
        let offset: Point3D = self.point.sub(ray.origin);
        proof {
            lemma_dot_in_range(self.normal, offset, NORM_LIM as int, (WORLD_LIM + POS_GUARD) as int);
        }
        let t: Fx = self.normal.dot(&offset).div(d_dot_n);
        if t.raw <= rec.t_min.raw || t.raw >= rec.t.raw {
            return false;
        }
        proof {
            crate::fx::lemma_fxmul_bound(
                ray.direction.x.raw as int,
                t.raw as int,
                DIR_GUARD as int,
                T_LIMIT as int,
            );
            crate::fx::lemma_fxmul_bound(
                ray.direction.y.raw as int,
                t.raw as int,
                DIR_GUARD as int,
                T_LIMIT as int,
            );
            crate::fx::lemma_fxmul_bound(
                ray.direction.z.raw as int,
                t.raw as int,
                DIR_GUARD as int,
                T_LIMIT as int,
            );
        }
        rec.point = ray.at(t);
        rec.normal = self.normal;
        rec.material = Some(self.material);
        rec.t = t;
        rec.hit_anything = true;
        true
    }
}

} // verus!
