//! Rays: an origin and a direction, evaluated parametrically.

use crate::fx::{fxmul, lemma_tdiv_bound, Fx, FX_PROD_LIM, FX_SCALE};
use crate::point3d::{Point3D, PT_ADD_LIM};
use vstd::prelude::*;

verus! {

/// A ray `origin + direction * t`, for parameters `t >= 0`.
#[derive(Clone, Copy, Debug, PartialEq, Eq, Structural)]
pub struct Ray {
    pub origin: Point3D,
    pub direction: Point3D,
}

/// Where a ray stands at parameter `t`: each component of the direction is
/// scaled by `t` (rounding toward zero) and added exactly to the origin.
pub open spec fn at_spec(ray: Ray, t: int) -> Point3D {
    Point3D {
        x: Fx { raw: (ray.origin.x.raw + fxmul(ray.direction.x.raw as int, t)) as i128 },
        y: Fx { raw: (ray.origin.y.raw + fxmul(ray.direction.y.raw as int, t)) as i128 },
        z: Fx { raw: (ray.origin.z.raw + fxmul(ray.direction.z.raw as int, t)) as i128 },
    }
}

impl Ray {
    pub fn new(origin: Point3D, direction: Point3D) -> (r: Ray)
        ensures
            r == (Ray { origin, direction }),
    {
        Ray { origin, direction }
    }

    /// The position along the ray at parameter `t`. At `t == 0` this is the
    /// origin itself, exactly.
    pub fn at(&self, t: Fx) -> (r: Point3D)
        requires
            self.origin.bounded(PT_ADD_LIM as int),
            -FX_PROD_LIM <= self.direction.x.raw * t.raw <= FX_PROD_LIM,
            -FX_PROD_LIM <= self.direction.y.raw * t.raw <= FX_PROD_LIM,
            -FX_PROD_LIM <= self.direction.z.raw * t.raw <= FX_PROD_LIM,
        ensures
            r == at_spec(*self, t.raw as int),
            t.raw == 0 ==> r == self.origin,
    {
        proof {
            lemma_tdiv_bound(self.direction.x.raw * t.raw, FX_SCALE as int, FX_PROD_LIM as int);
            lemma_tdiv_bound(self.direction.y.raw * t.raw, FX_SCALE as int, FX_PROD_LIM as int);
            lemma_tdiv_bound(self.direction.z.raw * t.raw, FX_SCALE as int, FX_PROD_LIM as int);
        }
        let step: Point3D = self.direction.scale(t);
        self.origin.add(step)
    }
}

} // verus!
