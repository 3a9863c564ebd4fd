//! The camera: an orthonormal-ish basis built from a look-at target, and
//! the mapping from screen coordinates to world-space rays.

use crate::fx::{fxmul, lemma_fxmul_bound, Fx, FX_SCALE};
use crate::objects::{DIR_GUARD, WORLD_LIM};
use crate::point3d::{
    cross_spec, dot_spec, lemma_dot_in_range, pt_diff, pt_scaled, pt_sum, unit_spec, Point3D,
    PT_UNIT_LIM,
};
use crate::ray::Ray;
use vstd::prelude::*;

verus! {

/// Largest raw magnitude of the camera's half-height (the field-of-view
/// tangent): 64 whole units.
pub const CAM_HEIGHT_LIM: i128 = 4398046511104;

/// Largest raw magnitude of the aspect ratio: 16 whole units.
pub const CAM_ASPECT_LIM: i128 = 1099511627776;

/// Largest raw magnitude of the camera's half-width.
pub const CAM_WIDTH_LIM: i128 = 70368744177664;

/// Largest raw magnitude of a screen coordinate handed to `make_ray`.
pub const CAM_UV_LIM: i128 = 274877906944;

/// A camera: origin, viewing basis, and the half-extents of the image
/// plane. Constructed once per render; immutable thereafter.
#[derive(Clone, Copy, Debug)]
pub struct Camera {
    pub origin: Point3D,
    pub forward: Point3D,
    pub up: Point3D,
    pub right: Point3D,
    pub width: Fx,
    pub height: Fx,
}

/// The ray through screen coordinates `(u, v)`: the forward direction
/// nudged sideways and upward by the scaled basis, normalized. A direction
/// too short to normalize falls back to the forward direction itself (a
/// degenerate camera is undefined behavior upstream; the fall-back only
/// keeps the function total).
pub open spec fn make_ray_spec(cam: Camera, u: int, v: int) -> Ray {
    let dir = pt_sum(
        pt_sum(cam.forward, pt_scaled(pt_scaled(cam.right, cam.width.raw as int), u)),
        pt_scaled(pt_scaled(cam.up, cam.height.raw as int), v),
    );
    if dot_spec(dir, dir) >= 1 {
        Ray { origin: cam.origin, direction: unit_spec(dir) }
    } else {
        Ray { origin: cam.origin, direction: cam.forward }
    }
}

impl Camera {
    /// Origin in the world budget, basis vectors bounded, image-plane
    /// extents bounded.
    pub open spec fn wf(self) -> bool {
        &&& self.origin.bounded(WORLD_LIM as int)
        &&& self.forward.bounded(2 * FX_SCALE)
        &&& self.right.bounded(2 * FX_SCALE)
        &&& self.up.bounded(8 * FX_SCALE)
        &&& -CAM_WIDTH_LIM <= self.width.raw <= CAM_WIDTH_LIM
        &&& -CAM_HEIGHT_LIM <= self.height.raw <= CAM_HEIGHT_LIM
    }

    /// Derive the viewing basis from a look-at target and an up-guide, and
    /// the image-plane extents from the field-of-view's tangent
    /// (`half_height`) and the aspect ratio. A camera whose target
    /// coincides with its origin, or whose up-guide is parallel to the
    /// view direction, is undefined behavior upstream: the preconditions
    /// exclude both.
    pub fn new(
        origin: Point3D,
        target: Point3D,
        up_guide: Point3D,
        half_height: Fx,
        aspect_ratio: Fx,
    ) -> (r: Camera)
        requires
            origin.bounded(WORLD_LIM as int),
            target.bounded(WORLD_LIM as int),
            up_guide.bounded(WORLD_LIM as int),
            dot_spec(pt_diff(target, origin), pt_diff(target, origin)) >= 1,
            ({
                let fwd = unit_spec(pt_diff(target, origin));
                dot_spec(cross_spec(fwd, up_guide), cross_spec(fwd, up_guide)) >= 1
            }),
            -CAM_HEIGHT_LIM <= half_height.raw <= CAM_HEIGHT_LIM,
            0 <= aspect_ratio.raw <= CAM_ASPECT_LIM,
        ensures
            r.wf(),
            r.origin == origin,
            r.forward == unit_spec(pt_diff(target, origin)),
            r.right == unit_spec(cross_spec(unit_spec(pt_diff(target, origin)), up_guide)),
            r.up == cross_spec(r.right, r.forward),
            r.height == half_height,
            r.width.raw == fxmul(half_height.raw as int, aspect_ratio.raw as int),
    {
        let forward: Point3D = target.sub(origin).unit_vector();
        proof {
            crate::point3d::lemma_cross_in_range(forward, up_guide, 2 * FX_SCALE, WORLD_LIM as int);
        }
        let right: Point3D = forward.cross(&up_guide).unit_vector();
        proof {
            crate::point3d::lemma_cross_in_range(right, forward, 2 * FX_SCALE, 2 * FX_SCALE);
        }
        let up: Point3D = right.cross(&forward);
        proof {
            lemma_fxmul_bound(
                half_height.raw as int,
                aspect_ratio.raw as int,
                CAM_HEIGHT_LIM as int,
                CAM_ASPECT_LIM as int,
            );
        }
        let width: Fx = half_height.mul(aspect_ratio);
        Camera { origin, forward, up, right, width, height: half_height }
    }

    /// The camera ray through screen coordinates `(u, v)`.
    pub fn make_ray(&self, u: Fx, v: Fx) -> (r: Ray)
        requires
            self.wf(),
            -CAM_UV_LIM <= u.raw <= CAM_UV_LIM,
            -CAM_UV_LIM <= v.raw <= CAM_UV_LIM,
        ensures
            r == make_ray_spec(*self, u.raw as int, v.raw as int),
            r.origin == self.origin,
            r.direction.bounded(DIR_GUARD as int),
    {
        proof {
            lemma_fxmul_bound(
                self.right.x.raw as int,
                self.width.raw as int,
                2 * FX_SCALE,
                CAM_WIDTH_LIM as int,
            );
            lemma_fxmul_bound(
                self.right.y.raw as int,
                self.width.raw as int,
                2 * FX_SCALE,
                CAM_WIDTH_LIM as int,
            );
            lemma_fxmul_bound(
                self.right.z.raw as int,
                self.width.raw as int,
                2 * FX_SCALE,
                CAM_WIDTH_LIM as int,
            );
            lemma_fxmul_bound(
                self.up.x.raw as int,
                self.height.raw as int,
                8 * FX_SCALE,
                CAM_HEIGHT_LIM as int,
            );
            lemma_fxmul_bound(
                self.up.y.raw as int,
                self.height.raw as int,
                8 * FX_SCALE,
                CAM_HEIGHT_LIM as int,
            );
            lemma_fxmul_bound(
                self.up.z.raw as int,
                self.height.raw as int,
                8 * FX_SCALE,
                CAM_HEIGHT_LIM as int,
            );
        }
        let sideways: Point3D = self.right.scale(self.width);
        let upward: Point3D = self.up.scale(self.height);
        proof {
            let sw = 3 * (((2 * FX_SCALE) * CAM_WIDTH_LIM) / (FX_SCALE as int));
            lemma_fxmul_bound(sideways.x.raw as int, u.raw as int, sw, CAM_UV_LIM as int);
            lemma_fxmul_bound(sideways.y.raw as int, u.raw as int, sw, CAM_UV_LIM as int);
            lemma_fxmul_bound(sideways.z.raw as int, u.raw as int, sw, CAM_UV_LIM as int);
            let uw = 3 * (((8 * FX_SCALE) * CAM_HEIGHT_LIM) / (FX_SCALE as int));
            lemma_fxmul_bound(upward.x.raw as int, v.raw as int, uw, CAM_UV_LIM as int);
            lemma_fxmul_bound(upward.y.raw as int, v.raw as int, uw, CAM_UV_LIM as int);
            lemma_fxmul_bound(upward.z.raw as int, v.raw as int, uw, CAM_UV_LIM as int);
        }
        let direction: Point3D = self.forward.add(sideways.scale(u)).add(upward.scale(v));
        proof {
            lemma_dot_in_range(direction, direction, PT_UNIT_LIM as int, PT_UNIT_LIM as int);
        }
        let ls: Fx = direction.length_squared();
        if ls.raw < 1 {
            return Ray::new(self.origin, self.forward);
        }
        Ray::new(self.origin, direction.unit_vector())
    }
}

} // verus!
