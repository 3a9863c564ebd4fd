//! Scene primitives and the intersection record they narrow.

pub mod cube;
pub mod cylinder;
pub mod plane;
pub mod sphere;

pub use cube::Cube;
pub use cylinder::Cylinder;
pub use plane::Plane;
pub use sphere::Sphere;

use crate::fx::Fx;
use crate::material::Material;
use crate::objects::cube::cube_hit_spec;
use crate::objects::cylinder::cylinder_hit_spec;
use crate::objects::plane::plane_hit_spec;
use crate::objects::sphere::sphere_hit_spec;
use crate::point3d::Point3D;
use crate::ray::{at_spec, Ray};
use vstd::prelude::*;

verus! {

/// Largest raw magnitude of scene data: centers, corners, radii, heights,
/// light positions and intensities (512 whole units).
pub const WORLD_LIM: i128 = 35184372088832;

/// Largest raw magnitude of a surface normal stored in a record (two units).
pub const NORM_LIM: i128 = 137438953472;

/// Largest raw magnitude of a ray direction a hit test accepts (128 units).
pub const DIR_GUARD: i128 = 8796093022208;

/// Largest raw magnitude of a ray origin a hit test accepts (2^17 units).
pub const POS_GUARD: i128 = 9007199254740992;

/// Largest raw magnitude of a recorded hit point.
pub const POINT_LIM: i128 = 18014398509481984;

/// The initial acceptance window ceiling: a very large parametric distance
/// (512 units), standing in for infinity.
pub const T_LIMIT: i128 = 35184372088832;

/// The default window floor: 0.001, suppressing self-intersection.
pub const T_MIN_DEFAULT: i128 = 68719476;

/// The running result of testing a ray against the scene: the nearest hit
/// found so far, and the acceptance window `(t_min, t)` a closer hit must
/// fall in.
#[derive(Clone, Copy)]
pub struct Intersection {
    pub point: Point3D,
    pub normal: Point3D,
    pub t: Fx,
    pub material: Option<Material>,
    pub t_min: Fx,
    pub hit_anything: bool,
}

/// The record every scene query starts from: nothing hit, the window open
/// from the default floor up to the very large ceiling.
pub open spec fn initial_intersection() -> Intersection {
    Intersection {
        point: Point3D { x: Fx { raw: 0 }, y: Fx { raw: 0 }, z: Fx { raw: 0 } },
        normal: Point3D { x: Fx { raw: 0 }, y: Fx { raw: 0 }, z: Fx { raw: 0 } },
        t: Fx { raw: T_LIMIT as i128 },
        material: Option::None,
        t_min: Fx { raw: T_MIN_DEFAULT as i128 },
        hit_anything: false,
    }
}

impl Intersection {
    /// The record stays inside the world budget: the window is ordered and
    /// positive, the hit point and normal are bounded, and a flagged hit
    /// carries a well-formed material.
    pub open spec fn wf(self) -> bool {
        &&& 0 < self.t_min.raw
        &&& self.t_min.raw <= self.t.raw <= T_LIMIT
        &&& self.point.bounded(POINT_LIM as int)
        &&& self.normal.bounded(NORM_LIM as int)
        &&& self.hit_anything ==> (self.material matches Some(m) && m.wf())
    }

    /// A fresh record: nothing hit, the window open from the default floor
    /// up to the very large ceiling.
    pub fn new() -> (r: Intersection)
        ensures
            r.t.raw == T_LIMIT,
            r.t_min.raw == T_MIN_DEFAULT,
            !r.hit_anything,
            r.material is None,
            r.wf(),
            r == initial_intersection(),
    {
        Intersection {
            point: Point3D::zero(),
            normal: Point3D::zero(),
            t: Fx::from_raw(T_LIMIT),
            material: None,
            hit_anything: false,
            t_min: Fx::from_raw(T_MIN_DEFAULT),
        }
    }
}

/// What every accepted hit guarantees: the record was narrowed in place, the
/// new distance lies strictly inside the old window, the geometry is bounded
/// and the material is the shape's own.
pub open spec fn narrowed(old_rec: Intersection, new_rec: Intersection, m: Material) -> bool {
    &&& old_rec.t_min.raw < new_rec.t.raw < old_rec.t.raw
    &&& new_rec.t_min == old_rec.t_min
    &&& new_rec.material == Some(m)
    &&& new_rec.hit_anything
}

/// A scene primitive: the closed set of shapes a ray can intersect,
/// dispatched by pattern match.
#[derive(Clone, Copy)]
pub enum Primitive {
    Sphere(Sphere),
    Plane(Plane),
    Cube(Cube),
    Cylinder(Cylinder),
}

impl Primitive {
    pub open spec fn wf(self) -> bool {
        match self {
            Primitive::Sphere(s) => s.wf(),
            Primitive::Plane(p) => p.wf(),
            Primitive::Cube(c) => c.wf(),
            Primitive::Cylinder(c) => c.wf(),
        }
    }

    /// The material a hit on this primitive records.
    pub open spec fn material_of(self) -> Material {
        match self {
            Primitive::Sphere(s) => s.material,
            Primitive::Plane(p) => p.material,
            Primitive::Cube(c) => c.material,
            Primitive::Cylinder(c) => c.material,
        }
    }

    /// The outcome of this primitive's own intersection test: the accepted
    /// distance and the recorded normal, if any.
    pub open spec fn hit_spec(self, ray: Ray, t_min: int, t_max: int) -> Option<(int, Point3D)> {
        match self {
            Primitive::Sphere(s) => sphere_hit_spec(s, ray, t_min, t_max),
            Primitive::Plane(p) => match plane_hit_spec(p, ray, t_min, t_max) {
                Option::Some(t) => Option::Some((t, p.normal)),
                Option::None => Option::None,
            },
            Primitive::Cube(c) => cube_hit_spec(c, ray, t_min, t_max),
            Primitive::Cylinder(c) => cylinder_hit_spec(c, ray, t_min, t_max),
        }
    }

    /// Test the ray against the primitive, narrowing the record in place on
    /// a closer hit; the record is untouched on a miss.
    pub fn hit(&self, ray: &Ray, rec: &mut Intersection) -> (r: bool)
        requires
            self.wf(),
            old(rec).wf(),
        ensures
            final(rec).wf(),
            ({
                let res = self.hit_spec(*ray, old(rec).t_min.raw as int, old(rec).t.raw as int);
                match res {
                    None => !r && *final(rec) == *old(rec),
                    Some((t, n)) => {
                        &&& r
                        &&& narrowed(*old(rec), *final(rec), self.material_of())
                        &&& final(rec).t.raw == t
                        &&& final(rec).point == at_spec(*ray, t)
                        &&& final(rec).normal == n
                    },
                }
            }),
    {
        match self {
            Primitive::Sphere(s) => s.hit(ray, rec),
            Primitive::Plane(p) => p.hit(ray, rec),
            Primitive::Cube(c) => c.hit(ray, rec),
            Primitive::Cylinder(c) => c.hit(ray, rec),
        }
    }
}

} // verus!
