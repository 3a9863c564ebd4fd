//! Axis-aligned boxes, intersected by the slab method.

use crate::fx::{fxdiv, Fx, FX_SCALE};
use crate::material::Material;
use crate::objects::{
    narrowed, Intersection, DIR_GUARD, NORM_LIM, POINT_LIM, POS_GUARD, T_LIMIT, WORLD_LIM,
};
use crate::point3d::Point3D;
use crate::ray::{at_spec, Ray};
use vstd::prelude::*;

verus! {

/// How far a hit point may sit from a face and still take that face's
/// normal: 0.01, in raw units.
pub const CUBE_EPS: i128 = 687194767;

/// A sentinel parametric distance beyond every representable `t`: slabs a
/// ray crosses freely (a zero direction component inside the slab) extend
/// this far either way.
pub const T_OPEN: i128 = 85070591730234615865843651857942052864;

/// An axis-aligned box between two corner points: `min` carries the
/// smallest coordinates, `max` the largest.
#[derive(Clone, Copy)]
pub struct Cube {
    pub min: Point3D,
    pub max: Point3D,
    pub material: Material,
}

/// The parametric interval in which a ray stays inside one slab `[lo, hi]`.
/// A ray running parallel to the slab (zero direction component) crosses it
/// over the whole line when its origin lies inside, and never when outside.
pub open spec fn slab_spec(o: int, d: int, lo: int, hi: int) -> Option<(int, int)> {
    if d == 0 {
        if o < lo || o > hi {
            None
        } else {
            Some((-T_OPEN as int, T_OPEN as int))
        }
    } else {
        let t1 = fxdiv(lo - o, d);
        let t2 = fxdiv(hi - o, d);
        if t1 > t2 {
            Some((t2, t1))
        } else {
            Some((t1, t2))
        }
    }
}

/// The entry distance the slab method accepts, if any: the three per-axis
/// intervals are intersected pairwise, and the entry of the intersection
/// must fall strictly inside the window.
pub open spec fn cube_hit_t(cb: Cube, ray: Ray, t_min_b: int, t_max_b: int) -> Option<int> {
    match slab_spec(ray.origin.x.raw as int, ray.direction.x.raw as int, cb.min.x.raw as int,
        cb.max.x.raw as int) {
        None => None,
        Some((tx1, tx2)) => match slab_spec(ray.origin.y.raw as int, ray.direction.y.raw as int,
            cb.min.y.raw as int, cb.max.y.raw as int) {
            None => None,
            Some((ty1, ty2)) => if tx1 > ty2 || ty1 > tx2 {
                None
            } else {
                let lo1 = if ty1 > tx1 { ty1 } else { tx1 };
                let hi1 = if ty2 < tx2 { ty2 } else { tx2 };
                match slab_spec(ray.origin.z.raw as int, ray.direction.z.raw as int,
                    cb.min.z.raw as int, cb.max.z.raw as int) {
                    None => None,
                    Some((tz1, tz2)) => if lo1 > tz2 || tz1 > hi1 {
                        None
                    } else {
                        let lo2 = if tz1 > lo1 { tz1 } else { lo1 };
                        if t_min_b < lo2 < t_max_b {
                            Some(lo2)
                        } else {
                            None
                        }
                    },
                }
            },
        },
    }
}

/// The face normal at a hit point: for each axis, the maximum face wins
/// over the minimum face when the point sits within `CUBE_EPS` of both
/// (edges and corners keep this documented non-uniqueness).
pub open spec fn cube_normal_spec(cb: Cube, p: Point3D) -> Point3D {
    Point3D {
        x: Fx {
            raw: if -CUBE_EPS < p.x.raw - cb.max.x.raw < CUBE_EPS {
                FX_SCALE as i128
            } else if -CUBE_EPS < p.x.raw - cb.min.x.raw < CUBE_EPS {
                (-FX_SCALE) as i128
            } else {
                0
            },
        },
        y: Fx {
            raw: if -CUBE_EPS < p.y.raw - cb.max.y.raw < CUBE_EPS {
                FX_SCALE as i128
            } else if -CUBE_EPS < p.y.raw - cb.min.y.raw < CUBE_EPS {
                (-FX_SCALE) as i128
            } else {
                0
            },
        },
        z: Fx {
            raw: if -CUBE_EPS < p.z.raw - cb.max.z.raw < CUBE_EPS {
                FX_SCALE as i128
            } else if -CUBE_EPS < p.z.raw - cb.min.z.raw < CUBE_EPS {
                (-FX_SCALE) as i128
            } else {
                0
            },
        },
    }
}

/// The full outcome of a cube test: a ray outside the numeric guards is a
/// miss.
pub open spec fn cube_hit_spec(cb: Cube, ray: Ray, t_min_b: int, t_max_b: int) -> Option<
    (int, Point3D),
> {
    if !ray.origin.bounded(POS_GUARD as int) || !ray.direction.bounded(DIR_GUARD as int) {
        None
    } else {
        match cube_hit_t(cb, ray, t_min_b, t_max_b) {
            None => None,
            Some(t) => Some((t, cube_normal_spec(cb, at_spec(ray, t)))),
        }
    }
}

impl Cube {
    /// Corners within the world budget, material well formed.
    pub open spec fn wf(self) -> bool {
        &&& self.min.bounded(WORLD_LIM as int)
        &&& self.max.bounded(WORLD_LIM as int)
        &&& self.material.wf()
    }

    pub fn new(min: Point3D, max: Point3D, material: Material) -> (r: Cube)
        ensures
            r == (Cube { min, max, material }),
    {
        Cube { min, max, material }
    }

    /// The face normal at a point on the box's surface.
    fn normal(&self, point: &Point3D) -> (n: Point3D)
        requires
            self.wf(),
            point.bounded(POINT_LIM as int),
        ensures
            n == cube_normal_spec(*self, *point),
            n.bounded(NORM_LIM as int),
    {
        let mut normal: Point3D = Point3D::zero();
        if in_eps(point.x.raw, self.min.x.raw) {
            normal.set_x(Fx::one().neg());
        }
        if in_eps(point.x.raw, self.max.x.raw) {
            normal.set_x(Fx::one());
        }
        if in_eps(point.y.raw, self.min.y.raw) {
            normal.set_y(Fx::one().neg());
        }
        if in_eps(point.y.raw, self.max.y.raw) {
            normal.set_y(Fx::one());
        }
        if in_eps(point.z.raw, self.min.z.raw) {
            normal.set_z(Fx::one().neg());
        }
        if in_eps(point.z.raw, self.max.z.raw) {
            normal.set_z(Fx::one());
        }
        normal
    }

    /// Test the ray against the box, narrowing the record in place on a
    /// closer hit; the record is untouched on a miss.
    pub fn hit(&self, ray: &Ray, rec: &mut Intersection) -> (r: bool)
        requires
            self.wf(),
            old(rec).wf(),
        ensures
            final(rec).wf(),
            ({
                let res = cube_hit_spec(
                    *self,
                    *ray,
                    old(rec).t_min.raw as int,
                    old(rec).t.raw as int,
                );
                match res {
                    None => !r && *final(rec) == *old(rec),
                    Some((t, n)) => {
                        &&& r
                        &&& narrowed(*old(rec), *final(rec), self.material)
                        &&& final(rec).t.raw == t
                        &&& final(rec).point == at_spec(*ray, t)
                        &&& final(rec).normal == n
                    },
                }
            }),
    {
        if !ray.origin.check_bounded(POS_GUARD) || !ray.direction.check_bounded(DIR_GUARD) {
            return false;
        }
        let (mut t_min, mut t_max): (i128, i128) = match slab(
            ray.origin.x,
            ray.direction.x,
            self.min.x,
            self.max.x,
        ) {
            Some(i) => i,
            None => {
                return false;
            },
        };
        let (t_y_min, t_y_max): (i128, i128) = match slab(
            ray.origin.y,
            ray.direction.y,
            self.min.y,
            self.max.y,
        ) {
            Some(i) => i,
            None => {
                return false;
            },
        };
        if t_min > t_y_max || t_y_min > t_max {
            return false;
        }
        if t_y_min > t_min {
            t_min = t_y_min;
        }
        if t_y_max < t_max {
            t_max = t_y_max;
        }
        let (t_z_min, t_z_max): (i128, i128) = match slab(
            ray.origin.z,
            ray.direction.z,
            self.min.z,
            self.max.z,
        ) {
            Some(i) => i,
            None => {
                return false;
            },
        };
        if t_min > t_z_max || t_z_min > t_max {
            return false;
        }
        if t_z_min > t_min {
            t_min = t_z_min;
        }
        if t_min <= rec.t_min.raw || t_min >= rec.t.raw {
            return false;
        }
        let t: Fx = Fx::from_raw(t_min);
        proof {
            crate::fx::lemma_fxmul_bound(
                ray.direction.x.raw as int,
                t.raw as int,
                DIR_GUARD as int,
                T_LIMIT as int,
            );
            crate::fx::lemma_fxmul_bound(
                ray.direction.y.raw as int,
                t.raw as int,
                DIR_GUARD as int,
                T_LIMIT as int,
            );
            crate::fx::lemma_fxmul_bound(
                ray.direction.z.raw as int,
                t.raw as int,
                DIR_GUARD as int,
                T_LIMIT as int,
            );
        }
        let point: Point3D = ray.at(t);
        let normal: Point3D = self.normal(&point);
        rec.point = point;
        rec.normal = normal;
        rec.t = t;
        rec.material = Some(self.material);
        rec.hit_anything = true;
        true
    }
}

/// Whether a coordinate sits within `CUBE_EPS` of a face coordinate.
fn in_eps(a: i128, b: i128) -> (r: bool)
    requires
        -POINT_LIM <= a <= POINT_LIM,
        -WORLD_LIM <= b <= WORLD_LIM,
    ensures
        r == (-CUBE_EPS < a - b < CUBE_EPS),
{
    let d: i128 = a - b;
    -CUBE_EPS < d && d < CUBE_EPS
}

/// The parametric interval in which the ray stays inside one slab; `None`
/// when it never does.
fn slab(o: Fx, d: Fx, lo: Fx, hi: Fx) -> (r: Option<(i128, i128)>)
    requires
        -POS_GUARD <= o.raw <= POS_GUARD,
        -DIR_GUARD <= d.raw <= DIR_GUARD,
        -WORLD_LIM <= lo.raw <= WORLD_LIM,
        -WORLD_LIM <= hi.raw <= WORLD_LIM,
    ensures
        ({
            let s = slab_spec(o.raw as int, d.raw as int, lo.raw as int, hi.raw as int);
            match s {
                None => r is None,
                Some((t1, t2)) => r == Some((t1 as i128, t2 as i128)) && t1 <= t2,
            }
        }),
{
    if d.raw == 0 {
        if o.raw < lo.raw || o.raw > hi.raw {
            return None;
        }
        return Some((-T_OPEN, T_OPEN));
    }
    let t1: Fx = lo.sub(o).div(d);
    let t2: Fx = hi.sub(o).div(d);
    if t1.raw > t2.raw {
        Some((t2.raw, t1.raw))
    } else {
        Some((t1.raw, t2.raw))
    }
}

} // verus!
