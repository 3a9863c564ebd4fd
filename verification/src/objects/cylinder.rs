//! Finite capped cylinders along an arbitrary unit axis.
//!
//! The lateral surface is intersected through a quadratic in the components
//! of the ray perpendicular to the axis; the two end caps are intersected as
//! disks. The nearest valid candidate wins.

use crate::fx::{fxdiv, fxmul, fxsqrt, lemma_fxmul_bound, Fx, FX_PROD_LIM, FX_SCALE};
use crate::material::Material;
use crate::objects::{
    narrowed, Intersection, DIR_GUARD, NORM_LIM, POINT_LIM, T_LIMIT, WORLD_LIM,
};
use crate::point3d::{
    dot_spec, lemma_dot_in_range, lemma_fxmul_self_nonneg, pt_diff, pt_neg, pt_scaled, pt_sum,
    unit_spec, Point3D,
};
use crate::ray::{at_spec, Ray};
use vstd::prelude::*;

verus! {

/// Largest raw magnitude of a ray origin a cylinder test accepts (2^13
/// units): tighter than the other shapes' guard because the lateral
/// quadratic squares projected products.
pub const CYL_POS_GUARD: i128 = 562949953421312;

/// Largest raw magnitude of a cap center.
pub const CAP_CENTER_LIM: i128 = 140737488355328;

/// A capped cylinder: a base point, a unit axis direction, a radius and a
/// height measured along the axis.
#[derive(Clone, Copy)]
pub struct Cylinder {
    pub material: Material,
    pub base: Point3D,
    pub axis: Point3D,
    pub radius: Fx,
    pub height: Fx,
}

/// The center of the cylinder's top cap: the base displaced by the axis
/// scaled by the height.
pub open spec fn cap_center_top(c: Cylinder) -> Point3D {
    pt_sum(c.base, pt_scaled(c.axis, c.height.raw as int))
}

/// The parametric distance at which a ray meets one cap disk, if any: the
/// plane solution when the ray is not parallel, accepted when it falls
/// strictly inside the window and the hit point lies within the radius of
/// the cap's center, measured perpendicular to the axis.
pub open spec fn cap_spec(
    c: Cylinder,
    ray: Ray,
    n: Point3D,
    center: Point3D,
    t_min: int,
    t_max: int,
) -> Option<int> {
    let dn = dot_spec(n, ray.direction);
    if dn == 0 {
        None
    } else {
        let t = fxdiv(dot_spec(n, pt_diff(center, ray.origin)), dn);
        if !(t_min < t < t_max) {
            None
        } else {
            let p = at_spec(ray, t);
            let pc = pt_diff(p, center);
            let pcpar = dot_spec(pc, c.axis);
            let radial = dot_spec(pc, pc) - fxmul(pcpar, pcpar);
            if radial > fxmul(c.radius.raw as int, c.radius.raw as int) {
                None
            } else {
                Some(t)
            }
        }
    }
}

/// The outcome of intersecting the lateral surface, if any: the nearer root
/// of the quadratic in the perpendicular components, accepted when it falls
/// strictly inside the window and between the two cap planes. A degenerate
/// quadratic (a ray along the axis), a negative discriminant, or a normal
/// too short to normalize is a miss.
pub open spec fn body_spec(c: Cylinder, ray: Ray, t_min: int, t_max: int) -> Option<
    (int, Point3D),
> {
    let oc = pt_diff(ray.origin, c.base);
    let dpar = dot_spec(ray.direction, c.axis);
    let ocpar = dot_spec(oc, c.axis);
    let a = dot_spec(ray.direction, ray.direction) - fxmul(dpar, dpar);
    let b = 2 * (dot_spec(oc, ray.direction) - fxmul(ocpar, dpar));
    let cc = dot_spec(oc, oc) - fxmul(ocpar, ocpar) - fxmul(
        c.radius.raw as int,
        c.radius.raw as int,
    );
    let disc = fxmul(b, b) - fxmul(4 * a, cc);
    if a <= 0 || disc < 0 {
        None
    } else {
        let sq = fxsqrt(disc);
        let ta = fxdiv(-b - sq, 2 * a);
        let tb = fxdiv(-b + sq, 2 * a);
        let t1 = if ta > tb {
            tb
        } else {
            ta
        };
        if !(t_min < t1 < t_max) {
            None
        } else {
            let p = at_spec(ray, t1);
            let hproj = dot_spec(pt_diff(p, c.base), c.axis);
            if hproj < 0 || hproj > c.height.raw {
                None
            } else {
                let m = fxmul(dpar, t1) + ocpar;
                let na = pt_diff(pt_diff(p, c.base), pt_scaled(c.axis, m));
                if dot_spec(na, na) < 1 {
                    None
                } else {
                    Some((t1, unit_spec(na)))
                }
            }
        }
    }
}

/// The nearer of two candidates; the first wins a tie.
pub open spec fn nearer(a: Option<(int, Point3D)>, b: Option<(int, Point3D)>) -> Option<
    (int, Point3D),
> {
    match (a, b) {
        (Option::None, _) => b,
        (Option::Some(_), Option::None) => a,
        (Option::Some(x), Option::Some(y)) => if y.0 < x.0 {
            b
        } else {
            a
        },
    }
}

/// The full outcome of a cylinder test: the nearest among the two caps and
/// the lateral surface (caps win ties). A ray outside the numeric guards is
/// a miss.
pub open spec fn cylinder_hit_spec(c: Cylinder, ray: Ray, t_min: int, t_max: int) -> Option<
    (int, Point3D),
> {
    if !ray.origin.bounded(CYL_POS_GUARD as int) || !ray.direction.bounded(DIR_GUARD as int) {
        None
    } else {
        let top = match cap_spec(c, ray, c.axis, cap_center_top(c), t_min, t_max) {
            Option::Some(t) => Option::Some((t, c.axis)),
            Option::None => Option::None,
        };
        let bot = match cap_spec(c, ray, pt_neg(c.axis), c.base, t_min, t_max) {
            Option::Some(t) => Option::Some((t, pt_neg(c.axis))),
            Option::None => Option::None,
        };
        nearer(nearer(top, bot), body_spec(c, ray, t_min, t_max))
    }
}

impl Cylinder {
    /// Base, radius and height within the world budget, the axis a bounded
    /// normalizable direction, material well formed.
    pub open spec fn wf(self) -> bool {
        &&& self.base.bounded(WORLD_LIM as int)
        &&& self.axis.bounded(2 * FX_SCALE)
        &&& 0 < self.radius.raw <= WORLD_LIM
        &&& 0 < self.height.raw <= WORLD_LIM
        &&& self.material.wf()
    }

    /// A cylinder standing upright: its axis is the vertical unit vector.
    pub fn new(base: Point3D, radius: Fx, material: Material, height: Fx) -> (r: Cylinder)
        ensures
            r.base == base,
            r.radius == radius,
            r.height == height,
            r.material == material,
            r.axis == (Point3D { x: Fx { raw: 0 }, y: Fx { raw: FX_SCALE as i128 }, z: Fx {
                raw: 0,
            } }),
    {
        Cylinder {
            base,
            axis: Point3D { x: Fx::zero(), y: Fx::one(), z: Fx::zero() },
            radius,
            material,
            height,
        }
    }

    /// A cylinder along an arbitrary axis direction.
    pub fn with_axis(base: Point3D, axis: Point3D, radius: Fx, material: Material, height: Fx) -> (r:
        Cylinder)
        ensures
            r == (Cylinder { material, base, axis, radius, height }),
    {
        Cylinder { base, axis, radius, material, height }
    }

    /// Intersect the ray with one cap disk.
    fn check_cap(&self, ray: &Ray, normal: Point3D, center: Point3D, t_min: Fx, t_max: Fx) -> (r:
        Option<(Fx, Point3D, Point3D)>)
        requires
            self.wf(),
            ray.origin.bounded(CYL_POS_GUARD as int),
            ray.direction.bounded(DIR_GUARD as int),
            normal == self.axis || normal == pt_neg(self.axis),
            center.bounded(CAP_CENTER_LIM as int),
            0 < t_min.raw,
            t_max.raw <= T_LIMIT,
        ensures
            ({
                let res = cap_spec(*self, *ray, normal, center, t_min.raw as int, t_max.raw as int);
                match res {
                    None => r is None,
                    Some(t) => {
                        &&& r matches Some(v)
                        &&& r matches Some(v) ==> {
                            &&& v.0.raw == t
                            &&& v.1 == normal
                            &&& v.2 == at_spec(*ray, t)
                            &&& v.2.bounded(POINT_LIM as int)
                        }
                    },
                }
            }),
    {
        proof {
            lemma_dot_in_range(normal, ray.direction, 2 * FX_SCALE, DIR_GUARD as int);
        }
        let d_dot_n: Fx = normal.dot(&ray.direction);
        if d_dot_n.raw == 0 {
            return None;
        }
        let co: Point3D = center.sub(ray.origin);
        proof {
            lemma_dot_in_range(
                normal,
                co,
                2 * FX_SCALE,
                (CAP_CENTER_LIM + CYL_POS_GUARD) as int,
            );
        }
        let t: Fx = normal.dot(&co).div(d_dot_n);
        if t.raw <= t_min.raw || t.raw >= t_max.raw {
            return None;
        }
        proof {
            lemma_fxmul_bound(
                ray.direction.x.raw as int,
                t.raw as int,
                DIR_GUARD as int,
                T_LIMIT as int,
            );
            lemma_fxmul_bound(
                ray.direction.y.raw as int,
                t.raw as int,
                DIR_GUARD as int,
                T_LIMIT as int,
            );
            lemma_fxmul_bound(
                ray.direction.z.raw as int,
                t.raw as int,
                DIR_GUARD as int,
                T_LIMIT as int,
            );
        }
        let point: Point3D = ray.at(t);
        let pc: Point3D = point.sub(center);
        proof {
            lemma_dot_in_range(pc, pc, 5300000000000000, 5300000000000000);
            lemma_dot_in_range(pc, self.axis, 5300000000000000, 2 * FX_SCALE);
            lemma_fxmul_bound(
                dot_spec(pc, self.axis),
                dot_spec(pc, self.axis),
                32000000000000000,
                32000000000000000,
            );
            lemma_fxmul_bound(
                self.radius.raw as int,
                self.radius.raw as int,
                WORLD_LIM as int,
                WORLD_LIM as int,
            );
        }
        let pcpar: Fx = pc.dot(&self.axis);
        let radial: Fx = pc.length_squared().sub(pcpar.mul(pcpar));
        if radial.raw > self.radius.mul(self.radius).raw {
            return None;
        }
        Some((t, normal, point))
    }

    /// Intersect the ray with the lateral surface.
    fn intersect_body(&self, ray: &Ray, t_min: Fx, t_max: Fx) -> (r: Option<(Fx, Point3D, Point3D)>)
        requires
            self.wf(),
            ray.origin.bounded(CYL_POS_GUARD as int),
            ray.direction.bounded(DIR_GUARD as int),
            0 < t_min.raw,
            t_max.raw <= T_LIMIT,
        ensures
            ({
                let res = body_spec(*self, *ray, t_min.raw as int, t_max.raw as int);
                match res {
                    None => r is None,
                    Some((t, n)) => {
                        &&& r matches Some(v)
                        &&& r matches Some(v) ==> {
                            &&& v.0.raw == t
                            &&& v.1 == n
                            &&& v.1.bounded(NORM_LIM as int)
                            &&& v.2 == at_spec(*ray, t)
                            &&& v.2.bounded(POINT_LIM as int)
                        }
                    },
                }
            }),
    {
        let oc: Point3D = ray.origin.sub(self.base);
        proof {
            lemma_dot_in_range(ray.direction, self.axis, DIR_GUARD as int, 2 * FX_SCALE);
            lemma_dot_in_range(oc, self.axis, 633318697598976, 2 * FX_SCALE);
            lemma_dot_in_range(ray.direction, ray.direction, DIR_GUARD as int, DIR_GUARD as int);
            lemma_dot_in_range(oc, ray.direction, 633318697598976, DIR_GUARD as int);
            lemma_dot_in_range(oc, oc, 633318697598976, 633318697598976);
            lemma_fxmul_self_nonneg(ray.direction.x.raw as int);
            lemma_fxmul_self_nonneg(ray.direction.y.raw as int);
            lemma_fxmul_self_nonneg(ray.direction.z.raw as int);
        }
        let dpar: Fx = ray.direction.dot(&self.axis);
        let ocpar: Fx = oc.dot(&self.axis);
        proof {
            lemma_fxmul_bound(dpar.raw as int, dpar.raw as int, 52800000000000, 52800000000000);
            lemma_fxmul_bound(ocpar.raw as int, dpar.raw as int, 3800000000000000, 52800000000000);
            lemma_fxmul_bound(
                ocpar.raw as int,
                ocpar.raw as int,
                3800000000000000,
                3800000000000000,
            );
            lemma_fxmul_bound(
                self.radius.raw as int,
                self.radius.raw as int,
                WORLD_LIM as int,
                WORLD_LIM as int,
            );
        }
        let a: Fx = ray.direction.length_squared().sub(dpar.mul(dpar));
        let binner: Fx = oc.dot(&ray.direction).sub(ocpar.mul(dpar));
        let b: Fx = binner.add(binner);
        let cc: Fx = oc.length_squared().sub(ocpar.mul(ocpar)).sub(self.radius.mul(self.radius));
        proof {
            lemma_fxmul_bound(b.raw as int, b.raw as int, 6400000000000000000, 6400000000000000000);
            lemma_fxmul_bound(
                4 * a.raw as int,
                cc.raw as int,
                180000000000000000,
                230000000000000000000,
            );
        }
        let four_a: Fx = Fx { raw: 4 * a.raw };
        let disc: Fx = b.mul(b).sub(four_a.mul(cc));
        if a.raw <= 0 || disc.raw < 0 {
            return None;
        }
        let sq: Fx = disc.sqrt();
        proof {
            assert(-FX_PROD_LIM <= (-b.raw - sq.raw) * FX_SCALE <= FX_PROD_LIM && -FX_PROD_LIM <= (
            -b.raw + sq.raw) * FX_SCALE <= FX_PROD_LIM) by (nonlinear_arith)
                requires
                    -6400000000000000000 <= b.raw <= 6400000000000000000,
                    0 <= sq.raw < 0x10000000000000000,
                    FX_SCALE == 68719476736,
                    FX_PROD_LIM == 85070591730234615865843651857942052864,
            ;
        }
        let two_a: Fx = Fx { raw: 2 * a.raw };
        let ta: Fx = b.neg().sub(sq).div(two_a);
        let tb: Fx = b.neg().add(sq).div(two_a);
        let t1: Fx = if ta.raw > tb.raw {
            tb
        } else {
            ta
        };
        if t1.raw <= t_min.raw || t1.raw >= t_max.raw {
            return None;
        }
        proof {
            lemma_fxmul_bound(
                ray.direction.x.raw as int,
                t1.raw as int,
                DIR_GUARD as int,
                T_LIMIT as int,
            );
            lemma_fxmul_bound(
                ray.direction.y.raw as int,
                t1.raw as int,
                DIR_GUARD as int,
                T_LIMIT as int,
            );
            lemma_fxmul_bound(
                ray.direction.z.raw as int,
                t1.raw as int,
                DIR_GUARD as int,
                T_LIMIT as int,
            );
        }
        let point: Point3D = ray.at(t1);
        let pb: Point3D = point.sub(self.base);
        proof {
            lemma_dot_in_range(pb, self.axis, 5200000000000000, 2 * FX_SCALE);
        }
        let hproj: Fx = pb.dot(&self.axis);
        if hproj.raw < 0 || hproj.raw > self.height.raw {
            return None;
        }
        proof {
            lemma_fxmul_bound(dpar.raw as int, t1.raw as int, 52800000000000, T_LIMIT as int);
        }
        let m: Fx = dpar.mul(t1).add(ocpar);
        proof {
            lemma_fxmul_bound(self.axis.x.raw as int, m.raw as int, 2 * FX_SCALE, 31000000000000000);
            lemma_fxmul_bound(self.axis.y.raw as int, m.raw as int, 2 * FX_SCALE, 31000000000000000);
            lemma_fxmul_bound(self.axis.z.raw as int, m.raw as int, 2 * FX_SCALE, 31000000000000000);
        }
        let na: Point3D = pb.sub(self.axis.scale(m));
        proof {
            lemma_dot_in_range(na, na, 68000000000000000, 68000000000000000);
        }
        let nls: Fx = na.length_squared();
        if nls.raw < 1 {
            return None;
        }
        let normal: Point3D = na.unit_vector();
        Some((t1, normal, point))
    }

    /// Test the ray against the cylinder, narrowing the record in place on
    /// the nearest cap or lateral hit; the record is untouched on a miss.
    pub fn hit(&self, ray: &Ray, rec: &mut Intersection) -> (r: bool)
        requires
            self.wf(),
            old(rec).wf(),
        ensures
            final(rec).wf(),
            ({
                let res = cylinder_hit_spec(
                    *self,
                    *ray,
                    old(rec).t_min.raw as int,
                    old(rec).t.raw as int,
                );
                match res {
                    None => !r && *final(rec) == *old(rec),
                    Some((t, n)) => {
                        &&& r
                        &&& narrowed(*old(rec), *final(rec), self.material)
                        &&& final(rec).t.raw == t
                        &&& final(rec).point == at_spec(*ray, t)
                        &&& final(rec).normal == n
                    },
                }
            }),
    {
        if !ray.origin.check_bounded(CYL_POS_GUARD) || !ray.direction.check_bounded(DIR_GUARD) {
            return false;
        }
        proof {
            lemma_fxmul_bound(
                self.axis.x.raw as int,
                self.height.raw as int,
                2 * FX_SCALE,
                WORLD_LIM as int,
            );
            lemma_fxmul_bound(
                self.axis.y.raw as int,
                self.height.raw as int,
                2 * FX_SCALE,
                WORLD_LIM as int,
            );
            lemma_fxmul_bound(
                self.axis.z.raw as int,
                self.height.raw as int,
                2 * FX_SCALE,
                WORLD_LIM as int,
            );
        }
        let top_center: Point3D = self.base.add(self.axis.scale(self.height));
        let cap_top: Option<(Fx, Point3D, Point3D)> = self.check_cap(
            ray,
            self.axis,
            top_center,
            rec.t_min,
            rec.t,
        );
        let cap_bot: Option<(Fx, Point3D, Point3D)> = self.check_cap(
            ray,
            self.axis.neg(),
            self.base,
            rec.t_min,
            rec.t,
        );
        let body: Option<(Fx, Point3D, Point3D)> = self.intersect_body(ray, rec.t_min, rec.t);
        let caps: Option<(Fx, Point3D, Point3D)> = match (cap_top, cap_bot) {
            (Option::None, b) => b,
            (Option::Some(x), Option::None) => Some(x),
            (Option::Some(x), Option::Some(y)) => if y.0.raw < x.0.raw {
                Some(y)
            } else {
                Some(x)
            },
        };
        let best: Option<(Fx, Point3D, Point3D)> = match (caps, body) {
            (Option::None, b) => b,
            (Option::Some(x), Option::None) => Some(x),
            (Option::Some(x), Option::Some(y)) => if y.0.raw < x.0.raw {
                Some(y)
            } else {
                Some(x)
            },
        };
        match best {
            Option::None => false,
            Option::Some(v) => {
                rec.point = v.2;
                rec.normal = v.1;
                rec.t = v.0;
                rec.material = Some(self.material);
                rec.hit_anything = true;
                true
            },
        }
    }
}

} // verus!
