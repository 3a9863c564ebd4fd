//! The engine's general laws, stated and proved over the intersection and
//! shading specifications.

use crate::fx::{
    fxdiv, fxmul, fxsqrt, is_isqrt, isqrt_of, lemma_isqrt_exists, lemma_isqrt_unique,
    lemma_tdiv_exact, tdiv, FX_SCALE,
};
use crate::objects::plane::{plane_hit_t, Plane};
use crate::objects::sphere::{sphere_hit_t, Sphere};
use crate::objects::{Intersection, Primitive};
use crate::point3d::{dot_spec, pt_diff, unit_spec, Point3D};
use crate::ray::Ray;
use crate::raytracer::{apply_hit, fold_hits};
use vstd::prelude::*;

verus! {

/// The acceptance window is open: a primitive never reports a hit whose
/// distance equals either bound, nor one outside the window.
pub proof fn lemma_hit_inside_window(o: Primitive, ray: Ray, t_min: int, t_max: int)
    ensures
        o.hit_spec(ray, t_min, t_max) matches Some(v) ==> t_min < v.0 < t_max,
{
}

/// Narrowing is monotone: running the scene fold on an already-narrowed
/// record never yields a farther intersection; the window floor is kept.
pub proof fn lemma_fold_hits_narrows(objs: Seq<Primitive>, ray: Ray, rec: Intersection)
    ensures
        fold_hits(objs, ray, rec).t.raw <= rec.t.raw,
        fold_hits(objs, ray, rec).t_min == rec.t_min,
    decreases objs.len(),
{
    if objs.len() == 0 {
    } else {
        lemma_hit_inside_window(objs[0], ray, rec.t_min.raw as int, rec.t.raw as int);
        lemma_fold_hits_narrows(objs.drop_first(), ray, apply_hit(objs[0], ray, rec));
    }
}

/// Re-running the whole scene query on the record a first run produced
/// never returns a farther intersection than the first run found.
pub proof fn lemma_hit_scene_rerun(objs: Seq<Primitive>, ray: Ray, rec: Intersection)
    ensures
        fold_hits(objs, ray, fold_hits(objs, ray, rec)).t.raw <= fold_hits(objs, ray, rec).t.raw,
{
    lemma_fold_hits_narrows(objs, ray, fold_hits(objs, ray, rec));
}

/// A ray sent exactly along the normal of a plane with an exactly unit
/// normal meets it at the signed offset of the plane's anchor from the
/// ray's origin, whenever that offset lies inside the window.
pub proof fn lemma_plane_along_normal(p: Plane, ray: Ray, t_min: int, t_max: int)
    requires
        ray.direction == p.normal,
        dot_spec(p.normal, p.normal) == FX_SCALE,
    ensures
        ({
            let d = dot_spec(p.normal, pt_diff(p.point, ray.origin));
            &&& (t_min < d < t_max) ==> plane_hit_t(p, ray, t_min, t_max) == Some(d)
            &&& !(t_min < d < t_max) ==> plane_hit_t(p, ray, t_min, t_max) is None
        }),
{
    let d = dot_spec(p.normal, pt_diff(p.point, ray.origin));
    lemma_tdiv_exact(d);
    assert(fxdiv(d, FX_SCALE as int) == d);
}

/// A ray through a sphere's exact center meets it at the distance to the
/// center minus the radius, under exact arithmetic: the direction is
/// exactly unit, the squared offset matches the squared projection, and
/// the squared radius divides evenly by the scale.
pub proof fn lemma_sphere_through_center(s: Sphere, ray: Ray, t_min: int, t_max: int)
    requires
        dot_spec(ray.direction, ray.direction) == FX_SCALE,
        s.radius.raw > 0,
        ({
            let oc = pt_diff(ray.origin, s.center);
            let h = dot_spec(oc, ray.direction);
            &&& dot_spec(oc, oc) == fxmul(h, h)
            &&& fxmul(s.radius.raw as int, s.radius.raw as int) * FX_SCALE == s.radius.raw
                * s.radius.raw
            &&& t_min < -h - s.radius.raw < t_max
        }),
    ensures
        ({
            let oc = pt_diff(ray.origin, s.center);
            let dist = -dot_spec(oc, ray.direction);
            sphere_hit_t(s, ray, t_min, t_max) == Some(dist - s.radius.raw)
        }),
{
    let oc = pt_diff(ray.origin, s.center);
    let a = dot_spec(ray.direction, ray.direction);
    let h = dot_spec(oc, ray.direction);
    let r = s.radius.raw as int;
    let c = dot_spec(oc, oc) - fxmul(r, r);
    // The leading coefficient is exactly one, so its products are exact.
    assert(fxmul(a, c) == c) by {
        lemma_tdiv_exact(c);
        assert((FX_SCALE as int) * c == c * (FX_SCALE as int)) by (nonlinear_arith);
    }
    let disc = fxmul(h, h) - fxmul(a, c);
    assert(disc == fxmul(r, r));
    // The discriminant is the exact square of the radius, so its rounded
    // square root is the radius itself.
    assert(fxsqrt(disc) == r) by {
        assert(disc * FX_SCALE == r * r) by (nonlinear_arith)
            requires
                fxmul(r, r) * FX_SCALE == r * r,
                disc == fxmul(r, r),
        ;
        assert(is_isqrt(r * r, r)) by (nonlinear_arith)
            requires
                r > 0,
        ;
        lemma_isqrt_exists(disc * FX_SCALE);
        lemma_isqrt_unique(r * r, r, isqrt_of(r * r));
    }
    assert(disc >= 0) by {
        assert(disc * FX_SCALE == r * r) by (nonlinear_arith)
            requires
                fxmul(r, r) * FX_SCALE == r * r,
                disc == fxmul(r, r),
        ;
        assert(disc * FX_SCALE >= 0) by (nonlinear_arith)
            requires
                r > 0,
                disc * FX_SCALE == r * r,
        ;
        assert(disc >= 0) by (nonlinear_arith)
            requires
                disc * FX_SCALE >= 0,
                FX_SCALE == 68719476736,
        ;
    }
    // Unit direction: the root's division is exact.
    lemma_tdiv_exact(-h - r);
    assert(fxdiv(-h - fxsqrt(disc), a) == -h - r);
    assert(a != 0);
}

/// How far a truncating quotient, scaled back up, can sit from the scaled
/// dividend: within one divisor, on the small side, keeping the sign.
proof fn lemma_unit_comp_sq(v: int, len: int)
    requires
        len >= 1,
    ensures
        ({
            let u = tdiv(v * FX_SCALE, len);
            let w = if v >= 0 {
                v
            } else {
                -v
            };
            &&& u * u * (len * len) <= (v * v) * (FX_SCALE * FX_SCALE)
            &&& u * u * (len * len) >= (v * v) * (FX_SCALE * FX_SCALE) - 2 * len * w * FX_SCALE
        }),
{
    let s = FX_SCALE as int;
    let u = tdiv(v * s, len);
    let w = if v >= 0 {
        v
    } else {
        -v
    };
    let a = w * s;
    assert(a >= 0) by (nonlinear_arith)
        requires
            a == w * s,
            w >= 0,
            s > 0,
    ;
    vstd::arithmetic::div_mod::lemma_fundamental_div_mod(a, len);
    let r = a % len;
    assert(0 <= r < len);
    vstd::arithmetic::div_mod::lemma_mod_decreases(a as nat, len as nat);
    assert(r <= a);
    vstd::arithmetic::div_mod::lemma_div_pos_is_pos(a, len);
    let q = a / len;
    assert(q * len == a - r) by (nonlinear_arith)
        requires
            a == len * (a / len) + r,
            q == a / len,
    ;
    if v >= 0 {
        assert(u == q);
    } else {
        assert(-(v * s) == a) by (nonlinear_arith)
            requires
                w == -v,
                a == w * s,
        ;
        assert(u == -q);
    }
    assert(u * u * (len * len) == (a - r) * (a - r)) by (nonlinear_arith)
        requires
            q * len == a - r,
            u == q || u == -q,
    ;
    assert((a - r) * (a - r) == a * a - 2 * (r * a) + r * r) by (nonlinear_arith);
    assert(r * a <= len * a && 0 <= r * a && 0 <= r * r && r * r <= r * a) by (nonlinear_arith)
        requires
            0 <= r < len,
            r <= a,
            a >= 0,
    ;
    assert(a * a == (v * v) * (s * s)) by (nonlinear_arith)
        requires
            a == w * s,
            w == v || w == -v,
    ;
    assert(2 * (len * a) == 2 * len * w * s) by (nonlinear_arith)
        requires
            a == w * s,
    ;
}

/// The rounded square of a value, scaled back up, sits within one scale of
/// the exact square.
proof fn lemma_sq_term(v: int)
    ensures
        fxmul(v, v) * FX_SCALE <= v * v,
        v * v < fxmul(v, v) * FX_SCALE + FX_SCALE,
        fxmul(v, v) >= 0,
{
    let s = FX_SCALE as int;
    assert(v * v >= 0) by (nonlinear_arith);
    vstd::arithmetic::div_mod::lemma_fundamental_div_mod(v * v, s);
    vstd::arithmetic::div_mod::lemma_div_pos_is_pos(v * v, s);
    let r = (v * v) % s;
    assert(0 <= r < s);
    assert(fxmul(v, v) * s == v * v - r) by (nonlinear_arith)
        requires
            v * v == s * ((v * v) / s) + r,
            fxmul(v, v) == (v * v) / s,
    ;
}

/// Normalizing any vector of length at least one half gives a vector whose
/// squared length sits within a few raw units of one: the computed unit
/// vector's squared length deviates from one whole unit by less than
/// 2^-31 of a unit, far inside a tolerance of 1e-9. Shorter vectors are
/// excluded: their normalization error grows with the reciprocal of the
/// length.
pub proof fn lemma_unit_vector_length(v: Point3D)
    requires
        dot_spec(v, v) >= 17179869184,
    ensures
        FX_SCALE - 21 <= dot_spec(unit_spec(v), unit_spec(v)) <= FX_SCALE + 16,
{
    let s = FX_SCALE as int;
    let ls = dot_spec(v, v);
    let v1 = v.x.raw as int;
    let v2 = v.y.raw as int;
    let v3 = v.z.raw as int;
    lemma_sq_term(v1);
    lemma_sq_term(v2);
    lemma_sq_term(v3);
    // The squared components recover the squared length within three scales.
    assert(ls * s <= v1 * v1 + v2 * v2 + v3 * v3 && v1 * v1 + v2 * v2 + v3 * v3 < ls * s + 3 * s)
        by (nonlinear_arith)
        requires
            ls == fxmul(v1, v1) + fxmul(v2, v2) + fxmul(v3, v3),
            fxmul(v1, v1) * s <= v1 * v1 < fxmul(v1, v1) * s + s,
            fxmul(v2, v2) * s <= v2 * v2 < fxmul(v2, v2) * s + s,
            fxmul(v3, v3) * s <= v3 * v3 < fxmul(v3, v3) * s + s,
    ;
    assert(ls * s >= 0) by (nonlinear_arith)
        requires
            ls >= 17179869184,
            s > 0,
    ;
    lemma_isqrt_exists(ls * s);
    let len = isqrt_of(ls * s);
    assert(is_isqrt(ls * s, len));
    // A length of at least half a unit means the root is at least half a
    // scale.
    assert(2 * len >= s) by (nonlinear_arith)
        requires
            is_isqrt(ls * s, len),
            ls >= 17179869184,
            s == 68719476736,
    ;
    let u1 = tdiv(v1 * s, len);
    let u2 = tdiv(v2 * s, len);
    let u3 = tdiv(v3 * s, len);
    lemma_unit_comp_sq(v1, len);
    lemma_unit_comp_sq(v2, len);
    lemma_unit_comp_sq(v3, len);
    let w1 = if v1 >= 0 { v1 } else { -v1 };
    let w2 = if v2 >= 0 { v2 } else { -v2 };
    let w3 = if v3 >= 0 { v3 } else { -v3 };
    // No component is longer than three roots.
    assert(w1 <= 3 * len && w2 <= 3 * len && w3 <= 3 * len) by (nonlinear_arith)
        requires
            v1 * v1 + v2 * v2 + v3 * v3 < ls * s + 3 * s,
            ls * s < (len + 1) * (len + 1),
            2 * len >= s,
            s == 68719476736,
            w1 == (if v1 >= 0 { v1 } else { -v1 }),
            w2 == (if v2 >= 0 { v2 } else { -v2 }),
            w3 == (if v3 >= 0 { v3 } else { -v3 }),
    ;
    let usq = u1 * u1 + u2 * u2 + u3 * u3;
    // Upper: the scaled-down components cannot outgrow the exact quotient.
    assert(usq * (len * len) <= (s * s + 16 * s) * (len * len)) by (nonlinear_arith)
        requires
            u1 * u1 * (len * len) <= (v1 * v1) * (s * s),
            u2 * u2 * (len * len) <= (v2 * v2) * (s * s),
            u3 * u3 * (len * len) <= (v3 * v3) * (s * s),
            v1 * v1 + v2 * v2 + v3 * v3 < ls * s + 3 * s,
            ls * s < (len + 1) * (len + 1),
            2 * len >= s,
            s == 68719476736,
            usq == u1 * u1 + u2 * u2 + u3 * u3,
    ;
    assert(usq <= s * s + 16 * s) by (nonlinear_arith)
        requires
            usq * (len * len) <= (s * s + 16 * s) * (len * len),
            len >= 1,
    ;
    // Lower: each truncation loses at most one root per scaled component.
    let vv = v1 * v1 + v2 * v2 + v3 * v3;
    let ww = w1 + w2 + w3;
    assert(usq * (len * len) == u1 * u1 * (len * len) + u2 * u2 * (len * len) + u3 * u3 * (len
        * len)) by (nonlinear_arith)
        requires
            usq == u1 * u1 + u2 * u2 + u3 * u3,
    ;
    assert(vv * (s * s) == (v1 * v1) * (s * s) + (v2 * v2) * (s * s) + (v3 * v3) * (s * s))
        by (nonlinear_arith)
        requires
            vv == v1 * v1 + v2 * v2 + v3 * v3,
    ;
    assert(2 * len * ww * s == 2 * len * w1 * s + 2 * len * w2 * s + 2 * len * w3 * s)
        by (nonlinear_arith)
        requires
            ww == w1 + w2 + w3,
    ;
    assert(usq * (len * len) >= vv * (s * s) - 2 * len * ww * s);
    assert(vv * (s * s) >= (len * len) * (s * s)) by (nonlinear_arith)
        requires
            ls * s <= vv,
            len * len <= ls * s,
            s > 0,
    ;
    assert(2 * len * ww * s <= 18 * s * (len * len)) by (nonlinear_arith)
        requires
            0 <= ww <= 9 * len,
            len >= 1,
            s > 0,
    ;
    assert(usq * (len * len) >= (s * s - 18 * s) * (len * len)) by (nonlinear_arith)
        requires
            usq * (len * len) >= vv * (s * s) - 2 * len * ww * s,
            vv * (s * s) >= (len * len) * (s * s),
            2 * len * ww * s <= 18 * s * (len * len),
    ;
    assert(usq >= s * s - 18 * s) by (nonlinear_arith)
        requires
            usq * (len * len) >= (s * s - 18 * s) * (len * len),
            len >= 1,
    ;
    // The final dot over the unit components rounds off at most three more.
    let u = unit_spec(v);
    assert(u.x.raw == u1 && u.y.raw == u2 && u.z.raw == u3) by {
        assert(fxdiv(v1, len) == u1 && fxdiv(v2, len) == u2 && fxdiv(v3, len) == u3);
        assert(-s * s <= u1 <= s * s && -s * s <= u2 <= s * s && -s * s <= u3 <= s * s)
            by (nonlinear_arith)
            requires
                u1 * u1 * (len * len) <= (v1 * v1) * (s * s),
                u2 * u2 * (len * len) <= (v2 * v2) * (s * s),
                u3 * u3 * (len * len) <= (v3 * v3) * (s * s),
                usq * (len * len) <= (s * s + 16 * s) * (len * len),
                usq == u1 * u1 + u2 * u2 + u3 * u3,
                len >= 1,
                s == 68719476736,
    ;
    }
    lemma_sq_term(u1);
    lemma_sq_term(u2);
    lemma_sq_term(u3);
    assert(FX_SCALE - 21 <= dot_spec(u, u) <= FX_SCALE + 16) by (nonlinear_arith)
        requires
            dot_spec(u, u) == fxmul(u1, u1) + fxmul(u2, u2) + fxmul(u3, u3),
            fxmul(u1, u1) * s <= u1 * u1 < fxmul(u1, u1) * s + s,
            fxmul(u2, u2) * s <= u2 * u2 < fxmul(u2, u2) * s + s,
            fxmul(u3, u3) * s <= u3 * u3 < fxmul(u3, u3) * s + s,
            s * s - 18 * s <= usq <= s * s + 16 * s,
            usq == u1 * u1 + u2 * u2 + u3 * u3,
            s == 68719476736,
            FX_SCALE == 68719476736,
    ;
}

/// Normalizing a vector along one axis whose rounded square is exact gives
/// a vector of exactly unit squared length.
pub proof fn lemma_unit_vector_axis_exact(v: Point3D)
    requires
        v.y.raw == 0,
        v.z.raw == 0,
        v.x.raw != 0,
        fxmul(v.x.raw as int, v.x.raw as int) * FX_SCALE == v.x.raw * v.x.raw,
    ensures
        dot_spec(unit_spec(v), unit_spec(v)) == FX_SCALE,
{
    let x = v.x.raw as int;
    let s = FX_SCALE as int;
    assert(fxmul(0, 0) == 0) by {
        lemma_tdiv_exact(0);
        assert(0 * s == 0) by (nonlinear_arith);
    }
    let ls = dot_spec(v, v);
    assert(ls == fxmul(x, x));
    let ax = if x >= 0 {
        x
    } else {
        -x
    };
    assert(ls * s == ax * ax) by (nonlinear_arith)
        requires
            fxmul(x, x) * s == x * x,
            ls == fxmul(x, x),
            ax == if x >= 0 {
                x
            } else {
                -x
            },
    ;
    // The length is the absolute value of the only nonzero component.
    assert(fxsqrt(ls) == ax) by {
        assert(is_isqrt(ax * ax, ax)) by (nonlinear_arith)
            requires
                ax > 0,
        ;
        lemma_isqrt_exists(ls * s);
        lemma_isqrt_unique(ax * ax, ax, isqrt_of(ax * ax));
    }
    // Each component of the unit vector is exactly one scale, or zero.
    assert(fxdiv(x, ax) == if x >= 0 {
        s
    } else {
        -s
    }) by {
        if x >= 0 {
            assert(x * s == s * ax) by (nonlinear_arith)
                requires
                    ax == x,
            ;
            vstd::arithmetic::div_mod::lemma_div_by_multiple(s, ax);
            assert(tdiv(x * s, ax) == s) by (nonlinear_arith)
                requires
                    x * s == s * ax,
                    (s * ax) / ax == s,
                    x * s >= 0,
        ;
        } else {
            assert(-(x * s) == s * ax) by (nonlinear_arith)
                requires
                    ax == -x,
            ;
            vstd::arithmetic::div_mod::lemma_div_by_multiple(s, ax);
            assert(tdiv(x * s, ax) == -s) by (nonlinear_arith)
                requires
                    -(x * s) == s * ax,
                    (s * ax) / ax == s,
                    x * s < 0,
            ;
        }
    }
    assert(fxdiv(0, ax) == 0) by {
        lemma_tdiv_exact(0);
        assert(0 * s == 0) by (nonlinear_arith);
        assert(tdiv(0, ax) == 0) by {
            vstd::arithmetic::div_mod::lemma_div_by_multiple(0, ax);
            assert(0 * ax == 0) by (nonlinear_arith);
        }
    }
    let u = unit_spec(v);
    assert(u.x.raw == s || u.x.raw == -s);
    assert(u.y.raw == 0 && u.z.raw == 0);
    assert(fxmul(s, s) == s && fxmul(-s, -s) == s) by {
        lemma_tdiv_exact(s);
        assert(s * s == s * s && (-s) * (-s) == s * s) by (nonlinear_arith);
    }
}

} // verus!
