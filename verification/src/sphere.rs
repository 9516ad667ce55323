//! Spheres and ray/sphere intersection.

use vstd::prelude::*;
use crate::fx::{abs_i, fadd, fsub, fneg, fmul, fdivs, fsqrt, fx_add, fx_sub, fx_neg, fx_mul,
    fx_div, fx_sqrt, lemma_fdivs_lower, lemma_fdivs_upper, SCALE};
use crate::vec3::{Vec3, v_sub, v_divs, v_dot, v_len2, v_neg, v_sym};
use crate::ray::{Ray, ray_at};
use crate::material::Material;
use crate::hittable::HitRecord;

verus! {

/// An analytic sphere with its surface material; immutable during a render.
#[derive(Clone, Copy, PartialEq, Eq, Structural, Debug)]
pub struct Sphere {
    pub center: Vec3,
    pub radius: i64,
    pub mat: Material,
}

/// The record an accepted root `root` produces: intersection point, outward
/// normal `(point - center) / radius` oriented against the incoming ray, and
/// the sphere's material.
pub open spec fn sphere_record_at(s: Sphere, r: Ray, root: i64) -> HitRecord {
    let p = ray_at(r, root as int);
    let outward = v_divs(v_sub(p, s.center), s.radius as int);
    let ff = v_dot(r.direction, outward) <= 0;
    HitRecord {
        t: root,
        p,
        normal: if ff {
            outward
        } else {
            v_neg(outward)
        },
        front_face: ff,
        mat: s.mat,
    }
}

/// Ray/sphere intersection: the quadratic `a t^2 + 2 half_b t + c = 0` is
/// solved in fixed point; a negative discriminant is a miss, otherwise the
/// smaller root is taken if it lies strictly inside `(t_min, t_max)`, then the
/// larger, otherwise the query misses.
pub open spec fn sphere_hit_spec(s: Sphere, r: Ray, t_min: i64, t_max: i64) -> Option<HitRecord> {
    let oc = v_sub(r.origin, s.center);
    let a = v_len2(r.direction);
    let half_b = v_dot(oc, r.direction);
    let c = fsub(v_len2(oc), fmul(s.radius as int, s.radius as int));
    let disc = fsub(fmul(half_b, half_b), fmul(a, c));
    if disc < 0 {
        Option::None
    } else {
        let sqrt_d = fsqrt(disc);
        let root1 = fdivs(fsub(fneg(half_b), sqrt_d), a);
        let root2 = fdivs(fadd(fneg(half_b), sqrt_d), a);
        if t_min < root1 && root1 < t_max {
            Option::Some(sphere_record_at(s, r, root1 as i64))
        } else if t_min < root2 && root2 < t_max {
            Option::Some(sphere_record_at(s, r, root2 as i64))
        } else {
            Option::None
        }
    }
}

/// The stored normal is approximately unit, per axis, under magnitude
/// preconditions on the offset `d = point - center`: an axis offset of at
/// least half the radius keeps that normal component at least one half (an
/// exact sphere point always has some axis offset of at least radius/sqrt(3),
/// which exceeds half the radius, so the normal is then nonzero), and an axis
/// offset of at most the radius keeps the component at most one.
pub open spec fn normal_bounded(s: Sphere, h: HitRecord) -> bool {
    let d = v_sub(h.p, s.center);
    s.radius > 0 ==> {
        &&& (2 * abs_i(d.x as int) >= s.radius as int ==> abs_i(h.normal.x as int) >= 32768)
        &&& (2 * abs_i(d.y as int) >= s.radius as int ==> abs_i(h.normal.y as int) >= 32768)
        &&& (2 * abs_i(d.z as int) >= s.radius as int ==> abs_i(h.normal.z as int) >= 32768)
        &&& (abs_i(d.x as int) <= s.radius as int ==> abs_i(h.normal.x as int) <= SCALE as int)
        &&& (abs_i(d.y as int) <= s.radius as int ==> abs_i(h.normal.y as int) <= SCALE as int)
        &&& (abs_i(d.z as int) <= s.radius as int ==> abs_i(h.normal.z as int) <= SCALE as int)
    }
}

/// Every record the intersection returns lies strictly inside the query
/// interval, carries a normal that opposes the incoming ray and is
/// approximately unit (see [`normal_bounded`]), and holds the sphere's
/// material.
pub proof fn lemma_sphere_hit_props(s: Sphere, r: Ray, t_min: i64, t_max: i64)
    ensures
        (sphere_hit_spec(s, r, t_min, t_max) matches Some(h) ==> t_min < h.t < t_max && v_dot(
            r.direction,
            h.normal,
        ) <= 0 && h.mat == s.mat && normal_bounded(s, h)),
{
    if sphere_hit_spec(s, r, t_min, t_max) is Some {
        let h = sphere_hit_spec(s, r, t_min, t_max)->Some_0;
        let p = ray_at(r, h.t as int);
        let d = v_sub(p, s.center);
        let outward = v_divs(d, s.radius as int);
        if v_dot(r.direction, outward) > 0 {
            // the outward normal comes out of a saturating division, so it lies
            // in the symmetric range and its negation flips the dot product
            assert(v_sym(outward));
            crate::vec3::lemma_v_dot_neg(r.direction, outward);
        }
        if s.radius > 0 {
            let radius = s.radius as int;
            if 2 * abs_i(d.x as int) >= radius {
                lemma_fdivs_lower(d.x as int, radius);
            }
            if 2 * abs_i(d.y as int) >= radius {
                lemma_fdivs_lower(d.y as int, radius);
            }
            if 2 * abs_i(d.z as int) >= radius {
                lemma_fdivs_lower(d.z as int, radius);
            }
            if abs_i(d.x as int) <= radius {
                lemma_fdivs_upper(d.x as int, radius);
            }
            if abs_i(d.y as int) <= radius {
                lemma_fdivs_upper(d.y as int, radius);
            }
            if abs_i(d.z as int) <= radius {
                lemma_fdivs_upper(d.z as int, radius);
            }
        }
    }
}

impl Sphere {
    /// Builds a sphere; a sphere's radius is strictly positive.
    pub fn new(center: Vec3, radius: i64, mat: Material) -> (r: Sphere)
        requires
            radius > 0,
        ensures
            r == (Sphere { center, radius, mat }),
    {
        Sphere { center, radius, mat }
    }

    /// The nearest intersection with the ray strictly inside `(t_min, t_max)`,
    /// or `None` on a miss.
    pub fn hit(&self, r: &Ray, t_min: i64, t_max: i64) -> (res: Option<HitRecord>)
        ensures
            res == sphere_hit_spec(*self, *r, t_min, t_max),
            (res matches Some(h) ==> t_min < h.t < t_max && v_dot(r.direction, h.normal) <= 0
                && h.mat == self.mat && normal_bounded(*self, h)),
    {
        proof {
            lemma_sphere_hit_props(*self, *r, t_min, t_max);
        }
        let oc = r.origin.sub_v(self.center);
        let a: i64 = r.direction.length_squared();
        let half_b: i64 = oc.dot(r.direction);
        let c: i64 = fx_sub(oc.length_squared(), fx_mul(self.radius, self.radius));
        let disc: i64 = fx_sub(fx_mul(half_b, half_b), fx_mul(a, c));
        if disc < 0 {
            return None;
        }
        let sqrt_d: i64 = fx_sqrt(disc);
        let neg_half_b: i64 = fx_neg(half_b);
        let mut root: i64 = fx_div(fx_sub(neg_half_b, sqrt_d), a);
        if root <= t_min || t_max <= root {
            root = fx_div(fx_add(neg_half_b, sqrt_d), a);
            if root <= t_min || t_max <= root {
                return None;
            }
        }
        let p = r.at(root);
        let outward = p.sub_v(self.center).div_scalar(self.radius);
        let mut rec = HitRecord {
            t: root,
            p,
            normal: outward,
            front_face: true,
            mat: self.mat,
        };
        rec.set_face_normal(r, outward);
        Some(rec)
    }
}

} // verus!
