//! Hit records and the scene aggregate.

use vstd::prelude::*;
use crate::vec3::{Vec3, v_dot, v_neg, v_sym, lemma_v_dot_neg};
use crate::ray::Ray;
use crate::material::Material;
use crate::sphere::{Sphere, sphere_hit_spec, lemma_sphere_hit_props};

verus! {

/// The result of a successful ray/geometry intersection: ray parameter, point,
/// surface normal (oriented to oppose the incoming ray), which side was hit,
/// and the surface's material.
#[derive(Clone, Copy, PartialEq, Eq, Structural, Debug)]
pub struct HitRecord {
    pub t: i64,
    pub p: Vec3,
    pub normal: Vec3,
    pub front_face: bool,
    pub mat: Material,
}

impl HitRecord {
    /// Orients the stored normal to oppose the incoming ray: the outward
    /// normal is kept on a front-face hit and negated on a back-face hit.
    pub fn set_face_normal(&mut self, r: &Ray, outward_normal: Vec3)
        ensures
            final(self).t == old(self).t,
            final(self).p == old(self).p,
            final(self).mat == old(self).mat,
            final(self).front_face == (v_dot(r.direction, outward_normal) <= 0),
            final(self).normal == (if v_dot(r.direction, outward_normal) <= 0 {
                outward_normal
            } else {
                v_neg(outward_normal)
            }),
            v_sym(outward_normal) ==> v_dot(r.direction, final(self).normal) <= 0,
    {
        let d: i64 = r.direction.dot(outward_normal);
        self.front_face = d <= 0;
        if d <= 0 {
            self.normal = outward_normal;
        } else {
            self.normal = outward_normal.neg_v();
            proof {
                if v_sym(outward_normal) {
                    lemma_v_dot_neg(r.direction, outward_normal);
                }
            }
        }
    }
}

/// The scene: an ordered collection of spheres, queried for the nearest hit.
pub struct HittableList {
    pub objects: Vec<Sphere>,
}

/// The nearest hit over a sequence of spheres: a linear scan in which each
/// accepted hit tightens the upper bound of the search interval.
pub open spec fn list_hit_spec(objs: Seq<Sphere>, r: Ray, t_min: i64, t_max: i64) -> Option<
    HitRecord,
>
    decreases objs.len(),
{
    if objs.len() == 0 {
        None
    } else {
        let prev = list_hit_spec(objs.drop_last(), r, t_min, t_max);
        let closest = match prev {
            Option::Some(h) => h.t,
            Option::None => t_max,
        };
        match sphere_hit_spec(objs.last(), r, t_min, closest) {
            Option::Some(h2) => Option::Some(h2),
            Option::None => prev,
        }
    }
}

/// Every record the scan returns lies strictly inside the query interval,
/// carries a normal that opposes the incoming ray, and holds the material of
/// one of the scene's members.
pub proof fn lemma_list_hit_props(objs: Seq<Sphere>, r: Ray, t_min: i64, t_max: i64)
    ensures
        (list_hit_spec(objs, r, t_min, t_max) matches Some(h) ==> t_min < h.t < t_max && v_dot(
            r.direction,
            h.normal,
        ) <= 0 && exists|i: int| 0 <= i < objs.len() && h.mat == objs[i].mat),
    decreases objs.len(),
{
    if objs.len() > 0 {
        lemma_list_hit_props(objs.drop_last(), r, t_min, t_max);
        let prev = list_hit_spec(objs.drop_last(), r, t_min, t_max);
        let closest = match prev {
            Option::Some(h) => h.t,
            Option::None => t_max,
        };
        lemma_sphere_hit_props(objs.last(), r, t_min, closest);
        if list_hit_spec(objs, r, t_min, t_max) is Some {
            let h = list_hit_spec(objs, r, t_min, t_max)->Some_0;
            if sphere_hit_spec(objs.last(), r, t_min, closest) is Some {
                assert(0 <= objs.len() - 1 < objs.len() && h.mat == objs[objs.len() - 1].mat);
            } else {
                let j = choose|j: int|
                    0 <= j < objs.drop_last().len() && h.mat == objs.drop_last()[j].mat;
                assert(0 <= j < objs.len() && h.mat == objs[j].mat);
            }
        }
    }
}

impl HittableList {
    /// An empty scene.
    pub fn new() -> (r: HittableList)
        ensures
            r.objects@.len() == 0,
    {
        HittableList { objects: Vec::new() }
    }

    /// Appends one sphere to the scene.
    pub fn add(&mut self, object: Sphere)
        ensures
            final(self).objects@ == old(self).objects@.push(object),
    {
        self.objects.push(object);
    }

    /// The nearest hit along the ray within `(t_min, t_max)`, or `None` when
    /// every member misses.
    pub fn hit(&self, r: &Ray, t_min: i64, t_max: i64) -> (res: Option<HitRecord>)
        ensures
            res == list_hit_spec(self.objects@, *r, t_min, t_max),
            (res matches Some(h) ==> t_min < h.t < t_max && v_dot(r.direction, h.normal) <= 0),
    {
        let mut best: Option<HitRecord> = None;
        let mut closest_so_far: i64 = t_max;
        let mut i: usize = 0;
        while i < self.objects.len()
            invariant
                i <= self.objects@.len(),
                best == list_hit_spec(self.objects@.take(i as int), *r, t_min, t_max),
                closest_so_far == (match best {
                    Option::Some(h) => h.t,
                    Option::None => t_max,
                }),
            decreases self.objects@.len() - i,
        {
            let candidate = self.objects[i].hit(r, t_min, closest_so_far);
            proof {
                assert(self.objects@.take(i + 1 as int).drop_last() =~= self.objects@.take(
                    i as int,
                ));
                assert(self.objects@.take(i + 1 as int).last() == self.objects@[i as int]);
            }
            if let Some(h) = candidate {
                closest_so_far = h.t;
                best = Some(h);
            }
            i = i + 1;
        }
        proof {
            assert(self.objects@.take(self.objects@.len() as int) =~= self.objects@);
            lemma_list_hit_props(self.objects@, *r, t_min, t_max);
        }
        best
    }
}

} // verus!
