//! Surface materials: diffuse, fuzzy-specular and emissive, as a closed set of
//! tagged variants dispatched by pattern match.

use vstd::prelude::*;
use crate::fx::{SCALE, fmul, fadd};
use crate::vec3::{Vec3, Color, v_zero, v_add, v_sub, v_scale, v_unit, v_dot, v_len2};
use crate::ray::Ray;
use crate::hittable::HitRecord;
use crate::rng::random_in_range;

verus! {

/// A successful scatter: the color attenuation and the outgoing ray.
#[derive(Clone, Copy, PartialEq, Eq, Structural, Debug)]
pub struct Scatter {
    pub attenuation: Color,
    pub ray: Ray,
}

/// Diffuse (Lambertian) surface: reflectance per channel.
#[derive(Clone, Copy, PartialEq, Eq, Structural, Debug)]
pub struct Lambertian {
    pub albedo: Color,
}

/// Fuzzy-specular (metal) surface; `fuzz` perturbs the mirror direction and is
/// held in `[0, 1]` by construction.
#[derive(Clone, Copy, PartialEq, Eq, Structural, Debug)]
pub struct Metal {
    pub albedo: Color,
    pub fuzz: i64,
}

/// Emissive surface: emission per channel (channels may exceed one).
#[derive(Clone, Copy, PartialEq, Eq, Structural, Debug)]
pub struct DiffuseLight {
    pub emit: Color,
}

/// The closed set of material variants.
#[derive(Clone, Copy, PartialEq, Eq, Structural, Debug)]
pub enum Material {
    Lambertian(Lambertian),
    Metal(Metal),
    DiffuseLight(DiffuseLight),
}

/// The fuzz value a metal is constructed with: the input held into `[0, 1]`.
/// (Values above one model nothing and are clamped; negative values are
/// clamped symmetrically to zero.)
pub open spec fn fuzz_clamp(f: int) -> int {
    if f < 0 {
        0
    } else if f > SCALE as int {
        SCALE as int
    } else {
        f
    }
}

/// The attenuation a material scatters with.
pub open spec fn albedo_of(m: Material) -> Color {
    match m {
        Material::Lambertian(l) => l.albedo,
        Material::Metal(mt) => mt.albedo,
        Material::DiffuseLight(_) => v_zero(),
    }
}

/// The light a material emits (zero for non-emissive variants).
pub open spec fn emit_of(m: Material) -> Color {
    match m {
        Material::DiffuseLight(d) => d.emit,
        _ => v_zero(),
    }
}

/// The scatter a diffuse surface produces from the unit-sphere sample `rv`:
/// direction `normal + unit(rv)`, with the normal itself as fallback when the
/// sum degenerates to zero, attenuated by the albedo.
pub open spec fn lambertian_scatter_spec(l: Lambertian, rec: HitRecord, rv: Vec3) -> Scatter {
    let d = v_add(rec.normal, v_unit(rv));
    Scatter {
        attenuation: l.albedo,
        ray: Ray {
            origin: rec.p,
            direction: if v_len2(d) == 0 {
                rec.normal
            } else {
                d
            },
        },
    }
}

/// The scatter a metal produces from the unit-sphere sample `rv`: the
/// normalized incoming direction mirrored about the normal and perturbed by
/// `fuzz * rv`; absorbed when the result points into the surface.
pub open spec fn metal_scatter_spec(m: Metal, r_in: Ray, rec: HitRecord, rv: Vec3) -> Option<
    Scatter,
> {
    let d = v_add(reflect_spec(v_unit(r_in.direction), rec.normal), v_scale(rv, m.fuzz as int));
    if v_dot(d, rec.normal) > 0 {
        Option::Some(Scatter { attenuation: m.albedo, ray: Ray { origin: rec.p, direction: d } })
    } else {
        Option::None
    }
}

/// An outcome the variant's scattering model can produce for this hit: for
/// the random variants, some unit-sphere sample explains it; a light never
/// scatters. This is the complete per-outcome description of `scatter`.
pub open spec fn possible_scatter(m: Material, r_in: Ray, rec: HitRecord, sc: Option<
    Scatter,
>) -> bool {
    match m {
        Material::Lambertian(l) => exists|rv: Vec3|
            v_len2(rv) < SCALE as int && sc == Some(lambertian_scatter_spec(l, rec, rv)),
        Material::Metal(mt) => exists|rv: Vec3|
            v_len2(rv) < SCALE as int && sc == metal_scatter_spec(mt, r_in, rec, rv),
        Material::DiffuseLight(_) => sc is None,
    }
}

/// The mirror image of `v` about the normal `n`.
pub open spec fn reflect_spec(v: Vec3, n: Vec3) -> Vec3 {
    v_sub(v, v_scale(n, fmul(2 * (SCALE as int), v_dot(v, n))))
}

/// Reflects `v` about the normal `n`.
pub fn reflect(v: Vec3, n: Vec3) -> (r: Vec3)
    ensures
        r == reflect_spec(v, n),
{
    let two: i64 = 2 * SCALE;
    v.sub_v(n.scale(crate::fx::fx_mul(two, v.dot(n))))
}

/// A point strictly inside the unit sphere, drawn by rejection sampling.
/// After a bounded number of rejected draws it falls back to a fixed interior
/// point, so the function terminates on every random stream.
pub fn random_in_unit_sphere() -> (p: Vec3)
    ensures
        v_len2(p) < SCALE as int,
{
    let mut tries: u32 = 0;
    while tries < 64
        invariant
            true,
        decreases 64 - tries,
    {
        let x: i64 = random_in_range(-SCALE, SCALE);
        let y: i64 = random_in_range(-SCALE, SCALE);
        let z: i64 = random_in_range(-SCALE, SCALE);
        let p = Vec3 { x, y, z };
        let ls: i64 = p.length_squared();
        if ls < SCALE {
            return p;
        }
        tries = tries + 1;
    }
    let fallback = Vec3 { x: 32768, y: 0, z: 0 };
    proof {
        assert(32768int * 32768int == 1073741824int) by (nonlinear_arith);
        assert(0int * 0int == 0int) by (nonlinear_arith);
        assert(1073741824int / 65536int == 16384int) by (nonlinear_arith);
        assert(fmul(32768int, 32768int) == 16384int);
        assert(fmul(0int, 0int) == 0int);
        assert(v_len2(fallback) == fadd(fadd(16384int, 0int), 0int));
    }
    fallback
}

impl Lambertian {
    /// Diffuse scatter: a new direction `normal + random unit vector`, with the
    /// normal itself as fallback when the sum degenerates to zero; always
    /// scatters, attenuated by the albedo.
    pub fn scatter(&self, _r_in: &Ray, rec: &HitRecord) -> (r: Option<Scatter>)
        ensures
            r is Some,
            (r matches Some(s) ==> s.attenuation == self.albedo && s.ray.origin == rec.p),
            exists|rv: Vec3|
                v_len2(rv) < SCALE as int && r == Some(lambertian_scatter_spec(*self, *rec, rv)),
    {
        let rv = random_in_unit_sphere();
        let mut direction = rec.normal.add_v(rv.unit());
        if direction.length_squared() == 0 {
            direction = rec.normal;
        }
        let r = Some(Scatter { attenuation: self.albedo, ray: Ray::new(rec.p, direction) });
        proof {
            assert(v_len2(rv) < SCALE as int && r == Some(
                lambertian_scatter_spec(*self, *rec, rv),
            ));
        }
        r
    }
}

impl Metal {
    /// Builds a metal, holding the fuzz into `[0, 1]`.
    pub fn new(albedo: Color, f: i64) -> (r: Metal)
        ensures
            r.albedo == albedo,
            r.fuzz as int == fuzz_clamp(f as int),
    {
        let fuzz: i64 = if f < 0 {
            0
        } else if f > SCALE {
            SCALE
        } else {
            f
        };
        Metal { albedo, fuzz }
    }

    /// Specular scatter: the normalized incoming direction mirrored about the
    /// normal, perturbed by `fuzz`; absorbed (no scatter) when the perturbed
    /// direction points into the surface.
    pub fn scatter(&self, r_in: &Ray, rec: &HitRecord) -> (r: Option<Scatter>)
        ensures
            (r matches Some(s) ==> s.attenuation == self.albedo && s.ray.origin == rec.p
                && v_dot(s.ray.direction, rec.normal) > 0),
            exists|rv: Vec3|
                v_len2(rv) < SCALE as int && r == metal_scatter_spec(*self, *r_in, *rec, rv),
    {
        let reflected = reflect(r_in.direction.unit(), rec.normal);
        let rv = random_in_unit_sphere();
        let scattered_dir = reflected.add_v(rv.scale(self.fuzz));
        let r: Option<Scatter> = if scattered_dir.dot(rec.normal) > 0 {
            Some(Scatter { attenuation: self.albedo, ray: Ray::new(rec.p, scattered_dir) })
        } else {
            None
        };
        proof {
            assert(v_len2(rv) < SCALE as int && r == metal_scatter_spec(*self, *r_in, *rec, rv));
        }
        r
    }
}

impl DiffuseLight {
    /// A light never scatters: transport terminates at an emissive surface.
    pub fn scatter(&self, _r_in: &Ray, _rec: &HitRecord) -> (r: Option<Scatter>)
        ensures
            r is None,
    {
        None
    }

    /// The configured emission color.
    pub fn emitted(&self) -> (c: Color)
        ensures
            c == self.emit,
    {
        self.emit
    }
}

impl Material {
    /// Dispatches the variant's scattering model.
    pub fn scatter(&self, r_in: &Ray, rec: &HitRecord) -> (r: Option<Scatter>)
        ensures
            ((*self) is DiffuseLight ==> r is None),
            ((*self) is Lambertian ==> r is Some),
            (r matches Some(s) ==> s.attenuation == albedo_of(*self) && s.ray.origin == rec.p),
            ((*self) is Metal ==> (r matches Some(s) ==> v_dot(s.ray.direction, rec.normal) > 0)),
            possible_scatter(*self, *r_in, *rec, r),
    {
        match self {
            Material::Lambertian(l) => l.scatter(r_in, rec),
            Material::Metal(m) => m.scatter(r_in, rec),
            Material::DiffuseLight(d) => d.scatter(r_in, rec),
        }
    }

    /// The variant's emission: zero unless the material is a light.
    pub fn emitted(&self) -> (c: Color)
        ensures
            c == emit_of(*self),
    {
        match self {
            Material::DiffuseLight(d) => d.emitted(),
            _ => Vec3::zero(),
        }
    }
}

} // verus!
