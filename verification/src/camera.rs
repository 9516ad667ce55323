//! The camera: maps normalized viewport coordinates to world-space rays, with
//! lens-aperture sampling for depth-of-field.

use vstd::prelude::*;
use crate::fx::{SCALE, fadd, fmul, fx_mul, lemma_fmul_zero};
use crate::vec3::{Vec3, v_add, v_sub, v_scale, v_unit, v_cross};
use crate::ray::Ray;
use crate::rng::random_in_range;

verus! {

/// Half of one, used to halve scalars exactly (up to truncation toward zero).
pub const FX_HALF: i64 = 32768;

/// Derived, immutable camera basis. `u`, `v` and the view direction form the
/// lens plane; `lens_radius` is half the aperture.
#[derive(Clone, Copy, PartialEq, Eq, Structural, Debug)]
pub struct Camera {
    pub origin: Vec3,
    pub lower_left_corner: Vec3,
    pub horizontal: Vec3,
    pub vertical: Vec3,
    pub u: Vec3,
    pub v: Vec3,
    pub lens_radius: i64,
}

/// A lens sample: a point strictly inside the unit disk.
pub open spec fn in_unit_disk(x: int, y: int) -> bool {
    fadd(fmul(x, x), fmul(y, y)) < SCALE as int
}

/// A point strictly inside the unit disk, drawn by rejection sampling.
/// After a bounded number of rejected draws it falls back to the disk's
/// center, so the function terminates on every random stream.
pub fn random_in_unit_disk() -> (p: (i64, i64))
    ensures
        in_unit_disk(p.0 as int, p.1 as int),
{
    let mut tries: u32 = 0;
    while tries < 64
        invariant
            true,
        decreases 64 - tries,
    {
        let x: i64 = random_in_range(-SCALE, SCALE);
        let y: i64 = random_in_range(-SCALE, SCALE);
        let ls: i64 = crate::fx::fx_add(fx_mul(x, x), fx_mul(y, y));
        if ls < SCALE {
            return (x, y);
        }
        tries = tries + 1;
    }
    proof {
        lemma_fmul_zero(0);
    }
    (0, 0)
}

/// The camera a configuration constructs: an orthonormal basis aimed from
/// `lookfrom` at `lookat`, a viewport scaled by the focus distance, and a lens
/// radius of half the aperture. `tan_half_fov` is the tangent of half the
/// vertical field of view, supplied by the caller as a fixed-point scalar.
pub open spec fn cam_make(
    lookfrom: Vec3,
    lookat: Vec3,
    vup: Vec3,
    tan_half_fov: i64,
    aspect_ratio: i64,
    aperture: i64,
    focus_dist: i64,
) -> Camera {
    let viewport_height = fmul(2 * (SCALE as int), tan_half_fov as int);
    let viewport_width = fmul(aspect_ratio as int, viewport_height);
    let w = v_unit(v_sub(lookfrom, lookat));
    let u = v_unit(v_cross(vup, w));
    let v = v_cross(w, u);
    let horizontal = v_scale(u, fmul(viewport_width, focus_dist as int));
    let vertical = v_scale(v, fmul(viewport_height, focus_dist as int));
    let lower_left_corner = v_sub(
        v_sub(
            v_sub(lookfrom, v_scale(horizontal, FX_HALF as int)),
            v_scale(vertical, FX_HALF as int),
        ),
        v_scale(w, focus_dist as int),
    );
    Camera {
        origin: lookfrom,
        lower_left_corner,
        horizontal,
        vertical,
        u,
        v,
        lens_radius: fmul(aperture as int, FX_HALF as int) as i64,
    }
}

/// The ray toward viewport coordinates `(s, t)` from a lens point `(dx, dy)`
/// scaled by the lens radius; all rays for one `(s, t)` converge at the focus
/// distance.
pub open spec fn get_ray_spec(cam: Camera, s: int, t: int, dx: int, dy: int) -> Ray {
    let rd_x = fmul(dx, cam.lens_radius as int);
    let rd_y = fmul(dy, cam.lens_radius as int);
    let offset = v_add(v_scale(cam.u, rd_x), v_scale(cam.v, rd_y));
    Ray {
        origin: v_add(cam.origin, offset),
        direction: v_sub(
            v_sub(
                v_add(
                    v_add(cam.lower_left_corner, v_scale(cam.horizontal, s)),
                    v_scale(cam.vertical, t),
                ),
                cam.origin,
            ),
            offset,
        ),
    }
}

impl Camera {
    /// Builds the camera from a look-from/look-at configuration.
    pub fn new(
        lookfrom: Vec3,
        lookat: Vec3,
        vup: Vec3,
        tan_half_fov: i64,
        aspect_ratio: i64,
        aperture: i64,
        focus_dist: i64,
    ) -> (c: Camera)
        ensures
            c == cam_make(lookfrom, lookat, vup, tan_half_fov, aspect_ratio, aperture, focus_dist),
    {
        let two: i64 = 2 * SCALE;
        let viewport_height: i64 = fx_mul(two, tan_half_fov);
        let viewport_width: i64 = fx_mul(aspect_ratio, viewport_height);
        let w = lookfrom.sub_v(lookat).unit();
        let u = vup.cross(w).unit();
        let v = w.cross(u);
        let horizontal = u.scale(fx_mul(viewport_width, focus_dist));
        let vertical = v.scale(fx_mul(viewport_height, focus_dist));
        let lower_left_corner = lookfrom
            .sub_v(horizontal.scale(FX_HALF))
            .sub_v(vertical.scale(FX_HALF))
            .sub_v(w.scale(focus_dist));
        Camera {
            origin: lookfrom,
            lower_left_corner,
            horizontal,
            vertical,
            u,
            v,
            lens_radius: fx_mul(aperture, FX_HALF),
        }
    }

    /// The ray toward viewport coordinates `(s, t)`. With a zero lens radius
    /// (aperture zero) the ray is fully determined by `(s, t)`; otherwise its
    /// origin is offset within the lens disk of radius `lens_radius` spanned
    /// by `u` and `v`.
    pub fn get_ray(&self, s: i64, t: i64) -> (r: Ray)
        ensures
            exists|dx: int, dy: int|
                in_unit_disk(dx, dy) && r == get_ray_spec(*self, s as int, t as int, dx, dy),
            self.lens_radius == 0 ==> r == get_ray_spec(*self, s as int, t as int, 0, 0),
    {
        let (dx, dy) = random_in_unit_disk();
        let rd_x: i64 = fx_mul(dx, self.lens_radius);
        let rd_y: i64 = fx_mul(dy, self.lens_radius);
        let offset = self.u.scale(rd_x).add_v(self.v.scale(rd_y));
        let origin = self.origin.add_v(offset);
        let direction = self
            .lower_left_corner
            .add_v(self.horizontal.scale(s))
            .add_v(self.vertical.scale(t))
            .sub_v(self.origin)
            .sub_v(offset);
        let r = Ray { origin, direction };
        proof {
            assert(in_unit_disk(dx as int, dy as int) && r == get_ray_spec(
                *self,
                s as int,
                t as int,
                dx as int,
                dy as int,
            ));
            if self.lens_radius == 0 {
                lemma_fmul_zero(dx as int);
                lemma_fmul_zero(dy as int);
                lemma_fmul_zero(0);
            }
        }
        r
    }
}

} // verus!
