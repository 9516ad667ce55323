//! The path-tracing integrator and the per-pixel sampling driver.

use vstd::prelude::*;
use crate::fx::{SCALE, FX_MAX, fadd, fdivs, fsqrt, fx_add, fx_div, fx_sqrt, lemma_fdivs_zero,
    lemma_fmul_zero, lemma_fmul_nonneg};
use crate::vec3::{Vec3, Color, v_zero, v_add, v_cmul, v_len2};
use crate::ray::Ray;
use crate::sphere::Sphere;
use crate::hittable::{HittableList, list_hit_spec, lemma_list_hit_props};
use crate::material::{Scatter, possible_scatter, lambertian_scatter_spec, metal_scatter_spec,
    albedo_of, emit_of, Material};
use crate::camera::{Camera, get_ray_spec, in_unit_disk};
use crate::rng::random_in_range;

verus! {

/// Lower bound of every secondary intersection query, suppressing
/// self-intersection at a scattered ray's origin (shadow acne).
pub const HIT_T_MIN: i64 = 66;

/// A radiance value the integrator can produce for this ray with this bounce
/// budget: black on an exhausted budget or on a miss; on a hit, the material's
/// emission plus, for a possible scatter, the attenuated possible radiance of
/// the scattered ray — or the emission alone on absorption.
pub open spec fn possible_radiance(objs: Seq<Sphere>, r: Ray, depth: u32, c: Color) -> bool
    decreases depth,
{
    if depth == 0 {
        c == v_zero()
    } else {
        match list_hit_spec(objs, r, HIT_T_MIN, FX_MAX) {
            Option::None => c == v_zero(),
            Option::Some(h) => {
                ||| exists|sc: Scatter, c2: Color|
                    possible_scatter(h.mat, r, h, Some(sc)) && possible_radiance(
                        objs,
                        sc.ray,
                        (depth - 1) as u32,
                        c2,
                    ) && c == v_add(emit_of(h.mat), v_cmul(sc.attenuation, c2))
                ||| (possible_scatter(h.mat, r, h, Option::<Scatter>::None) && c == emit_of(
                    h.mat,
                ))
            },
        }
    }
}

/// Channelwise nonnegativity of a color.
pub open spec fn color_nonneg(c: Color) -> bool {
    c.x >= 0 && c.y >= 0 && c.z >= 0
}

/// Every material in the scene has nonnegative albedo and emission channels.
pub open spec fn scene_colors_ok(objs: Seq<Sphere>) -> bool {
    forall|i: int|
        0 <= i < objs.len() ==> color_nonneg(albedo_of(#[trigger] objs[i].mat)) && color_nonneg(
            emit_of(objs[i].mat),
        )
}

/// No sign anomaly in transport: with nonnegative albedos and emissions
/// throughout the scene, every radiance the integrator can produce is
/// channelwise nonnegative.
pub proof fn lemma_possible_radiance_nonneg(objs: Seq<Sphere>, r: Ray, depth: u32, c: Color)
    requires
        scene_colors_ok(objs),
        possible_radiance(objs, r, depth, c),
    ensures
        color_nonneg(c),
    decreases depth,
{
    if depth != 0 {
        match list_hit_spec(objs, r, HIT_T_MIN, FX_MAX) {
            Option::None => {},
            Option::Some(h) => {
                lemma_list_hit_props(objs, r, HIT_T_MIN, FX_MAX);
                let i = choose|i: int| 0 <= i < objs.len() && h.mat == objs[i].mat;
                assert(color_nonneg(albedo_of(h.mat)) && color_nonneg(emit_of(h.mat)));
                if exists|sc: Scatter, c2: Color|
                    possible_scatter(h.mat, r, h, Some(sc)) && possible_radiance(
                        objs,
                        sc.ray,
                        (depth - 1) as u32,
                        c2,
                    ) && c == v_add(emit_of(h.mat), v_cmul(sc.attenuation, c2)) {
                    let (sc, c2) = choose|sc: Scatter, c2: Color|
                        possible_scatter(h.mat, r, h, Some(sc)) && possible_radiance(
                            objs,
                            sc.ray,
                            (depth - 1) as u32,
                            c2,
                        ) && c == v_add(emit_of(h.mat), v_cmul(sc.attenuation, c2));
                    lemma_possible_radiance_nonneg(objs, sc.ray, (depth - 1) as u32, c2);
                    match h.mat {
                        Material::Lambertian(l) => {
                            let rv = choose|rv: Vec3|
                                v_len2(rv) < SCALE as int && Some(sc) == Some(
                                    lambertian_scatter_spec(l, h, rv),
                                );
                            assert(sc.attenuation == l.albedo);
                        },
                        Material::Metal(mt) => {
                            let rv = choose|rv: Vec3|
                                v_len2(rv) < SCALE as int && Some(sc) == metal_scatter_spec(
                                    mt,
                                    r,
                                    h,
                                    rv,
                                );
                            assert(sc.attenuation == mt.albedo);
                        },
                        Material::DiffuseLight(_) => {
                            assert(false);
                        },
                    }
                    lemma_fmul_nonneg(sc.attenuation.x as int, c2.x as int);
                    lemma_fmul_nonneg(sc.attenuation.y as int, c2.y as int);
                    lemma_fmul_nonneg(sc.attenuation.z as int, c2.z as int);
                } else {
                    assert(c == emit_of(h.mat));
                }
            },
        }
    }
}

/// Recursive radiance estimate along a ray, with `depth` remaining bounces.
///
/// An exhausted depth budget yields black; a miss yields black (the scene has
/// no environment light); a hit yields the material's emission plus, when the
/// material scatters, the attenuated radiance of the scattered ray. The
/// result is always a [`possible_radiance`] of the ray, which pins the
/// recursion equation up to the random draws.
pub fn ray_color(r: &Ray, world: &HittableList, depth: u32) -> (c: Color)
    ensures
        possible_radiance(world.objects@, *r, depth, c),
        depth == 0 ==> c == v_zero(),
        (depth > 0 && list_hit_spec(world.objects@, *r, HIT_T_MIN, FX_MAX) is None) ==> c
            == v_zero(),
        (depth > 0 ==> (list_hit_spec(world.objects@, *r, HIT_T_MIN, FX_MAX) matches Some(h)
            ==> (h.mat is DiffuseLight ==> c == emit_of(h.mat)))),
        (depth == 1 ==> (list_hit_spec(world.objects@, *r, HIT_T_MIN, FX_MAX) matches Some(h)
            ==> c == emit_of(h.mat))),
    decreases depth,
{
    if depth == 0 {
        return Vec3::zero();
    }
    match world.hit(r, HIT_T_MIN, FX_MAX) {
        None => Vec3::zero(),
        Some(rec) => {
            let emitted = rec.mat.emitted();
            match rec.mat.scatter(r, &rec) {
                Some(sc) => {
                    let bounced = ray_color(&sc.ray, world, depth - 1);
                    let out = emitted.add_v(sc.attenuation.cmul(bounced));
                    proof {
                        if depth == 1 {
                            // the recursion bottomed out: the attenuated term vanishes
                            lemma_fmul_zero(sc.attenuation.x as int);
                            lemma_fmul_zero(sc.attenuation.y as int);
                            lemma_fmul_zero(sc.attenuation.z as int);
                        }
                        assert(possible_scatter(rec.mat, *r, rec, Some(sc)) && possible_radiance(
                            world.objects@,
                            sc.ray,
                            (depth - 1) as u32,
                            bounced,
                        ) && out == v_add(emit_of(rec.mat), v_cmul(sc.attenuation, bounced)));
                        assert(possible_radiance(world.objects@, *r, depth, out));
                    }
                    out
                },
                None => {
                    proof {
                        assert(possible_scatter(rec.mat, *r, rec, Option::<Scatter>::None)
                            && emitted == emit_of(rec.mat));
                        assert(possible_radiance(world.objects@, *r, depth, emitted));
                    }
                    emitted
                },
            }
        },
    }
}

/// One output channel: non-positive radiance maps to zero, otherwise the value
/// is scaled to `[0, 255]` with saturation.
pub open spec fn quantize_spec(v: int) -> int {
    if v <= 0 {
        0
    } else if v / 256 > 255 {
        255
    } else {
        v / 256
    }
}

/// Quantizes one averaged, gamma-corrected channel to an 8-bit value.
pub fn quantize(v: i64) -> (b: u8)
    ensures
        b as int == quantize_spec(v as int),
{
    if v <= 0 {
        0
    } else {
        let q: u64 = (v as u64) / 256;
        if q > 255 {
            255
        } else {
            q as u8
        }
    }
}

/// Tone-maps an accumulated pixel color: divides by the sample count (as a
/// fixed-point scalar), applies gamma-2 correction (a square root per channel)
/// and quantizes each channel to 8 bits.
pub fn tone_map(sum: Color, samples_fx: i64) -> (rgb: (u8, u8, u8))
    ensures
        rgb.0 as int == quantize_spec(fsqrt(fdivs(sum.x as int, samples_fx as int))),
        rgb.1 as int == quantize_spec(fsqrt(fdivs(sum.y as int, samples_fx as int))),
        rgb.2 as int == quantize_spec(fsqrt(fdivs(sum.z as int, samples_fx as int))),
{
    (
        quantize(fx_sqrt(fx_div(sum.x, samples_fx))),
        quantize(fx_sqrt(fx_div(sum.y, samples_fx))),
        quantize(fx_sqrt(fx_div(sum.z, samples_fx))),
    )
}

/// A pixel coordinate widened to a fixed-point scalar.
pub fn to_fx(n: u32) -> (r: i64)
    ensures
        r as int == (n as int) * (SCALE as int),
{
    (n as i64) * SCALE
}

/// The horizontal viewport coordinate of pixel column `x` under jitter `ju`.
pub open spec fn pixel_u(x: u32, width: u32, ju: i64) -> int {
    fdivs(fadd((x as int) * (SCALE as int), ju as int), (width - 1) * (SCALE as int))
}

/// The vertical viewport coordinate of pixel row `y` under jitter `jv`; the
/// row index is flipped so the top image row maps to the top of the viewport.
pub open spec fn pixel_v(y: u32, height: u32, jv: i64) -> int {
    fdivs(fadd((height - 1 - y) * (SCALE as int), jv as int), (height - 1) * (SCALE as int))
}

/// One Monte Carlo sample for pixel `(x, y)`: a radiance the integrator can
/// produce for a camera ray through a jittered sub-pixel position and a lens
/// point.
pub open spec fn possible_sample(
    objs: Seq<Sphere>,
    cam: Camera,
    x: u32,
    y: u32,
    width: u32,
    height: u32,
    depth: u32,
    c: Color,
) -> bool {
    exists|ju: i64, jv: i64, dx: int, dy: int|
        0 <= ju < SCALE && 0 <= jv < SCALE && in_unit_disk(dx, dy) && possible_radiance(
            objs,
            get_ray_spec(cam, pixel_u(x, width, ju), pixel_v(y, height, jv), dx, dy),
            depth,
            c,
        )
}

/// The color accumulated over `n` samples of pixel `(x, y)`: zero for none,
/// otherwise a previous accumulation plus one more possible sample.
pub open spec fn possible_sum(
    objs: Seq<Sphere>,
    cam: Camera,
    x: u32,
    y: u32,
    width: u32,
    height: u32,
    depth: u32,
    n: u32,
    sum: Color,
) -> bool
    decreases n,
{
    if n == 0 {
        sum == v_zero()
    } else {
        exists|prev: Color, c: Color|
            possible_sum(objs, cam, x, y, width, height, depth, (n - 1) as u32, prev)
                && possible_sample(objs, cam, x, y, width, height, depth, c) && sum == v_add(
                prev,
                c,
            )
    }
}

/// The bytes pixel `(x, y)` may produce: the tone-mapped (divide by the
/// sample count, square root, quantize) accumulation of `samples` possible
/// samples.
pub open spec fn pixel_bytes(
    objs: Seq<Sphere>,
    cam: Camera,
    x: u32,
    y: u32,
    width: u32,
    height: u32,
    samples: u32,
    depth: u32,
    r: u8,
    g: u8,
    b: u8,
) -> bool {
    exists|sum: Color|
        possible_sum(objs, cam, x, y, width, height, depth, samples, sum) && r as int
            == quantize_spec(fsqrt(fdivs(sum.x as int, (samples as int) * (SCALE as int)))) && g
            as int == quantize_spec(fsqrt(fdivs(sum.y as int, (samples as int) * (SCALE as int))))
            && b as int == quantize_spec(
            fsqrt(fdivs(sum.z as int, (samples as int) * (SCALE as int))),
        )
}

/// One pixel's full sample loop: `samples_per_pixel` jittered camera rays,
/// averaged, gamma-2 corrected (square root per channel) and quantized.
///
/// The result is pinned to [`pixel_bytes`]: a tone-mapped accumulation of
/// possible radiance samples for this pixel. With a zero bounce budget every
/// estimate is black, so the pixel is black; likewise when the scene is
/// empty, since every ray misses.
pub fn render_pixel(
    world: &HittableList,
    cam: &Camera,
    x: u32,
    y: u32,
    width: u32,
    height: u32,
    samples_per_pixel: u32,
    max_depth: u32,
) -> (rgb: (u8, u8, u8))
    requires
        width >= 2,
        height >= 2,
        x < width,
        y < height,
        samples_per_pixel >= 1,
    ensures
        pixel_bytes(
            world.objects@,
            *cam,
            x,
            y,
            width,
            height,
            samples_per_pixel,
            max_depth,
            rgb.0,
            rgb.1,
            rgb.2,
        ),
        max_depth == 0 ==> rgb == (0u8, 0u8, 0u8),
        world.objects@.len() == 0 ==> rgb == (0u8, 0u8, 0u8),
{
    let mut sum: Color = Vec3::zero();
    let mut s: u32 = 0;
    while s < samples_per_pixel
        invariant
            width >= 2,
            height >= 2,
            x < width,
            y < height,
            s <= samples_per_pixel,
            possible_sum(world.objects@, *cam, x, y, width, height, max_depth, s, sum),
            max_depth == 0 ==> sum == v_zero(),
            world.objects@.len() == 0 ==> sum == v_zero(),
        decreases samples_per_pixel - s,
    {
        let ju: i64 = random_in_range(0, SCALE - 1);
        let jv: i64 = random_in_range(0, SCALE - 1);
        let u: i64 = fx_div(fx_add(to_fx(x), ju), to_fx(width - 1));
        let v: i64 = fx_div(fx_add(to_fx(height - 1 - y), jv), to_fx(height - 1));
        let ray = cam.get_ray(u, v);
        let c = ray_color(&ray, world, max_depth);
        let ghost prev_sum = sum;
        sum = sum.add_v(c);
        proof {
            assert(u as int == pixel_u(x, width, ju) && v as int == pixel_v(y, height, jv));
            let (dx, dy) = choose|dx: int, dy: int|
                in_unit_disk(dx, dy) && ray == get_ray_spec(*cam, u as int, v as int, dx, dy);
            assert(0 <= ju < SCALE && 0 <= jv < SCALE && in_unit_disk(dx, dy)
                && possible_radiance(
                world.objects@,
                get_ray_spec(*cam, pixel_u(x, width, ju), pixel_v(y, height, jv), dx, dy),
                max_depth,
                c,
            ));
            assert(possible_sample(world.objects@, *cam, x, y, width, height, max_depth, c));
            assert(possible_sum(
                world.objects@,
                *cam,
                x,
                y,
                width,
                height,
                max_depth,
                (s + 1) as u32,
                sum,
            )) by {
                assert(possible_sum(
                    world.objects@,
                    *cam,
                    x,
                    y,
                    width,
                    height,
                    max_depth,
                    s,
                    prev_sum,
                ) && possible_sample(world.objects@, *cam, x, y, width, height, max_depth, c)
                    && sum == v_add(prev_sum, c));
            }
        }
        s = s + 1;
    }
    let n: i64 = to_fx(samples_per_pixel);
    proof {
        if max_depth == 0 || world.objects@.len() == 0 {
            lemma_fdivs_zero(n as int);
        }
    }
    tone_map(sum, n)
}

/// The byte offset of pixel `(x, y)` in a row-major RGB buffer.
pub open spec fn pixel_offset(x: u32, y: u32, width: u32) -> int {
    3 * ((y as int) * (width as int) + (x as int))
}

/// A completed pixel's offset lies strictly before the write position
/// `3 * (y * width + x)` whenever the pixel precedes `(x, y)` in row-major
/// order.
proof fn lemma_pixel_offset_bound(px: u32, py: u32, x: u32, y: u32, width: u32)
    requires
        px < width,
        py < y || (py == y && px < x),
    ensures
        pixel_offset(px, py, width) + 2 < 3 * (y as int) * (width as int) + 3 * (x as int),
{
    assert(3 * (y as int) * (width as int) == 3 * ((y as int) * (width as int)))
        by (nonlinear_arith);
    if py < y {
        assert(((py as int) + 1) * (width as int) <= (y as int) * (width as int))
            by (nonlinear_arith)
            requires
                (py as int) + 1 <= y as int,
                width as int >= 0,
        ;
        assert(((py as int) + 1) * (width as int) == (py as int) * (width as int) + (width as int))
            by (nonlinear_arith);
    }
}

/// Renders the whole image: a row-major, top-row-first buffer of 8-bit RGB
/// triples, `3 * width * height` bytes, each pixel's triple a
/// [`pixel_bytes`] outcome of its own sample loop. Pixels are independent;
/// this driver walks them in order, and a caller may equally compute each
/// pixel with [`render_pixel`] in parallel.
pub fn render(
    world: &HittableList,
    cam: &Camera,
    width: u32,
    height: u32,
    samples_per_pixel: u32,
    max_depth: u32,
) -> (buf: Vec<u8>)
    requires
        width >= 2,
        height >= 2,
        samples_per_pixel >= 1,
    ensures
        buf@.len() == 3 * (width as int) * (height as int),
        forall|px: u32, py: u32|
            px < width && py < height ==> pixel_bytes(
                world.objects@,
                *cam,
                px,
                py,
                width,
                height,
                samples_per_pixel,
                max_depth,
                buf@[pixel_offset(px, py, width)],
                buf@[pixel_offset(px, py, width) + 1],
                buf@[pixel_offset(px, py, width) + 2],
            ),
        max_depth == 0 ==> (forall|k: int| 0 <= k < buf@.len() ==> buf@[k] == 0u8),
{
    let mut buf: Vec<u8> = Vec::new();
    let mut y: u32 = 0;
    while y < height
        invariant
            width >= 2,
            height >= 2,
            samples_per_pixel >= 1,
            y <= height,
            buf@.len() == 3 * (y as int) * (width as int),
            forall|px: u32, py: u32|
                px < width && py < y ==> pixel_bytes(
                    world.objects@,
                    *cam,
                    px,
                    py,
                    width,
                    height,
                    samples_per_pixel,
                    max_depth,
                    buf@[pixel_offset(px, py, width)],
                    buf@[pixel_offset(px, py, width) + 1],
                    buf@[pixel_offset(px, py, width) + 2],
                ),
            max_depth == 0 ==> (forall|k: int| 0 <= k < buf@.len() ==> buf@[k] == 0u8),
        decreases height - y,
    {
        let mut x: u32 = 0;
        while x < width
            invariant
                width >= 2,
                height >= 2,
                samples_per_pixel >= 1,
                y < height,
                x <= width,
                buf@.len() == 3 * (y as int) * (width as int) + 3 * (x as int),
                forall|px: u32, py: u32|
                    px < width && (py < y || (py == y && px < x)) ==> pixel_bytes(
                        world.objects@,
                        *cam,
                        px,
                        py,
                        width,
                        height,
                        samples_per_pixel,
                        max_depth,
                        buf@[pixel_offset(px, py, width)],
                        buf@[pixel_offset(px, py, width) + 1],
                        buf@[pixel_offset(px, py, width) + 2],
                    ),
                max_depth == 0 ==> (forall|k: int| 0 <= k < buf@.len() ==> buf@[k] == 0u8),
            decreases width - x,
        {
            let (r8, g8, b8) = render_pixel(
                world,
                cam,
                x,
                y,
                width,
                height,
                samples_per_pixel,
                max_depth,
            );
            let ghost prev_buf = buf@;
            buf.push(r8);
            buf.push(g8);
            buf.push(b8);
            proof {
                assert(buf@ =~= prev_buf.push(r8).push(g8).push(b8));
                assert forall|px: u32, py: u32|
                    px < width && (py < y || (py == y && px < x + 1)) implies pixel_bytes(
                    world.objects@,
                    *cam,
                    px,
                    py,
                    width,
                    height,
                    samples_per_pixel,
                    max_depth,
                    buf@[pixel_offset(px, py, width)],
                    buf@[pixel_offset(px, py, width) + 1],
                    buf@[pixel_offset(px, py, width) + 2],
                ) by {
                    if py < y || (py == y && px < x) {
                        lemma_pixel_offset_bound(px, py, x, y, width);
                        assert(pixel_bytes(
                            world.objects@,
                            *cam,
                            px,
                            py,
                            width,
                            height,
                            samples_per_pixel,
                            max_depth,
                            prev_buf[pixel_offset(px, py, width)],
                            prev_buf[pixel_offset(px, py, width) + 1],
                            prev_buf[pixel_offset(px, py, width) + 2],
                        ));
                        assert(buf@[pixel_offset(px, py, width)] == prev_buf[pixel_offset(
                            px,
                            py,
                            width,
                        )]);
                        assert(buf@[pixel_offset(px, py, width) + 1] == prev_buf[pixel_offset(
                            px,
                            py,
                            width,
                        ) + 1]);
                        assert(buf@[pixel_offset(px, py, width) + 2] == prev_buf[pixel_offset(
                            px,
                            py,
                            width,
                        ) + 2]);
                    } else {
                        // the freshly written pixel: its offset is the old length
                        assert(3 * (py as int) * (width as int) == 3 * ((py as int) * (
                        width as int))) by (nonlinear_arith);
                        assert(pixel_offset(px, py, width) == prev_buf.len());
                        assert(buf@[pixel_offset(px, py, width)] == r8);
                        assert(buf@[pixel_offset(px, py, width) + 1] == g8);
                        assert(buf@[pixel_offset(px, py, width) + 2] == b8);
                    }
                }
            }
            x = x + 1;
        }
        proof {
            assert(3 * ((y as int) + 1) * (width as int) == 3 * (y as int) * (width as int) + 3
                * (width as int)) by (nonlinear_arith);
        }
        y = y + 1;
    }
    proof {
        assert(3 * (height as int) * (width as int) == 3 * (width as int) * (height as int))
            by (nonlinear_arith);
    }
    buf
}

} // verus!
