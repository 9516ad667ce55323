use pathtracer::fx::SCALE;
use pathtracer::vec3::Vec3;
use pathtracer::ray::Ray;
use pathtracer::sphere::Sphere;
use pathtracer::hittable::HittableList;
use pathtracer::material::{Material, Lambertian, Metal, DiffuseLight};
use pathtracer::render::{ray_color, render_pixel, render, quantize, tone_map};
use pathtracer::camera::Camera;
use pathtracer::rng::random_in_range;

fn gray(level: i64) -> Vec3 {
    Vec3 { x: level, y: level, z: level }
}

fn test_sphere() -> Sphere {
    // unit sphere two units down the -z axis
    Sphere::new(
        Vec3 { x: 0, y: 0, z: -2 * SCALE },
        SCALE,
        Material::Lambertian(Lambertian { albedo: gray(SCALE / 2) }),
    )
}

fn axis_ray() -> Ray {
    Ray::new(Vec3 { x: 0, y: 0, z: 0 }, Vec3 { x: 0, y: 0, z: -SCALE })
}

#[test]
fn sphere_hit_front_face_is_exact() {
    let s = test_sphere();
    let rec = s.hit(&axis_ray(), 66, i64::MAX).expect("the ray points at the sphere");
    // the near surface is one unit away and the math is exact here
    assert_eq!(rec.t, SCALE);
    assert_eq!(rec.p, Vec3 { x: 0, y: 0, z: -SCALE });
    assert_eq!(rec.normal, Vec3 { x: 0, y: 0, z: SCALE });
    assert!(rec.front_face);
    // the record's parameter lies strictly inside the query interval
    assert!(66 < rec.t && rec.t < i64::MAX);
    // |point - center| == radius
    assert_eq!(rec.p.sub_v(s.center).length(), s.radius);
}

#[test]
fn sphere_hit_normal_opposes_ray() {
    let s = test_sphere();
    // start past the near surface: the far root is taken and the normal flips
    let rec = s.hit(&axis_ray(), 3 * SCALE / 2, i64::MAX).expect("the far root is in range");
    assert_eq!(rec.t, 3 * SCALE);
    assert!(!rec.front_face);
    assert!(rec.normal.dot(axis_ray().direction) <= 0);
}

#[test]
fn sphere_hit_respects_interval() {
    let s = test_sphere();
    // both roots (t = 1 and t = 3) fall outside (4, +inf)
    assert!(s.hit(&axis_ray(), 4 * SCALE, i64::MAX).is_none());
    // and outside (t_min, 0.5)
    assert!(s.hit(&axis_ray(), 66, SCALE / 2).is_none());
}

#[test]
fn sphere_miss_returns_none() {
    let s = test_sphere();
    let away = Ray::new(Vec3 { x: 0, y: 0, z: 0 }, Vec3 { x: 0, y: 0, z: SCALE });
    assert!(s.hit(&away, 66, i64::MAX).is_none());
}

#[test]
fn scene_returns_nearest_hit() {
    let mat = Material::Lambertian(Lambertian { albedo: gray(SCALE / 2) });
    let near = Sphere::new(Vec3 { x: 0, y: 0, z: -2 * SCALE }, SCALE, mat);
    let far = Sphere::new(Vec3 { x: 0, y: 0, z: -6 * SCALE }, SCALE, mat);
    let mut world = HittableList::new();
    world.add(far);
    world.add(near);
    let rec = world.hit(&axis_ray(), 66, i64::MAX).expect("both spheres lie on the ray");
    assert_eq!(rec.t, SCALE);
    // the same scene in the other insertion order gives the same nearest hit
    let mut world2 = HittableList::new();
    world2.add(near);
    world2.add(far);
    let rec2 = world2.hit(&axis_ray(), 66, i64::MAX).unwrap();
    assert_eq!(rec2.t, SCALE);
}

#[test]
fn empty_scene_misses() {
    let world = HittableList::new();
    assert!(world.hit(&axis_ray(), 66, i64::MAX).is_none());
}

#[test]
fn metal_fuzz_is_clamped() {
    // 1.5 clamps to 1.0
    let m = Metal::new(gray(SCALE / 2), 3 * SCALE / 2);
    assert_eq!(m.fuzz, SCALE);
    // negative fuzz clamps symmetrically to zero
    let m2 = Metal::new(gray(SCALE / 2), -SCALE / 5);
    assert_eq!(m2.fuzz, 0);
    // in-range fuzz is kept
    let m3 = Metal::new(gray(SCALE / 2), SCALE / 4);
    assert_eq!(m3.fuzz, SCALE / 4);
}

#[test]
fn lambertian_scatter_attenuates_by_albedo() {
    let albedo = Vec3 { x: SCALE / 2, y: SCALE / 4, z: SCALE / 8 };
    let l = Lambertian { albedo };
    let s = test_sphere();
    let rec = s.hit(&axis_ray(), 66, i64::MAX).unwrap();
    for _ in 0..32 {
        let sc = l.scatter(&axis_ray(), &rec).expect("diffuse always scatters");
        assert_eq!(sc.attenuation, albedo);
        assert_eq!(sc.ray.origin, rec.p);
    }
}

#[test]
fn emissive_never_scatters() {
    let d = DiffuseLight { emit: gray(10 * SCALE) };
    let s = test_sphere();
    let rec = s.hit(&axis_ray(), 66, i64::MAX).unwrap();
    assert!(d.scatter(&axis_ray(), &rec).is_none());
    assert_eq!(d.emitted(), gray(10 * SCALE));
    let m = Material::DiffuseLight(d);
    assert!(m.scatter(&axis_ray(), &rec).is_none());
    assert_eq!(m.emitted(), gray(10 * SCALE));
}

#[test]
fn non_emissive_materials_emit_black() {
    let lam = Material::Lambertian(Lambertian { albedo: gray(SCALE / 2) });
    let met = Material::Metal(Metal::new(gray(SCALE / 2), 0));
    assert_eq!(lam.emitted(), Vec3 { x: 0, y: 0, z: 0 });
    assert_eq!(met.emitted(), Vec3 { x: 0, y: 0, z: 0 });
}

#[test]
fn depth_zero_is_black() {
    let mut world = HittableList::new();
    world.add(test_sphere());
    let c = ray_color(&axis_ray(), &world, 0);
    assert_eq!(c, Vec3 { x: 0, y: 0, z: 0 });
}

#[test]
fn miss_is_black() {
    let mut world = HittableList::new();
    world.add(test_sphere());
    let away = Ray::new(Vec3 { x: 0, y: 0, z: 0 }, Vec3 { x: 0, y: 0, z: SCALE });
    for depth in [1u32, 5, 50] {
        assert_eq!(ray_color(&away, &world, depth), Vec3 { x: 0, y: 0, z: 0 });
    }
}

#[test]
fn emissive_hit_returns_exactly_emitted() {
    let emit = Vec3 { x: 10 * SCALE, y: 7 * SCALE, z: SCALE / 2 };
    let mut world = HittableList::new();
    world.add(Sphere::new(
        Vec3 { x: 0, y: 0, z: -2 * SCALE },
        SCALE,
        Material::DiffuseLight(DiffuseLight { emit }),
    ));
    for depth in [1u32, 5, 50] {
        assert_eq!(ray_color(&axis_ray(), &world, depth), emit);
    }
}

#[test]
fn metal_bounce_with_exhausted_budget_is_black() {
    // depth 1: the metal scatters (or absorbs), and either way the recursive
    // estimate at depth 0 contributes nothing
    let mut world = HittableList::new();
    world.add(Sphere::new(
        Vec3 { x: 0, y: 0, z: -2 * SCALE },
        SCALE,
        Material::Metal(Metal::new(gray(SCALE / 2), 0)),
    ));
    assert_eq!(ray_color(&axis_ray(), &world, 1), Vec3 { x: 0, y: 0, z: 0 });
}

#[test]
fn depth_one_returns_emission_only() {
    // with one bounce left, the attenuated recursive term is black for every
    // material, so the estimate is exactly the hit material's emission
    let mut diffuse_world = HittableList::new();
    diffuse_world.add(test_sphere());
    assert_eq!(ray_color(&axis_ray(), &diffuse_world, 1), Vec3 { x: 0, y: 0, z: 0 });
    let emit = gray(3 * SCALE);
    let mut lit_world = HittableList::new();
    lit_world.add(Sphere::new(
        Vec3 { x: 0, y: 0, z: -2 * SCALE },
        SCALE,
        Material::DiffuseLight(DiffuseLight { emit }),
    ));
    assert_eq!(ray_color(&axis_ray(), &lit_world, 1), emit);
}

#[test]
fn tone_map_averages_gamma_corrects_and_quantizes() {
    // one sample: 0.25 averages to itself, sqrt gives 0.5, which is byte 128
    let sum = Vec3 { x: SCALE / 4, y: 0, z: SCALE };
    assert_eq!(tone_map(sum, SCALE), (128, 0, 255));
    // four samples of 1.0 average to 1.0
    let sum4 = gray(4 * SCALE);
    assert_eq!(tone_map(sum4, 4 * SCALE), (255, 255, 255));
}

#[test]
fn radiance_channels_never_go_negative() {
    // nonnegative albedos and emissions in, nonnegative radiance out
    let mut world = HittableList::new();
    world.add(Sphere::new(
        Vec3 { x: 0, y: -1000 * SCALE, z: 0 },
        1000 * SCALE,
        Material::Lambertian(Lambertian { albedo: gray(4 * SCALE / 5) }),
    ));
    world.add(Sphere::new(
        Vec3 { x: 0, y: SCALE, z: 0 },
        SCALE,
        Material::DiffuseLight(DiffuseLight { emit: gray(2 * SCALE) }),
    ));
    let origin = Vec3 { x: 0, y: SCALE, z: 4 * SCALE };
    for dir_y in [-2 * SCALE, -SCALE, 0, SCALE] {
        let ray = Ray::new(origin, Vec3 { x: 0, y: dir_y, z: -4 * SCALE });
        for depth in [0u32, 1, 3, 8] {
            let c = ray_color(&ray, &world, depth);
            assert!(c.x >= 0 && c.y >= 0 && c.z >= 0);
        }
    }
}

#[test]
fn quantize_clamps_and_scales() {
    assert_eq!(quantize(-5), 0);
    assert_eq!(quantize(0), 0);
    assert_eq!(quantize(SCALE / 2), 128);
    assert_eq!(quantize(SCALE), 255);
    assert_eq!(quantize(10 * SCALE), 255);
}

fn test_camera(aperture: i64) -> Camera {
    Camera::new(
        Vec3 { x: 0, y: 0, z: 0 },
        Vec3 { x: 0, y: 0, z: -SCALE },
        Vec3 { x: 0, y: SCALE, z: 0 },
        SCALE,  // tan of half the vertical fov: 90 degrees
        SCALE,  // square aspect
        aperture,
        SCALE,  // focus one unit ahead
    )
}

#[test]
fn zero_aperture_rays_are_deterministic() {
    let cam = test_camera(0);
    let first = cam.get_ray(SCALE / 2, SCALE / 2);
    for _ in 0..16 {
        let r = cam.get_ray(SCALE / 2, SCALE / 2);
        assert_eq!(r, first);
    }
    // the center ray looks straight down the view axis
    assert_eq!(first.origin, Vec3 { x: 0, y: 0, z: 0 });
    assert_eq!(first.direction, Vec3 { x: 0, y: 0, z: -SCALE });
}

#[test]
fn open_aperture_offsets_stay_on_the_lens() {
    let aperture = SCALE / 5;
    let cam = test_camera(aperture);
    let lens_radius = aperture / 2;
    let mut origins = Vec::new();
    for _ in 0..24 {
        let r = cam.get_ray(SCALE / 2, SCALE / 2);
        // the lens plane here is spanned by the x and y axes
        assert!(r.origin.x.abs() <= lens_radius);
        assert!(r.origin.y.abs() <= lens_radius);
        assert_eq!(r.origin.z, 0);
        origins.push(r.origin);
    }
    // the origins vary: the lens is actually sampled
    assert!(origins.iter().any(|o| *o != origins[0]));
}

#[test]
fn random_draws_stay_in_range() {
    for _ in 0..100 {
        let v = random_in_range(-7, 9);
        assert!(-7 <= v && v <= 9);
    }
    assert_eq!(random_in_range(5, 5), 5);
    // the generator is not a constant
    let mut seen = Vec::new();
    for _ in 0..50 {
        seen.push(random_in_range(0, 1000000));
    }
    assert!(seen.iter().any(|v| *v != seen[0]));
}

#[test]
fn unit_sphere_samples_are_inside() {
    for _ in 0..100 {
        let p = pathtracer::material::random_in_unit_sphere();
        assert!(p.length_squared() < SCALE);
    }
}

#[test]
fn depth_zero_pixel_is_black() {
    let mut world = HittableList::new();
    world.add(test_sphere());
    let cam = test_camera(0);
    let rgb = render_pixel(&world, &cam, 3, 2, 8, 8, 4, 0);
    assert_eq!(rgb, (0, 0, 0));
}

#[test]
fn empty_scene_pixel_is_black() {
    let world = HittableList::new();
    let cam = test_camera(0);
    let rgb = render_pixel(&world, &cam, 0, 0, 8, 8, 4, 7);
    assert_eq!(rgb, (0, 0, 0));
}

#[test]
fn render_buffer_has_row_major_rgb_size() {
    let world = HittableList::new();
    let cam = test_camera(0);
    let buf = render(&world, &cam, 6, 4, 1, 0);
    assert_eq!(buf.len(), 6 * 4 * 3);
    assert!(buf.iter().all(|b| *b == 0));
}

#[test]
fn emissive_scene_renders_light_brighter_than_ground() {
    // a huge diffuse ground sphere and a small emissive sphere straight ahead
    let mut world = HittableList::new();
    world.add(Sphere::new(
        Vec3 { x: 0, y: -1000 * SCALE, z: 0 },
        1000 * SCALE,
        Material::Lambertian(Lambertian { albedo: gray(4 * SCALE / 5) }),
    ));
    world.add(Sphere::new(
        Vec3 { x: 0, y: SCALE, z: 0 },
        SCALE,
        Material::DiffuseLight(DiffuseLight { emit: gray(SCALE / 2) }),
    ));
    let cam = Camera::new(
        Vec3 { x: 0, y: SCALE, z: 4 * SCALE },
        Vec3 { x: 0, y: SCALE, z: 0 },
        Vec3 { x: 0, y: SCALE, z: 0 },
        SCALE / 2,
        SCALE,
        0,
        4 * SCALE,
    );
    let (width, height) = (16u32, 16u32);
    let buf = render(&world, &cam, width, height, 4, 5);
    assert_eq!(buf.len(), (width * height * 3) as usize);
    // the pixel straight at the light sees exactly the emission every sample:
    // sqrt(0.5) scaled to bytes
    let light_idx = 3 * (8 * width + 8) as usize;
    assert_eq!(buf[light_idx], 181);
    // the bottom-center pixel sees only the ground; every sample is bounded by
    // albedo * emission, so it is strictly darker than the light
    let ground_idx = 3 * (15 * width + 8) as usize;
    assert!(buf[ground_idx] < buf[light_idx]);
    // and the image is not black
    assert!(buf.iter().any(|b| *b != 0));
}
