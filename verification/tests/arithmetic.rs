use pathtracer::fx::{fx_add, fx_sub, fx_neg, fx_mul, fx_div, fx_sqrt, SCALE, FX_MAX};
use pathtracer::vec3::Vec3;

#[test]
fn add_and_sub_are_exact() {
    assert_eq!(fx_add(SCALE, SCALE), 2 * SCALE);
    assert_eq!(fx_sub(3 * SCALE, SCALE), 2 * SCALE);
    assert_eq!(fx_add(-SCALE, SCALE), 0);
}

#[test]
fn add_saturates_symmetrically() {
    assert_eq!(fx_add(FX_MAX, FX_MAX), FX_MAX);
    assert_eq!(fx_sub(-FX_MAX, FX_MAX), -FX_MAX);
    assert_eq!(fx_neg(i64::MIN), FX_MAX);
    assert_eq!(fx_neg(FX_MAX), -FX_MAX);
}

#[test]
fn mul_scales_back_down() {
    // 2.0 * 1.5 == 3.0
    assert_eq!(fx_mul(2 * SCALE, 3 * SCALE / 2), 3 * SCALE);
    // truncation toward zero is symmetric
    assert_eq!(fx_mul(-2 * SCALE, 3 * SCALE / 2), -3 * SCALE);
    // products below one raw unit truncate to zero
    assert_eq!(fx_mul(1, 1), 0);
    assert_eq!(fx_mul(-1, 1), 0);
}

#[test]
fn div_is_truncating_and_total() {
    // 3.0 / 2.0 == 1.5
    assert_eq!(fx_div(3 * SCALE, 2 * SCALE), 3 * SCALE / 2);
    assert_eq!(fx_div(-3 * SCALE, 2 * SCALE), -(3 * SCALE / 2));
    assert_eq!(fx_div(SCALE, 0), 0);
}

#[test]
fn sqrt_exact_and_rounded() {
    // sqrt(4.0) == 2.0 exactly
    assert_eq!(fx_sqrt(4 * SCALE), 2 * SCALE);
    // sqrt(2.0) == floor(sqrt(2) * SCALE)
    assert_eq!(fx_sqrt(2 * SCALE), 92681);
    assert_eq!(fx_sqrt(0), 0);
    assert_eq!(fx_sqrt(-5 * SCALE), 0);
}

#[test]
fn dot_product_matches_reals() {
    let a = Vec3 { x: SCALE, y: 2 * SCALE, z: 3 * SCALE };
    let b = Vec3 { x: 4 * SCALE, y: 5 * SCALE, z: 6 * SCALE };
    // 1*4 + 2*5 + 3*6 == 32
    assert_eq!(a.dot(b), 32 * SCALE);
}

#[test]
fn cross_product_of_basis_vectors() {
    let ex = Vec3 { x: SCALE, y: 0, z: 0 };
    let ey = Vec3 { x: 0, y: SCALE, z: 0 };
    assert_eq!(ex.cross(ey), Vec3 { x: 0, y: 0, z: SCALE });
    assert_eq!(ey.cross(ex), Vec3 { x: 0, y: 0, z: -SCALE });
}

#[test]
fn unit_rescales_to_length_one() {
    let v = Vec3 { x: 0, y: 0, z: 2 * SCALE };
    assert_eq!(v.unit(), Vec3 { x: 0, y: 0, z: SCALE });
    let w = Vec3 { x: 3 * SCALE, y: 4 * SCALE, z: 0 };
    assert_eq!(w.length(), 5 * SCALE);
    let u = w.unit();
    // 0.6 and 0.8 exactly
    assert_eq!(u.x, 3 * SCALE / 5);
    assert_eq!(u.y, 4 * SCALE / 5);
}

#[test]
fn componentwise_color_product() {
    let half = Vec3 { x: SCALE / 2, y: SCALE / 2, z: SCALE / 2 };
    let c = Vec3 { x: SCALE, y: 2 * SCALE, z: 4 * SCALE };
    assert_eq!(c.cmul(half), Vec3 { x: SCALE / 2, y: SCALE, z: 2 * SCALE });
}
