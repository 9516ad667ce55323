//! Three-component vectors over fixed-point scalars.
//!
//! `Vec3` serves both as a point/direction in space and as a color
//! (`Color` is an alias); every executable operation is pinned to a spec-level
//! mirror over the fixed-point model in [`crate::fx`].

use vstd::prelude::*;
use crate::fx::{
    fadd, fsub, fneg, fmul, fdivs, fsqrt, clip, FX_MAX,
    fx_add, fx_sub, fx_neg, fx_mul, fx_div, fx_sqrt,
    lemma_clip_odd, lemma_fmul_neg_right,
};

verus! {

/// A vector of three fixed-point scalars.
#[derive(Clone, Copy, PartialEq, Eq, Structural, Debug)]
pub struct Vec3 {
    pub x: i64,
    pub y: i64,
    pub z: i64,
}

/// A color: red, green and blue channels as fixed-point scalars.
pub type Color = Vec3;

/// Componentwise sum.
pub open spec fn v_add(a: Vec3, b: Vec3) -> Vec3 {
    Vec3 {
        x: fadd(a.x as int, b.x as int) as i64,
        y: fadd(a.y as int, b.y as int) as i64,
        z: fadd(a.z as int, b.z as int) as i64,
    }
}

/// Componentwise difference.
pub open spec fn v_sub(a: Vec3, b: Vec3) -> Vec3 {
    Vec3 {
        x: fsub(a.x as int, b.x as int) as i64,
        y: fsub(a.y as int, b.y as int) as i64,
        z: fsub(a.z as int, b.z as int) as i64,
    }
}

/// Componentwise negation.
pub open spec fn v_neg(a: Vec3) -> Vec3 {
    Vec3 { x: fneg(a.x as int) as i64, y: fneg(a.y as int) as i64, z: fneg(a.z as int) as i64 }
}

/// Vector scaled by a scalar.
pub open spec fn v_scale(a: Vec3, s: int) -> Vec3 {
    Vec3 {
        x: fmul(a.x as int, s) as i64,
        y: fmul(a.y as int, s) as i64,
        z: fmul(a.z as int, s) as i64,
    }
}

/// Componentwise (Hadamard) product, used for color attenuation.
pub open spec fn v_cmul(a: Vec3, b: Vec3) -> Vec3 {
    Vec3 {
        x: fmul(a.x as int, b.x as int) as i64,
        y: fmul(a.y as int, b.y as int) as i64,
        z: fmul(a.z as int, b.z as int) as i64,
    }
}

/// Dot product.
pub open spec fn v_dot(a: Vec3, b: Vec3) -> int {
    fadd(
        fadd(fmul(a.x as int, b.x as int), fmul(a.y as int, b.y as int)),
        fmul(a.z as int, b.z as int),
    )
}

/// Squared length.
pub open spec fn v_len2(a: Vec3) -> int {
    v_dot(a, a)
}

/// Length: the fixed-point square root of the squared length.
pub open spec fn v_len(a: Vec3) -> int {
    fsqrt(v_len2(a))
}

/// Direction rescaled to unit length (zero-length input maps to zero).
pub open spec fn v_unit(a: Vec3) -> Vec3 {
    Vec3 {
        x: fdivs(a.x as int, v_len(a)) as i64,
        y: fdivs(a.y as int, v_len(a)) as i64,
        z: fdivs(a.z as int, v_len(a)) as i64,
    }
}

/// The zero vector; as a color, black.
pub open spec fn v_zero() -> Vec3 {
    Vec3 { x: 0i64, y: 0i64, z: 0i64 }
}

/// Vector divided componentwise by a scalar (division by zero yields zero).
pub open spec fn v_divs(a: Vec3, s: int) -> Vec3 {
    Vec3 {
        x: fdivs(a.x as int, s) as i64,
        y: fdivs(a.y as int, s) as i64,
        z: fdivs(a.z as int, s) as i64,
    }
}

/// Cross product.
pub open spec fn v_cross(a: Vec3, b: Vec3) -> Vec3 {
    Vec3 {
        x: fsub(fmul(a.y as int, b.z as int), fmul(a.z as int, b.y as int)) as i64,
        y: fsub(fmul(a.z as int, b.x as int), fmul(a.x as int, b.z as int)) as i64,
        z: fsub(fmul(a.x as int, b.y as int), fmul(a.y as int, b.x as int)) as i64,
    }
}

/// The vector whose components all lie in the symmetric representable range
/// (no component is `i64::MIN`), so its negation is exact.
pub open spec fn v_sym(a: Vec3) -> bool {
    &&& -FX_MAX <= a.x
    &&& -FX_MAX <= a.y
    &&& -FX_MAX <= a.z
}

/// Negating the second operand negates the dot product, provided the operand
/// lies in the symmetric range.
pub proof fn lemma_v_dot_neg(a: Vec3, b: Vec3)
    requires
        v_sym(b),
    ensures
        v_dot(a, v_neg(b)) == -v_dot(a, b),
{
    let m1 = fmul(a.x as int, b.x as int);
    let m2 = fmul(a.y as int, b.y as int);
    let m3 = fmul(a.z as int, b.z as int);
    lemma_fmul_neg_right(a.x as int, b.x as int);
    lemma_fmul_neg_right(a.y as int, b.y as int);
    lemma_fmul_neg_right(a.z as int, b.z as int);
    lemma_clip_odd(m1 + m2);
    lemma_clip_odd(fadd(m1, m2) + m3);
}

impl Vec3 {
    /// Builds a vector from its raw fixed-point components.
    pub fn new(x: i64, y: i64, z: i64) -> (r: Vec3)
        ensures
            r == (Vec3 { x, y, z }),
    {
        Vec3 { x, y, z }
    }

    /// The zero vector (also black, as a color).
    pub fn zero() -> (r: Vec3)
        ensures
            r == (Vec3 { x: 0i64, y: 0i64, z: 0i64 }),
    {
        Vec3 { x: 0, y: 0, z: 0 }
    }

    /// Componentwise sum.
    pub fn add_v(self, b: Vec3) -> (r: Vec3)
        ensures
            r == v_add(self, b),
    {
        Vec3 { x: fx_add(self.x, b.x), y: fx_add(self.y, b.y), z: fx_add(self.z, b.z) }
    }

    /// Componentwise difference.
    pub fn sub_v(self, b: Vec3) -> (r: Vec3)
        ensures
            r == v_sub(self, b),
    {
        Vec3 { x: fx_sub(self.x, b.x), y: fx_sub(self.y, b.y), z: fx_sub(self.z, b.z) }
    }

    /// Componentwise negation.
    pub fn neg_v(self) -> (r: Vec3)
        ensures
            r == v_neg(self),
    {
        Vec3 { x: fx_neg(self.x), y: fx_neg(self.y), z: fx_neg(self.z) }
    }

    /// This vector scaled by a scalar.
    pub fn scale(self, s: i64) -> (r: Vec3)
        ensures
            r == v_scale(self, s as int),
    {
        Vec3 { x: fx_mul(self.x, s), y: fx_mul(self.y, s), z: fx_mul(self.z, s) }
    }

    /// Componentwise product (color attenuation).
    pub fn cmul(self, b: Vec3) -> (r: Vec3)
        ensures
            r == v_cmul(self, b),
    {
        Vec3 { x: fx_mul(self.x, b.x), y: fx_mul(self.y, b.y), z: fx_mul(self.z, b.z) }
    }

    /// Dot product.
    pub fn dot(self, b: Vec3) -> (r: i64)
        ensures
            r as int == v_dot(self, b),
    {
        fx_add(fx_add(fx_mul(self.x, b.x), fx_mul(self.y, b.y)), fx_mul(self.z, b.z))
    }

    /// Squared length.
    pub fn length_squared(self) -> (r: i64)
        ensures
            r as int == v_len2(self),
    {
        self.dot(self)
    }

    /// Length.
    pub fn length(self) -> (r: i64)
        ensures
            r as int == v_len(self),
    {
        fx_sqrt(self.length_squared())
    }

    /// Direction rescaled to unit length (zero length yields the zero vector).
    pub fn unit(self) -> (r: Vec3)
        ensures
            r == v_unit(self),
    {
        let len: i64 = self.length();
        Vec3 { x: fx_div(self.x, len), y: fx_div(self.y, len), z: fx_div(self.z, len) }
    }

    /// This vector divided componentwise by a scalar.
    pub fn div_scalar(self, s: i64) -> (r: Vec3)
        ensures
            r == v_divs(self, s as int),
    {
        Vec3 { x: fx_div(self.x, s), y: fx_div(self.y, s), z: fx_div(self.z, s) }
    }

    /// Cross product.
    pub fn cross(self, b: Vec3) -> (r: Vec3)
        ensures
            r == v_cross(self, b),
    {
        Vec3 {
            x: fx_sub(fx_mul(self.y, b.z), fx_mul(self.z, b.y)),
            y: fx_sub(fx_mul(self.z, b.x), fx_mul(self.x, b.z)),
            z: fx_sub(fx_mul(self.x, b.y), fx_mul(self.y, b.x)),
        }
    }
}

} // verus!
