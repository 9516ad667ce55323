//! Fixed-point scalar arithmetic.
//!
//! A scalar is a Q47.16 fixed-point number: an `i64` raw value `a` denotes the
//! real number `a / SCALE`. Every operation saturates into the symmetric range
//! `[-FX_MAX, FX_MAX]` (so negation is always exact) and truncates toward zero
//! where it rounds, and each executable operation is specified exactly by a
//! spec-level mirror over `int`.

use vstd::prelude::*;

verus! {

/// Raw units per 1.0: the denominator of the fixed-point format.
pub const SCALE: i64 = 65536;

/// Largest representable raw value; the range is symmetric, `i64::MIN` is never produced.
pub const FX_MAX: i64 = 9223372036854775807;

/// Largest `i128` magnitude the division helpers accept (`i128::MIN` is excluded
/// so that magnitudes always fit).
pub const MAX_128: i128 = 170141183460469231731687303715884105727;

/// Magnitude of an integer.
pub open spec fn abs_i(a: int) -> int {
    if a >= 0 {
        a
    } else {
        -a
    }
}

/// Saturation into the symmetric representable range.
pub open spec fn clip(a: int) -> int {
    if a > FX_MAX as int {
        FX_MAX as int
    } else if a < -(FX_MAX as int) {
        -(FX_MAX as int)
    } else {
        a
    }
}

/// Division truncating toward zero (the rounding the executable code uses),
/// defined for `b != 0`.
pub open spec fn tdiv(a: int, b: int) -> int {
    if (a >= 0) == (b >= 0) {
        abs_i(a) / abs_i(b)
    } else {
        -(abs_i(a) / abs_i(b))
    }
}

/// Saturating fixed-point addition.
pub open spec fn fadd(a: int, b: int) -> int {
    clip(a + b)
}

/// Saturating fixed-point subtraction.
pub open spec fn fsub(a: int, b: int) -> int {
    clip(a - b)
}

/// Saturating fixed-point negation.
pub open spec fn fneg(a: int) -> int {
    clip(-a)
}

/// Saturating fixed-point multiplication: the double-width product scaled back
/// down with truncation toward zero.
pub open spec fn fmul(a: int, b: int) -> int {
    clip(tdiv(a * b, SCALE as int))
}

/// Saturating fixed-point division; division by zero yields zero.
pub open spec fn fdivs(a: int, b: int) -> int {
    if b == 0 {
        0
    } else {
        clip(tdiv(a * (SCALE as int), b))
    }
}

/// Floor of the square root of a natural number.
pub open spec fn sqrt_floor(n: nat) -> nat
    decreases n,
{
    if n == 0 {
        0
    } else {
        let r = sqrt_floor((n - 1) as nat);
        if (r + 1) * (r + 1) <= n {
            r + 1
        } else {
            r
        }
    }
}

/// Fixed-point square root: zero on non-positive input, otherwise the floor
/// square root of the value widened by one scale factor.
pub open spec fn fsqrt(a: int) -> int {
    if a <= 0 {
        0
    } else {
        sqrt_floor((a * (SCALE as int)) as nat) as int
    }
}

/// The floor square root is characterized by the usual two-sided bound.
pub proof fn lemma_sqrt_floor_bounds(n: nat)
    ensures
        sqrt_floor(n) * sqrt_floor(n) <= n,
        n < (sqrt_floor(n) + 1) * (sqrt_floor(n) + 1),
    decreases n,
{
    if n == 0 {
        assert(sqrt_floor(0) == 0);
        assert(sqrt_floor(n) * sqrt_floor(n) <= n);
        assert(n < (sqrt_floor(n) + 1) * (sqrt_floor(n) + 1)) by (nonlinear_arith)
            requires
                n == 0,
                sqrt_floor(n) == 0,
        ;
    } else {
        lemma_sqrt_floor_bounds((n - 1) as nat);
        let r = sqrt_floor((n - 1) as nat);
        assert(r * r <= n - 1);
        assert(n - 1 < (r + 1) * (r + 1));
        if (r + 1) * (r + 1) <= n {
            assert(sqrt_floor(n) == r + 1);
            assert(n < ((r + 1) + 1) * ((r + 1) + 1)) by (nonlinear_arith)
                requires
                    n <= (r + 1) * (r + 1),
            ;
        } else {
            assert(sqrt_floor(n) == r);
            assert(r * r <= n - 1 <= n);
        }
    }
}

/// Any value meeting the two-sided bound is the floor square root.
pub proof fn lemma_sqrt_floor_unique(n: nat, r: nat)
    requires
        r * r <= n,
        n < (r + 1) * (r + 1),
    ensures
        r == sqrt_floor(n),
{
    lemma_sqrt_floor_bounds(n);
    let s = sqrt_floor(n);
    if r < s {
        assert((r + 1) * (r + 1) <= s * s) by (nonlinear_arith)
            requires
                r + 1 <= s,
        ;
    }
    if s < r {
        assert((s + 1) * (s + 1) <= r * r) by (nonlinear_arith)
            requires
                s + 1 <= r,
        ;
    }
}

/// Saturation is odd: the representable range is symmetric.
pub proof fn lemma_clip_odd(a: int)
    ensures
        clip(-a) == -clip(a),
{
}

/// Truncation toward zero is odd in the dividend (for a positive divisor).
pub proof fn lemma_tdiv_neg(a: int, b: int)
    requires
        b > 0,
    ensures
        tdiv(-a, b) == -tdiv(a, b),
{
}

/// Multiplication is odd in its second argument.
pub proof fn lemma_fmul_neg_right(a: int, b: int)
    ensures
        fmul(a, -b) == -fmul(a, b),
{
    assert(a * (-b) == -(a * b)) by (nonlinear_arith);
    lemma_tdiv_neg(a * b, SCALE as int);
    lemma_clip_odd(tdiv(a * b, SCALE as int));
}

/// A quotient of magnitudes at least half the divisor: the saturating
/// division of `d` by a positive `r` with `2|d| >= r` has magnitude at least
/// half of one.
pub proof fn lemma_fdivs_lower(d: int, r: int)
    requires
        r > 0,
        2 * abs_i(d) >= r,
    ensures
        abs_i(fdivs(d, r)) >= 32768,
{
    assert(abs_i(d * (SCALE as int)) == abs_i(d) * (SCALE as int)) by (nonlinear_arith)
        requires
            SCALE as int == 65536,
    ;
    assert(abs_i(d) * (SCALE as int) >= r * 32768) by (nonlinear_arith)
        requires
            2 * abs_i(d) >= r,
            SCALE as int == 65536,
    ;
    vstd::arithmetic::div_mod::lemma_div_multiples_vanish(32768, r);
    vstd::arithmetic::div_mod::lemma_div_is_ordered(r * 32768, abs_i(d) * (SCALE as int), r);
}

/// A quotient of magnitudes at most the divisor: the saturating division of
/// `d` by a positive `r` with `|d| <= r` has magnitude at most one.
pub proof fn lemma_fdivs_upper(d: int, r: int)
    requires
        r > 0,
        abs_i(d) <= r,
    ensures
        abs_i(fdivs(d, r)) <= SCALE as int,
{
    assert(abs_i(d * (SCALE as int)) == abs_i(d) * (SCALE as int)) by (nonlinear_arith)
        requires
            SCALE as int == 65536,
    ;
    assert(abs_i(d) * (SCALE as int) <= r * (SCALE as int)) by (nonlinear_arith)
        requires
            abs_i(d) <= r,
            SCALE as int == 65536,
    ;
    vstd::arithmetic::div_mod::lemma_div_multiples_vanish(SCALE as int, r);
    vstd::arithmetic::div_mod::lemma_div_is_ordered(
        abs_i(d) * (SCALE as int),
        r * (SCALE as int),
        r,
    );
}

/// A product of nonnegative scalars is nonnegative.
pub proof fn lemma_fmul_nonneg(a: int, b: int)
    requires
        a >= 0,
        b >= 0,
    ensures
        fmul(a, b) >= 0,
{
    assert(a * b >= 0) by (nonlinear_arith)
        requires
            a >= 0,
            b >= 0,
    ;
    vstd::arithmetic::div_mod::lemma_div_of0(SCALE as int);
    vstd::arithmetic::div_mod::lemma_div_is_ordered(0, a * b, SCALE as int);
}

/// Multiplying by zero yields exactly zero.
pub proof fn lemma_fmul_zero(a: int)
    ensures
        fmul(a, 0) == 0,
{
    vstd::arithmetic::div_mod::lemma_div_of0(SCALE as int);
}

/// Dividing zero yields exactly zero.
pub proof fn lemma_fdivs_zero(b: int)
    ensures
        fdivs(0, b) == 0,
{
    if b != 0 {
        vstd::arithmetic::div_mod::lemma_div_of0(abs_i(b));
    }
}

/// Saturates a double-width intermediate into the scalar range.
fn clamp128(a: i128) -> (r: i64)
    ensures
        r as int == clip(a as int),
{
    if a > FX_MAX as i128 {
        FX_MAX
    } else if a < -(FX_MAX as i128) {
        -FX_MAX
    } else {
        a as i64
    }
}

/// Double-width division truncating toward zero, computed on magnitudes so the
/// rounding direction is explicit.
fn div_trunc(a: i128, b: i128) -> (q: i128)
    requires
        b != 0,
        -MAX_128 <= a,
        -MAX_128 <= b,
    ensures
        q as int == tdiv(a as int, b as int),
{
    let ma: u128 = if a >= 0 {
        a as u128
    } else {
        (-a) as u128
    };
    let mb: u128 = if b >= 0 {
        b as u128
    } else {
        (-b) as u128
    };
    let d: u128 = ma / mb;
    assert(d <= ma) by (nonlinear_arith)
        requires
            mb >= 1,
            d == ma / mb,
    ;
    if (a >= 0) == (b >= 0) {
        d as i128
    } else {
        -(d as i128)
    }
}

/// Saturating addition of two scalars.
pub fn fx_add(a: i64, b: i64) -> (r: i64)
    ensures
        r as int == fadd(a as int, b as int),
{
    clamp128(a as i128 + b as i128)
}

/// Saturating subtraction of two scalars.
pub fn fx_sub(a: i64, b: i64) -> (r: i64)
    ensures
        r as int == fsub(a as int, b as int),
{
    clamp128(a as i128 - b as i128)
}

/// Saturating negation of a scalar.
pub fn fx_neg(a: i64) -> (r: i64)
    ensures
        r as int == fneg(a as int),
{
    if a == -FX_MAX - 1 {
        FX_MAX
    } else {
        -a
    }
}

/// Saturating multiplication of two scalars.
pub fn fx_mul(a: i64, b: i64) -> (r: i64)
    ensures
        r as int == fmul(a as int, b as int),
{
    assert(-MAX_128 <= (a as int) * (b as int) <= MAX_128) by (nonlinear_arith)
        requires
            -9223372036854775808 <= a as int <= 9223372036854775807,
            -9223372036854775808 <= b as int <= 9223372036854775807,
    ;
    let p: i128 = (a as i128) * (b as i128);
    clamp128(div_trunc(p, SCALE as i128))
}

/// Saturating division of two scalars; division by zero yields zero.
pub fn fx_div(a: i64, b: i64) -> (r: i64)
    ensures
        r as int == fdivs(a as int, b as int),
{
    if b == 0 {
        0
    } else {
        assert(-MAX_128 <= (a as int) * (SCALE as int) <= MAX_128) by (nonlinear_arith)
            requires
                -9223372036854775808 <= a as int <= 9223372036854775807,
                SCALE as int == 65536,
        ;
        let num: i128 = (a as i128) * (SCALE as i128);
        clamp128(div_trunc(num, b as i128))
    }
}

/// Floor square root of a natural number below `2^80`.
fn isqrt(n: u128) -> (r: u128)
    requires
        n < 1208925819614629174706176,
    ensures
        r as nat == sqrt_floor(n as nat),
        r * r <= n,
        n < (r + 1) * (r + 1),
        r < 1099511627776,
{
    let mut lo: u128 = 0;
    let mut hi: u128 = 1099511627776;
    assert((1099511627776 as int) * (1099511627776 as int) == 1208925819614629174706176) by (nonlinear_arith);
    while lo + 1 < hi
        invariant
            (lo as int) * (lo as int) <= n as int,
            (n as int) < (hi as int) * (hi as int),
            lo < hi,
            hi <= 1099511627776,
        decreases hi - lo,
    {
        let mid: u128 = lo + (hi - lo) / 2;
        assert(lo < mid && mid < hi);
        assert((mid as int) * (mid as int) < 1208925819614629174706176) by (nonlinear_arith)
            requires
                0 <= mid as int,
                (mid as int) < 1099511627776,
        ;
        let sq: u128 = mid * mid;
        if sq <= n {
            lo = mid;
        } else {
            hi = mid;
        }
    }
    proof {
        lemma_sqrt_floor_unique(n as nat, lo as nat);
    }
    lo
}

/// Fixed-point square root of a scalar (zero on non-positive input).
pub fn fx_sqrt(a: i64) -> (r: i64)
    ensures
        r as int == fsqrt(a as int),
{
    if a <= 0 {
        return 0;
    }
    assert((a as int) * (SCALE as int) < 1208925819614629174706176) by (nonlinear_arith)
        requires
            0 < a as int <= 9223372036854775807,
            SCALE as int == 65536,
    ;
    let n: u128 = (a as u128) * (SCALE as u128);
    let r: u128 = isqrt(n);
    r as i64
}

} // verus!
