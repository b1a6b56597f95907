//! Integer arithmetic shared by the runtime: thousandths, truncating
//! division, squared distances and integer square roots.

use vstd::prelude::*;

verus! {

/// Division that rounds toward zero, for a positive divisor.
pub open spec fn trunc_div(a: int, b: int) -> int
    recommends
        b > 0,
{
    if a >= 0 {
        a / b
    } else {
        -((-a) / b)
    }
}

/// A counter after one more count; it stops at the top of its range.
pub open spec fn bump(count: u32) -> u32 {
    if count < u32::MAX {
        (count + 1) as u32
    } else {
        count
    }
}

/// `value` clamped into `lo ..= hi`.
pub open spec fn clamp_int(value: int, lo: int, hi: int) -> int {
    if value < lo {
        lo
    } else if value > hi {
        hi
    } else {
        value
    }
}

/// `value * factor / 1000`, rounded toward zero.
pub open spec fn scale_by_milli(value: int, factor: int) -> int {
    trunc_div(value * factor, 1000)
}

/// `r` is the largest integer whose square does not exceed `n`.
pub open spec fn is_floor_sqrt(n: int, r: int) -> bool {
    0 <= r && r * r <= n && n < (r + 1) * (r + 1)
}

/// The squared length of the vector `(dx, dy)`.
pub open spec fn norm_sq(dx: int, dy: int) -> int {
    dx * dx + dy * dy
}

/// Squares grow with their non-negative argument.
pub proof fn lemma_square_monotone(a: int, b: int)
    requires
        0 <= a <= b,
    ensures
        a * a <= b * b,
{
    assert(a * a <= b * b) by (nonlinear_arith)
        requires
            0 <= a <= b,
    ;
}

/// A number has at most one floor square root.
pub proof fn lemma_floor_sqrt_unique(n: int, r1: int, r2: int)
    requires
        is_floor_sqrt(n, r1),
        is_floor_sqrt(n, r2),
    ensures
        r1 == r2,
{
    if r1 < r2 {
        lemma_square_monotone(r1 + 1, r2);
    } else if r2 < r1 {
        lemma_square_monotone(r2 + 1, r1);
    }
}

/// The floor square root grows with its argument.
pub proof fn lemma_floor_sqrt_monotone(n1: int, r1: int, n2: int, r2: int)
    requires
        is_floor_sqrt(n1, r1),
        is_floor_sqrt(n2, r2),
        n1 <= n2,
    ensures
        r1 <= r2,
{
    if r2 < r1 {
        lemma_square_monotone(r2 + 1, r1);
    }
}

/// The squared length of a vector whose components fit in 33 bits fits in
/// 67 bits.
pub proof fn lemma_norm_sq_bound(dx: int, dy: int)
    requires
        -0x1_0000_0000 <= dx <= 0x1_0000_0000,
        -0x1_0000_0000 <= dy <= 0x1_0000_0000,
    ensures
        0 <= dx * dx <= 0x1_0000_0000_0000_0000,
        0 <= dy * dy <= 0x1_0000_0000_0000_0000,
        0 <= norm_sq(dx, dy) <= 0x2_0000_0000_0000_0000,
{
    assert(0 <= dx * dx <= 0x1_0000_0000_0000_0000) by (nonlinear_arith)
        requires
            -0x1_0000_0000 <= dx <= 0x1_0000_0000,
    ;
    assert(0 <= dy * dy <= 0x1_0000_0000_0000_0000) by (nonlinear_arith)
        requires
            -0x1_0000_0000 <= dy <= 0x1_0000_0000,
    ;
}

/// Computes the squared length of `(dx, dy)` without overflow.
pub fn vector_norm_sq(dx: i64, dy: i64) -> (r: u128)
    ensures
        r == norm_sq(dx as int, dy as int),
        -0x1_0000_0000 <= dx <= 0x1_0000_0000 && -0x1_0000_0000 <= dy <= 0x1_0000_0000 ==> r
            <= 0x2_0000_0000_0000_0000,
{
    proof {
        if -0x1_0000_0000 <= dx <= 0x1_0000_0000 && -0x1_0000_0000 <= dy <= 0x1_0000_0000 {
            lemma_norm_sq_bound(dx as int, dy as int);
        }
        assert(0 <= (dx as int) * (dx as int) <= 0x4000_0000_0000_0000_0000_0000_0000_0000)
            by (nonlinear_arith)
            requires
                -0x8000_0000_0000_0000 <= dx as int <= 0x8000_0000_0000_0000,
        ;
        assert(0 <= (dy as int) * (dy as int) <= 0x4000_0000_0000_0000_0000_0000_0000_0000)
            by (nonlinear_arith)
            requires
                -0x8000_0000_0000_0000 <= dy as int <= 0x8000_0000_0000_0000,
        ;
    }
    let x: u128 = (dx as i128 * dx as i128) as u128;
    let y: u128 = (dy as i128 * dy as i128) as u128;
    x + y
}

/// The square root of `n`, rounded down.
pub open spec fn floor_sqrt(n: int) -> int {
    choose|r: int| is_floor_sqrt(n, r)
}

/// Whatever is a floor square root of `n` is `floor_sqrt(n)`.
pub proof fn lemma_floor_sqrt_is(n: int, r: int)
    requires
        is_floor_sqrt(n, r),
    ensures
        floor_sqrt(n) == r,
{
    lemma_floor_sqrt_unique(n, r, floor_sqrt(n));
}

/// The floor square root of a number under `bound * bound` is under `bound`.
pub proof fn lemma_floor_sqrt_under(n: int, r: int, bound: int)
    requires
        is_floor_sqrt(n, r),
        0 <= bound,
        n < bound * bound,
    ensures
        r < bound,
{
    if r >= bound {
        lemma_square_monotone(bound, r);
    }
}

/// Integer square root: the largest `r` with `r * r <= n`.
pub fn isqrt(n: u128) -> (r: u64)
    ensures
        is_floor_sqrt(n as int, r as int),
        r == floor_sqrt(n as int),
{
    let mut lo: u128 = 0;
    let mut hi: u128 = 0x1_0000_0000_0000_0000;
    proof {
        assert(0x1_0000_0000_0000_0000int * 0x1_0000_0000_0000_0000int
            == 0x1_0000_0000_0000_0000_0000_0000_0000_0000int) by (nonlinear_arith);
    }
    while hi - lo > 1
        invariant
            lo < hi <= 0x1_0000_0000_0000_0000,
            lo * lo <= n,
            n < hi * hi,
        decreases hi - lo,
    {
        let mid: u128 = lo + (hi - lo) / 2;
        proof {
            lemma_square_monotone(mid as int, 0xffff_ffff_ffff_ffffint);
            assert(0xffff_ffff_ffff_ffffint * 0xffff_ffff_ffff_ffffint
                < 0x1_0000_0000_0000_0000_0000_0000_0000_0000int) by (nonlinear_arith);
        }
        if mid * mid <= n {
            lo = mid;
        } else {
            hi = mid;
        }
    }
    proof {
        lemma_floor_sqrt_is(n as int, lo as int);
    }
    lo as u64
}

/// Divides rounding toward zero.
pub fn div_trunc(a: i128, b: i128) -> (r: i128)
    requires
        b > 0,
    ensures
        r == trunc_div(a as int, b as int),
{
    if a >= 0 {
        a / b
    } else if a == i128::MIN {
        // `-a` does not fit; split off one divisor's worth first.
        let rest: i128 = a + b;
        proof {
            lemma_trunc_div_shift(-(a as int), b as int);
        }
        -1 - (-rest) / b
    } else {
        -((-a) / b)
    }
}

/// Taking one divisor away from a dividend of at least that size lowers the
/// quotient by one.
pub proof fn lemma_trunc_div_shift(a: int, b: int)
    requires
        0 < b <= a,
    ensures
        a / b == 1 + (a - b) / b,
{
    vstd::arithmetic::div_mod::lemma_div_plus_one(a - b, b);
}

/// A truncated quotient is no larger in size than its dividend.
pub proof fn lemma_trunc_div_bounded(a: int, d: int)
    requires
        d > 0,
    ensures
        a >= 0 ==> 0 <= trunc_div(a, d) <= a,
        a < 0 ==> a <= trunc_div(a, d) <= 0,
{
    if a >= 0 {
        vstd::arithmetic::div_mod::lemma_div_pos_is_pos(a, d);
        vstd::arithmetic::div_mod::lemma_div_is_ordered_by_denominator(a, 1, d);
        assert(a / 1 == a);
    } else {
        vstd::arithmetic::div_mod::lemma_div_pos_is_pos(-a, d);
        vstd::arithmetic::div_mod::lemma_div_is_ordered_by_denominator(-a, 1, d);
        assert((-a) / 1 == -a);
    }
}

/// Multiplies `value` by `factor` thousandths, rounding toward zero.
pub fn scale_value(value: i64, factor: u32) -> (r: i128)
    ensures
        r == scale_by_milli(value as int, factor as int),
        -0x8000_0000_0000_0000 * 0x1_0000_0000 <= r <= 0x8000_0000_0000_0000 * 0x1_0000_0000,
{
    proof {
        lemma_trunc_div_bounded((value as int) * (factor as int), 1000);
    }
    proof {
        assert(-0x8000_0000_0000_0000 * 0x1_0000_0000 <= (value as int) * (factor as int)
            <= 0x8000_0000_0000_0000 * 0x1_0000_0000) by (nonlinear_arith)
            requires
                -0x8000_0000_0000_0000 <= value as int <= 0x8000_0000_0000_0000,
                0 <= factor as int <= 0x1_0000_0000,
        ;
    }
    let product: i128 = (value as i128) * (factor as i128);
    div_trunc(product, 1000)
}

/// Narrows a wide value to `i64`, saturating at the ends of the range.
pub fn saturate_i64(value: i128) -> (r: i64)
    ensures
        r == clamp_int(value as int, i64::MIN as int, i64::MAX as int),
{
    if value < i64::MIN as i128 {
        i64::MIN
    } else if value > i64::MAX as i128 {
        i64::MAX
    } else {
        value as i64
    }
}

/// Narrows a wide value to `i32`, saturating at the ends of the range.
pub fn saturate_i32(value: i128) -> (r: i32)
    ensures
        r == clamp_int(value as int, i32::MIN as int, i32::MAX as int),
{
    if value < i32::MIN as i128 {
        i32::MIN
    } else if value > i32::MAX as i128 {
        i32::MAX
    } else {
        value as i32
    }
}

} // verus!
