//! Q16.16 fixed-point scalars.
//!
//! A scalar is an `i32` holding a real value times 65536. Every operation
//! saturates to the `i32` range, so no operation can overflow, and every
//! rounding step rounds toward negative infinity.
use vstd::prelude::*;
use vstd::arithmetic::div_mod::{lemma_fundamental_div_mod, lemma_fundamental_div_mod_converse};

verus! {

/// Raw value of the fixed-point number 1.0.
pub const FX_ONE: i32 = 65536;

/// `v` forced into the `i32` range.
pub open spec fn clamp_i32(v: int) -> int {
    if v < i32::MIN {
        i32::MIN as int
    } else if v > i32::MAX {
        i32::MAX as int
    } else {
        v
    }
}

/// `a / b` rounded toward negative infinity (for `b != 0`).
pub open spec fn floor_div(a: int, b: int) -> int {
    if b > 0 {
        a / b
    } else {
        (-a) / (-b)
    }
}

/// Fixed-point product.
pub open spec fn fx_mul_spec(a: int, b: int) -> int {
    clamp_i32(floor_div(a * b, 65536))
}

/// Fixed-point quotient.
pub open spec fn fx_div_spec(a: int, b: int) -> int {
    clamp_i32(floor_div(a * 65536, b))
}

/// Fixed-point value of a whole number.
pub open spec fn fx_int_spec(n: int) -> int {
    clamp_i32(n * 65536)
}

/// Saturates a wide integer to the `i32` range.
pub fn clamp_to_i32(v: i128) -> (r: i32)
    ensures
        r == clamp_i32(v as int),
{
    if v < i32::MIN as i128 {
        i32::MIN
    } else if v > i32::MAX as i128 {
        i32::MAX
    } else {
        v as i32
    }
}

/// Division rounded toward negative infinity.
pub fn floor_div_i128(a: i128, b: i128) -> (r: i128)
    requires
        b != 0,
        -0x1000_0000_0000_0000_0000_0000_0000_0000 < a < 0x1000_0000_0000_0000_0000_0000_0000_0000,
        -0x1000_0000_0000_0000_0000_0000_0000_0000 < b < 0x1000_0000_0000_0000_0000_0000_0000_0000,
    ensures
        r == floor_div(a as int, b as int),
{
    let (n, d): (i128, i128) = if b > 0 {
        (a, b)
    } else {
        (-a, -b)
    };
    assert(floor_div(a as int, b as int) == (n as int) / (d as int));
    if n >= 0 {
        n / d
    } else {
        let m: i128 = -n;
        let q: i128 = (m + d - 1) / d;
        proof {
            let mi = m as int;
            let di = d as int;
            let qi = q as int;
            let x = mi + di - 1;
            lemma_fundamental_div_mod(x, di);
            let s = x % di;
            assert(qi == x / di);
            let rem = qi * di - mi;
            assert(0 <= rem < di) by (nonlinear_arith)
                requires
                    x == di * qi + s,
                    0 <= s < di,
                    x == mi + di - 1,
                    rem == qi * di - mi,
            ;
            assert(n as int == (-qi) * di + rem) by (nonlinear_arith)
                requires
                    rem == qi * di - mi,
                    mi == -(n as int),
            ;
            lemma_fundamental_div_mod_converse(n as int, di, -qi, rem);
        }
        -q
    }
}

/// The product of two `i32` values lies within 2^62 of zero.
pub proof fn lemma_i32_product_bound(a: int, b: int)
    requires
        i32::MIN <= a <= i32::MAX,
        i32::MIN <= b <= i32::MAX,
    ensures
        -0x4000_0000_0000_0000 <= a * b <= 0x4000_0000_0000_0000,
{
    assert(-0x4000_0000_0000_0000 <= a * b <= 0x4000_0000_0000_0000) by (nonlinear_arith)
        requires
            -0x8000_0000 <= a <= 0x7fff_ffff,
            -0x8000_0000 <= b <= 0x7fff_ffff,
    ;
}

/// A product is bounded by the product of its factors' bounds.
pub proof fn lemma_mul_bound(a: int, b: int, ba: int, bb: int)
    requires
        -ba <= a <= ba,
        -bb <= b <= bb,
    ensures
        -(ba * bb) <= a * b <= ba * bb,
{
    assert(-(ba * bb) <= a * b <= ba * bb) by (nonlinear_arith)
        requires
            -ba <= a <= ba,
            -bb <= b <= bb,
    ;
}

/// Fixed-point product, saturated.
pub fn fx_mul(a: i32, b: i32) -> (r: i32)
    ensures
        r == fx_mul_spec(a as int, b as int),
{
    proof {
        lemma_i32_product_bound(a as int, b as int);
    }
    let p: i128 = (a as i128) * (b as i128);
    clamp_to_i32(floor_div_i128(p, 65536))
}

/// Fixed-point quotient, saturated.
pub fn fx_div(a: i32, b: i32) -> (r: i32)
    requires
        b != 0,
    ensures
        r == fx_div_spec(a as int, b as int),
{
    let p: i128 = (a as i128) * 65536;
    clamp_to_i32(floor_div_i128(p, b as i128))
}

/// Fixed-point value of a whole number, saturated.
pub fn fx_int(n: i32) -> (r: i32)
    ensures
        r == fx_int_spec(n as int),
{
    clamp_to_i32((n as i128) * 65536)
}

/// `r` is the square root of `n` rounded down.
pub open spec fn is_isqrt(r: int, n: int) -> bool {
    0 <= r && r * r <= n && n < (r + 1) * (r + 1)
}

/// Square root of `n` rounded down (for `n >= 0`).
pub open spec fn isqrt_spec(n: int) -> int {
    choose|r: int| is_isqrt(r, n)
}

/// The rounded-down square root is unique.
pub proof fn lemma_isqrt_unique(r: int, n: int)
    requires
        is_isqrt(r, n),
    ensures
        isqrt_spec(n) == r,
{
    let s = isqrt_spec(n);
    assert(is_isqrt(s, n));
    if s < r {
        assert((s + 1) * (s + 1) <= r * r) by (nonlinear_arith)
            requires
                0 <= s < r,
        ;
    } else if r < s {
        assert((r + 1) * (r + 1) <= s * s) by (nonlinear_arith)
            requires
                0 <= r < s,
        ;
    }
}

/// Largest `r` with `r * r <= n`.
pub fn isqrt(n: u128) -> (r: u128)
    ensures
        is_isqrt(r as int, n as int),
        r == isqrt_spec(n as int),
{
    let mut lo: u128 = 0;
    let mut hi: u128 = 0x1_0000_0000_0000_0000;
    assert(n < hi * hi) by (nonlinear_arith)
        requires
            hi == 0x1_0000_0000_0000_0000u128,
            n <= u128::MAX,
    ;
    while hi - lo > 1
        invariant
            lo < hi <= 0x1_0000_0000_0000_0000,
            lo * lo <= n,
            n < hi * hi,
        decreases hi - lo,
    {
        let mid: u128 = lo + (hi - lo) / 2;
        assert(lo < mid < hi);
        assert(mid * mid < 0x1_0000_0000_0000_0000_0000_0000_0000_0000) by (nonlinear_arith)
            requires
                mid < 0x1_0000_0000_0000_0000u128,
        ;
        if mid * mid <= n {
            lo = mid;
        } else {
            hi = mid;
        }
    }
    assert(hi == lo + 1);
    proof {
        lemma_isqrt_unique(lo as int, n as int);
    }
    lo
}

} // verus!
