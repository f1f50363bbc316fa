//! Integer and fixed-point vectors.
//!
//! `Vector2i` holds whole pixel coordinates. `Vector2`, `Vector3` and
//! `Vector4` hold Q16.16 fixed-point components (see `fixed`). `Vector4` is a
//! homogeneous vector: its dot product, length and cross product read `x`,
//! `y` and `z` only.
use vstd::prelude::*;
use crate::fixed::{clamp_i32, floor_div, clamp_to_i32, floor_div_i128, isqrt, isqrt_spec, lemma_i32_product_bound};

verus! {

// ---------------------------------------------------------------------------
// Scalar building blocks shared by the vector types.
/// Saturated sum.
pub open spec fn sat_add(a: int, b: int) -> int {
    clamp_i32(a + b)
}

/// Saturated difference.
pub open spec fn sat_sub(a: int, b: int) -> int {
    clamp_i32(a - b)
}

/// Fixed-point dot product of two three-component vectors.
pub open spec fn dot3_spec(ax: int, ay: int, az: int, bx: int, by: int, bz: int) -> int {
    clamp_i32(floor_div(ax * bx + ay * by + az * bz, 65536))
}

/// Sum of squares of three raw components.
pub open spec fn sq3(x: int, y: int, z: int) -> int {
    x * x + y * y + z * z
}

/// Length used by `normalize`: the square root of the sum of squares, with
/// sixteen extra bits of precision (raw units of 2^-32), rounded down.
pub open spec fn fine_length_spec(x: int, y: int, z: int) -> int {
    isqrt_spec(sq3(x, y, z) * 0x1_0000_0000)
}

/// Length of a fixed-point vector, rounded down and saturated.
pub open spec fn length3_spec(x: int, y: int, z: int) -> int {
    clamp_i32(isqrt_spec(sq3(x, y, z)))
}

/// One component divided by a fine length, as a fixed-point value.
pub open spec fn unit_component(c: int, l: int) -> int {
    clamp_i32(floor_div(c * 0x1_0000_0000, l))
}

pub fn add_sat(a: i32, b: i32) -> (r: i32)
    ensures
        r == sat_add(a as int, b as int),
{
    clamp_to_i32(a as i128 + b as i128)
}

pub fn sub_sat(a: i32, b: i32) -> (r: i32)
    ensures
        r == sat_sub(a as int, b as int),
{
    clamp_to_i32(a as i128 - b as i128)
}

pub fn dot3(ax: i32, ay: i32, az: i32, bx: i32, by: i32, bz: i32) -> (r: i32)
    ensures
        r == dot3_spec(ax as int, ay as int, az as int, bx as int, by as int, bz as int),
{
    proof {
        lemma_i32_product_bound(ax as int, bx as int);
        lemma_i32_product_bound(ay as int, by as int);
        lemma_i32_product_bound(az as int, bz as int);
    }
    let s: i128 = (ax as i128) * (bx as i128) + (ay as i128) * (by as i128) + (az as i128) * (
    bz as i128);
    clamp_to_i32(floor_div_i128(s, 65536))
}

/// Sum of squares of three components, exactly.
pub fn sum_sq3(x: i32, y: i32, z: i32) -> (r: u128)
    ensures
        r == sq3(x as int, y as int, z as int),
        r <= 0xc000_0000_0000_0000,
{
    proof {
        lemma_i32_product_bound(x as int, x as int);
        lemma_i32_product_bound(y as int, y as int);
        lemma_i32_product_bound(z as int, z as int);
        assert(x * x >= 0 && y * y >= 0 && z * z >= 0) by (nonlinear_arith);
    }
    let xx: i128 = (x as i128) * (x as i128);
    let yy: i128 = (y as i128) * (y as i128);
    let zz: i128 = (z as i128) * (z as i128);
    (xx + yy + zz) as u128
}

/// Length of `(x, y, z)` in raw units of 2^-32, rounded down.
pub fn fine_length(x: i32, y: i32, z: i32) -> (l: u128)
    ensures
        l == fine_length_spec(x as int, y as int, z as int),
        l <= 0x1_0000_0000_0000_0000,
        l == 0 <==> (x == 0 && y == 0 && z == 0),
{
    let s = sum_sq3(x, y, z);
    let n: u128 = s * 0x1_0000_0000;
    let l = isqrt(n);
    proof {
        assert(l * l <= n);
        if l > 0x1_0000_0000_0000_0000 {
            assert(l * l > 0x1_0000_0000_0000_0000 * 0x1_0000_0000_0000_0000) by (nonlinear_arith)
                requires
                    l > 0x1_0000_0000_0000_0000u128,
            ;
        }
        if x != 0 || y != 0 || z != 0 {
            assert(x * x >= 0 && y * y >= 0 && z * z >= 0) by (nonlinear_arith);
            assert(x * x > 0 || y * y > 0 || z * z > 0) by (nonlinear_arith)
                requires
                    x != 0 || y != 0 || z != 0,
            ;
            assert(n >= 1);
            if l == 0 {
                assert(n < (l + 1) * (l + 1));
                assert((l + 1) * (l + 1) == 1) by (nonlinear_arith)
                    requires
                        l == 0,
                ;
            }
        } else {
            assert(x * x == 0 && y * y == 0 && z * z == 0) by (nonlinear_arith)
                requires
                    x == 0 && y == 0 && z == 0,
            ;
            assert(s == 0);
            assert(n == 0);
            assert(l * l <= 0);
            assert(l == 0) by (nonlinear_arith)
                requires
                    l * l <= 0,
            ;
        }
    }
    l
}

/// `c` divided by the fine length `l`, as a fixed-point value.
pub fn unit_div(c: i32, l: u128) -> (r: i32)
    requires
        0 < l <= 0x1_0000_0000_0000_0000,
    ensures
        r == unit_component(c as int, l as int),
{
    let num: i128 = (c as i128) * 0x1_0000_0000;
    clamp_to_i32(floor_div_i128(num, l as i128))
}

/// Floor of the square root of a sum of squares, as an `i32`, saturated.
pub fn length3(x: i32, y: i32, z: i32) -> (r: i32)
    ensures
        r == length3_spec(x as int, y as int, z as int),
{
    let s = sum_sq3(x, y, z);
    let l = isqrt(s);
    let r: i32 = if l > i32::MAX as u128 {
        i32::MAX
    } else {
        l as i32
    };
    r
}

// ---------------------------------------------------------------------------
/// A point on the pixel grid.
#[derive(Clone, Copy, Debug, PartialEq, Eq, Structural)]
pub struct Vector2i {
    pub x: i32,
    pub y: i32,
}

/// Sign of an integer: -1, 0 or 1.
pub open spec fn sign(v: int) -> int {
    if v > 0 {
        1
    } else if v < 0 {
        -1
    } else {
        0
    }
}

/// Each component of `(x, y)` divided by the vector's length and truncated
/// toward zero. A component is ±1 only when the vector lies on its axis.
pub open spec fn unit_axis_spec(x: int, y: int) -> (int, int) {
    if y == 0 {
        (sign(x), 0)
    } else if x == 0 {
        (0, sign(y))
    } else {
        (0, 0)
    }
}

impl Vector2i {
    pub fn new(x: i32, y: i32) -> (r: Self)
        ensures
            r.x == x && r.y == y,
    {
        Self { x, y }
    }

    pub fn zero() -> (r: Self)
        ensures
            r.x == 0 && r.y == 0,
    {
        Self { x: 0, y: 0 }
    }

    pub fn one() -> (r: Self)
        ensures
            r.x == 1 && r.y == 1,
    {
        Self { x: 1, y: 1 }
    }

    /// Componentwise sum, saturated.
    pub fn add(self, other: Self) -> (r: Self)
        ensures
            r.x == sat_add(self.x as int, other.x as int),
            r.y == sat_add(self.y as int, other.y as int),
    {
        Self { x: add_sat(self.x, other.x), y: add_sat(self.y, other.y) }
    }

    /// Componentwise difference, saturated.
    pub fn sub(self, other: Self) -> (r: Self)
        ensures
            r.x == sat_sub(self.x as int, other.x as int),
            r.y == sat_sub(self.y as int, other.y as int),
    {
        Self { x: sub_sat(self.x, other.x), y: sub_sat(self.y, other.y) }
    }

    /// Both components times `factor`, saturated.
    pub fn scale(self, factor: i32) -> (r: Self)
        ensures
            r.x == clamp_i32(self.x * factor),
            r.y == clamp_i32(self.y * factor),
    {
        proof {
            lemma_i32_product_bound(self.x as int, factor as int);
            lemma_i32_product_bound(self.y as int, factor as int);
        }
        Self {
            x: clamp_to_i32(self.x as i128 * factor as i128),
            y: clamp_to_i32(self.y as i128 * factor as i128),
        }
    }

    /// Exact dot product.
    pub fn dot(self, other: Self) -> (r: i128)
        ensures
            r == self.x * other.x + self.y * other.y,
    {
        proof {
            lemma_i32_product_bound(self.x as int, other.x as int);
            lemma_i32_product_bound(self.y as int, other.y as int);
        }
        (self.x as i128) * (other.x as i128) + (self.y as i128) * (other.y as i128)
    }

    /// Length rounded down.
    pub fn magnitude(self) -> (r: u32)
        ensures
            r == isqrt_spec(sq3(self.x as int, self.y as int, 0)),
    {
        let s = sum_sq3(self.x, self.y, 0);
        let l = isqrt(s);
        proof {
            if l > u32::MAX as u128 {
                assert(l * l > 0xc000_0000_0000_0000) by (nonlinear_arith)
                    requires
                        l > 0xffff_ffffu128,
                ;
            }
        }
        l as u32
    }

    /// Length of the difference, rounded down.
    pub fn distance(self, other: Self) -> (r: u32)
        ensures
            r == isqrt_spec(
                sq3(
                    sat_sub(self.x as int, other.x as int),
                    sat_sub(self.y as int, other.y as int),
                    0,
                ),
            ),
    {
        self.sub(other).magnitude()
    }

    /// The vector divided by its length, each component truncated toward
    /// zero; the zero vector stays zero.
    pub fn normalize(&self) -> (r: Vector2i)
        ensures
            (r.x as int, r.y as int) == unit_axis_spec(self.x as int, self.y as int),
    {
        let sx: i32 = if self.x > 0 {
            1
        } else if self.x < 0 {
            -1
        } else {
            0
        };
        let sy: i32 = if self.y > 0 {
            1
        } else if self.y < 0 {
            -1
        } else {
            0
        };
        if self.y == 0 {
            Vector2i { x: sx, y: 0 }
        } else if self.x == 0 {
            Vector2i { x: 0, y: sy }
        } else {
            Vector2i::zero()
        }
    }
}

} // verus!
