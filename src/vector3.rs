//! Three-component fixed-point vectors.
use vstd::prelude::*;
use crate::fixed::{FX_ONE, floor_div, fx_mul_spec, fx_mul};
use crate::vector2::Vector2;
use crate::vector::{Vector2i, sat_add, sat_sub, dot3_spec, fine_length_spec, unit_component, length3_spec, add_sat, sub_sat, dot3, fine_length, unit_div, length3};

verus! {

/// A vector of three Q16.16 components: a position, a direction, a set of
/// angles or a texture coordinate `(u, v, w)`.
#[derive(Clone, Copy, Debug, PartialEq, Eq, Structural)]
pub struct Vector3 {
    pub x: i32,
    pub y: i32,
    pub z: i32,
}

/// The vector with the given raw components, each forced into `i32`.
pub open spec fn v3(x: int, y: int, z: int) -> Vector3 {
    Vector3 { x: x as i32, y: y as i32, z: z as i32 }
}

pub open spec fn v3_add(a: Vector3, b: Vector3) -> Vector3 {
    v3(sat_add(a.x as int, b.x as int), sat_add(a.y as int, b.y as int), sat_add(a.z as int, b.z as int))
}

pub open spec fn v3_sub(a: Vector3, b: Vector3) -> Vector3 {
    v3(sat_sub(a.x as int, b.x as int), sat_sub(a.y as int, b.y as int), sat_sub(a.z as int, b.z as int))
}

pub open spec fn v3_scale(a: Vector3, f: int) -> Vector3 {
    v3(fx_mul_spec(a.x as int, f), fx_mul_spec(a.y as int, f), fx_mul_spec(a.z as int, f))
}

pub open spec fn v3_dot(a: Vector3, b: Vector3) -> int {
    dot3_spec(a.x as int, a.y as int, a.z as int, b.x as int, b.y as int, b.z as int)
}

pub open spec fn v3_magnitude(a: Vector3) -> int {
    length3_spec(a.x as int, a.y as int, a.z as int)
}

/// The vector scaled by one over its length; the zero vector stays zero.
pub open spec fn v3_normalize(a: Vector3) -> Vector3 {
    if a.x == 0 && a.y == 0 && a.z == 0 {
        a
    } else {
        let l = fine_length_spec(a.x as int, a.y as int, a.z as int);
        v3(unit_component(a.x as int, l), unit_component(a.y as int, l), unit_component(a.z as int, l))
    }
}

pub open spec fn v3_cross(a: Vector3, b: Vector3) -> Vector3 {
    v3(
        sat_sub(fx_mul_spec(a.y as int, b.z as int), fx_mul_spec(a.z as int, b.y as int)),
        sat_sub(fx_mul_spec(a.z as int, b.x as int), fx_mul_spec(a.x as int, b.z as int)),
        sat_sub(fx_mul_spec(a.x as int, b.y as int), fx_mul_spec(a.y as int, b.x as int)),
    )
}

/// Whole part of a fixed-point value (rounded toward negative infinity).
pub open spec fn fx_floor(c: int) -> int {
    floor_div(c, 65536)
}

impl Vector3 {
    pub fn new(x: i32, y: i32, z: i32) -> (r: Self)
        ensures
            r.x == x && r.y == y && r.z == z,
    {
        Self { x, y, z }
    }

    pub fn zero() -> (r: Self)
        ensures
            r.x == 0 && r.y == 0 && r.z == 0,
    {
        Self { x: 0, y: 0, z: 0 }
    }

    pub fn up() -> (r: Self)
        ensures
            r.x == 0 && r.y == 65536 && r.z == 0,
    {
        Self { x: 0, y: FX_ONE, z: 0 }
    }

    pub fn add(self, other: Self) -> (r: Self)
        ensures
            r == v3_add(self, other),
    {
        Self { x: add_sat(self.x, other.x), y: add_sat(self.y, other.y), z: add_sat(self.z, other.z) }
    }

    pub fn sub(self, other: Self) -> (r: Self)
        ensures
            r == v3_sub(self, other),
    {
        Self { x: sub_sat(self.x, other.x), y: sub_sat(self.y, other.y), z: sub_sat(self.z, other.z) }
    }

    pub fn scale(self, factor: i32) -> (r: Self)
        ensures
            r == v3_scale(self, factor as int),
    {
        Self { x: fx_mul(self.x, factor), y: fx_mul(self.y, factor), z: fx_mul(self.z, factor) }
    }

    pub fn dot(self, other: Self) -> (r: i32)
        ensures
            r == v3_dot(self, other),
    {
        dot3(self.x, self.y, self.z, other.x, other.y, other.z)
    }

    pub fn magnitude(self) -> (r: i32)
        ensures
            r == v3_magnitude(self),
    {
        length3(self.x, self.y, self.z)
    }

    pub fn distance(self, other: Self) -> (r: i32)
        ensures
            r == v3_magnitude(v3_sub(self, other)),
    {
        self.sub(other).magnitude()
    }

    pub fn normalize(self) -> (r: Self)
        ensures
            r == v3_normalize(self),
    {
        let l = fine_length(self.x, self.y, self.z);
        if l == 0 {
            self
        } else {
            Self { x: unit_div(self.x, l), y: unit_div(self.y, l), z: unit_div(self.z, l) }
        }
    }

    pub fn cross(self, other: Self) -> (r: Self)
        ensures
            r == v3_cross(self, other),
    {
        Self {
            x: sub_sat(fx_mul(self.y, other.z), fx_mul(self.z, other.y)),
            y: sub_sat(fx_mul(self.z, other.x), fx_mul(self.x, other.z)),
            z: sub_sat(fx_mul(self.x, other.y), fx_mul(self.y, other.x)),
        }
    }

    /// The `x` and `y` components.
    pub fn to_v2d(self) -> (r: Vector2)
        ensures
            r.x == self.x && r.y == self.y,
    {
        Vector2 { x: self.x, y: self.y }
    }

    /// The pixel under `(x, y)`: both whole parts, rounded down.
    pub fn to_vi2d(self) -> (r: Vector2i)
        ensures
            r.x == fx_floor(self.x as int),
            r.y == fx_floor(self.y as int),
    {
        Vector2i { x: fx_floor_exec(self.x), y: fx_floor_exec(self.y) }
    }
}

/// Whole part of a fixed-point value, rounded down.
pub fn fx_floor_exec(c: i32) -> (r: i32)
    ensures
        r == fx_floor(c as int),
{
    let q: i128 = crate::fixed::floor_div_i128(c as i128, 65536);
    assert(-32768 <= q <= 32767) by {
        assert(floor_div(c as int, 65536) == (c as int) / 65536);
    }
    q as i32
}

} // verus!
