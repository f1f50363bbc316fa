//! Homogeneous fixed-point vectors.
use vstd::prelude::*;
use crate::fixed::{FX_ONE, fx_mul_spec, fx_div_spec, fx_mul, fx_div};
use crate::vector::{sat_add, sat_sub, dot3_spec, fine_length_spec, unit_component, length3_spec, add_sat, sub_sat, dot3, fine_length, unit_div, length3};
use crate::vector3::Vector3;

verus! {

/// A homogeneous vector of Q16.16 components. Points carry `w == 1.0`
/// (raw 65536), directions `w == 0`.
#[derive(Clone, Copy, Debug, PartialEq, Eq, Structural)]
pub struct Vector4 {
    pub x: i32,
    pub y: i32,
    pub z: i32,
    pub w: i32,
}

/// The vector with the given raw components, each forced into `i32`.
pub open spec fn v4(x: int, y: int, z: int, w: int) -> Vector4 {
    Vector4 { x: x as i32, y: y as i32, z: z as i32, w: w as i32 }
}

/// The origin as a point: `(0, 0, 0, 1)`.
pub open spec fn v4_zero() -> Vector4 {
    Vector4 { x: 0, y: 0, z: 0, w: 65536 }
}

pub open spec fn v4_add(a: Vector4, b: Vector4) -> Vector4 {
    v4(sat_add(a.x as int, b.x as int), sat_add(a.y as int, b.y as int), sat_add(a.z as int, b.z as int), sat_add(a.w as int, b.w as int))
}

pub open spec fn v4_sub(a: Vector4, b: Vector4) -> Vector4 {
    v4(sat_sub(a.x as int, b.x as int), sat_sub(a.y as int, b.y as int), sat_sub(a.z as int, b.z as int), sat_sub(a.w as int, b.w as int))
}

/// All four components times the fixed-point factor `f`.
pub open spec fn v4_scale(a: Vector4, f: int) -> Vector4 {
    v4(fx_mul_spec(a.x as int, f), fx_mul_spec(a.y as int, f), fx_mul_spec(a.z as int, f), fx_mul_spec(a.w as int, f))
}

/// Dot product of the `x`, `y`, `z` parts.
pub open spec fn v4_dot(a: Vector4, b: Vector4) -> int {
    dot3_spec(a.x as int, a.y as int, a.z as int, b.x as int, b.y as int, b.z as int)
}

/// Length of the `x`, `y`, `z` part.
pub open spec fn v4_magnitude(a: Vector4) -> int {
    length3_spec(a.x as int, a.y as int, a.z as int)
}

/// The vector scaled by one over the length of its `x`, `y`, `z` part; the
/// zero vector when that part is zero.
pub open spec fn v4_normalize(a: Vector4) -> Vector4 {
    if a.x == 0 && a.y == 0 && a.z == 0 {
        v4_zero()
    } else {
        let l = fine_length_spec(a.x as int, a.y as int, a.z as int);
        v4(unit_component(a.x as int, l), unit_component(a.y as int, l), unit_component(a.z as int, l), unit_component(a.w as int, l))
    }
}

/// Cross product of the `x`, `y`, `z` parts, as a point.
pub open spec fn v4_cross(a: Vector4, b: Vector4) -> Vector4 {
    v4(
        sat_sub(fx_mul_spec(a.y as int, b.z as int), fx_mul_spec(a.z as int, b.y as int)),
        sat_sub(fx_mul_spec(a.z as int, b.x as int), fx_mul_spec(a.x as int, b.z as int)),
        sat_sub(fx_mul_spec(a.x as int, b.y as int), fx_mul_spec(a.y as int, b.x as int)),
        65536,
    )
}

/// `x`, `y`, `z` divided by `w`, or unchanged when `w` is zero.
pub open spec fn v4_perspective_divide(a: Vector4) -> Vector3 {
    if a.w != 0 {
        Vector3 {
            x: fx_div_spec(a.x as int, a.w as int) as i32,
            y: fx_div_spec(a.y as int, a.w as int) as i32,
            z: fx_div_spec(a.z as int, a.w as int) as i32,
        }
    } else {
        Vector3 { x: a.x, y: a.y, z: a.z }
    }
}

impl Vector4 {
    pub fn zero() -> (r: Self)
        ensures
            r == v4_zero(),
    {
        Self { x: 0, y: 0, z: 0, w: FX_ONE }
    }

    pub fn new(x: i32, y: i32, z: i32, w: i32) -> (r: Self)
        ensures
            r.x == x && r.y == y && r.z == z && r.w == w,
    {
        Self { x, y, z, w }
    }

    /// The unit vector along `y`, as a point.
    pub fn up() -> (r: Self)
        ensures
            r.x == 0 && r.y == 65536 && r.z == 0 && r.w == 65536,
    {
        Self { x: 0, y: FX_ONE, z: 0, w: FX_ONE }
    }

    pub fn from_vector3(v: Vector3, w: i32) -> (r: Self)
        ensures
            r.x == v.x && r.y == v.y && r.z == v.z && r.w == w,
    {
        Self { x: v.x, y: v.y, z: v.z, w }
    }

    /// Divides `x`, `y` and `z` by `w` when `w` is not zero.
    pub fn perspective_divide(&self) -> (r: Vector3)
        ensures
            r == v4_perspective_divide(*self),
    {
        if self.w != 0 {
            Vector3 {
                x: fx_div(self.x, self.w),
                y: fx_div(self.y, self.w),
                z: fx_div(self.z, self.w),
            }
        } else {
            Vector3 { x: self.x, y: self.y, z: self.z }
        }
    }

    pub fn add(self, other: Self) -> (r: Self)
        ensures
            r == v4_add(self, other),
    {
        Self {
            x: add_sat(self.x, other.x),
            y: add_sat(self.y, other.y),
            z: add_sat(self.z, other.z),
            w: add_sat(self.w, other.w),
        }
    }

    pub fn sub(self, other: Self) -> (r: Self)
        ensures
            r == v4_sub(self, other),
    {
        Self {
            x: sub_sat(self.x, other.x),
            y: sub_sat(self.y, other.y),
            z: sub_sat(self.z, other.z),
            w: sub_sat(self.w, other.w),
        }
    }

    pub fn scale(self, factor: i32) -> (r: Self)
        ensures
            r == v4_scale(self, factor as int),
    {
        Self {
            x: fx_mul(self.x, factor),
            y: fx_mul(self.y, factor),
            z: fx_mul(self.z, factor),
            w: fx_mul(self.w, factor),
        }
    }

    pub fn dot(self, other: Self) -> (r: i32)
        ensures
            r == v4_dot(self, other),
    {
        dot3(self.x, self.y, self.z, other.x, other.y, other.z)
    }

    pub fn magnitude(self) -> (r: i32)
        ensures
            r == v4_magnitude(self),
    {
        length3(self.x, self.y, self.z)
    }

    pub fn distance(self, other: Self) -> (r: i32)
        ensures
            r == v4_magnitude(v4_sub(self, other)),
    {
        self.sub(other).magnitude()
    }

    pub fn normalize(self) -> (r: Self)
        ensures
            r == v4_normalize(self),
    {
        let l = fine_length(self.x, self.y, self.z);
        if l == 0 {
            Self::zero()
        } else {
            Self {
                x: unit_div(self.x, l),
                y: unit_div(self.y, l),
                z: unit_div(self.z, l),
                w: unit_div(self.w, l),
            }
        }
    }

    pub fn cross(self, other: Self) -> (r: Self)
        ensures
            r == v4_cross(self, other),
    {
        Self {
            x: sub_sat(fx_mul(self.y, other.z), fx_mul(self.z, other.y)),
            y: sub_sat(fx_mul(self.z, other.x), fx_mul(self.x, other.z)),
            z: sub_sat(fx_mul(self.x, other.y), fx_mul(self.y, other.x)),
            w: FX_ONE,
        }
    }
}

} // verus!
