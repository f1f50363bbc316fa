//! Two-component fixed-point vectors.
use vstd::prelude::*;
use crate::fixed::{FX_ONE, fx_mul_spec, fx_mul};
use crate::vector::{
    Vector2i, sat_add, sat_sub, dot3_spec, fine_length_spec, unit_component, length3_spec, add_sat,
    sub_sat, dot3, fine_length, unit_div, length3,
};
use crate::vector3::fx_floor;

verus! {

/// A vector of two Q16.16 components.
#[derive(Clone, Copy, Debug, PartialEq, Eq, Structural)]
pub struct Vector2 {
    pub x: i32,
    pub y: i32,
}

pub open spec fn v2_add(a: Vector2, b: Vector2) -> Vector2 {
    Vector2 { x: sat_add(a.x as int, b.x as int) as i32, y: sat_add(a.y as int, b.y as int) as i32 }
}

pub open spec fn v2_sub(a: Vector2, b: Vector2) -> Vector2 {
    Vector2 { x: sat_sub(a.x as int, b.x as int) as i32, y: sat_sub(a.y as int, b.y as int) as i32 }
}

pub open spec fn v2_magnitude(a: Vector2) -> int {
    length3_spec(a.x as int, a.y as int, 0)
}

/// The vector scaled by one over its length; the zero vector stays zero.
pub open spec fn v2_normalize(a: Vector2) -> Vector2 {
    if a.x == 0 && a.y == 0 {
        a
    } else {
        let l = fine_length_spec(a.x as int, a.y as int, 0);
        Vector2 { x: unit_component(a.x as int, l) as i32, y: unit_component(a.y as int, l) as i32 }
    }
}

impl Vector2 {
    pub fn new(x: i32, y: i32) -> (r: Self)
        ensures
            r.x == x && r.y == y,
    {
        Self { x, y }
    }

    pub fn zero() -> (r: Self)
        ensures
            r.x == 0 && r.y == 0,
    {
        Self { x: 0, y: 0 }
    }

    /// The unit vector along `y`.
    pub fn up() -> (r: Self)
        ensures
            r.x == 0 && r.y == 65536,
    {
        Self { x: 0, y: FX_ONE }
    }

    pub fn add(self, other: Self) -> (r: Self)
        ensures
            r == v2_add(self, other),
    {
        Self { x: add_sat(self.x, other.x), y: add_sat(self.y, other.y) }
    }

    pub fn sub(self, other: Self) -> (r: Self)
        ensures
            r == v2_sub(self, other),
    {
        Self { x: sub_sat(self.x, other.x), y: sub_sat(self.y, other.y) }
    }

    /// Both components times the fixed-point `factor`.
    pub fn scale(self, factor: i32) -> (r: Self)
        ensures
            r.x == fx_mul_spec(self.x as int, factor as int),
            r.y == fx_mul_spec(self.y as int, factor as int),
    {
        Self { x: fx_mul(self.x, factor), y: fx_mul(self.y, factor) }
    }

    pub fn dot(self, other: Self) -> (r: i32)
        ensures
            r == dot3_spec(self.x as int, self.y as int, 0, other.x as int, other.y as int, 0),
    {
        dot3(self.x, self.y, 0, other.x, other.y, 0)
    }

    pub fn magnitude(self) -> (r: i32)
        ensures
            r == v2_magnitude(self),
    {
        length3(self.x, self.y, 0)
    }

    pub fn distance(self, other: Self) -> (r: i32)
        ensures
            r == v2_magnitude(v2_sub(self, other)),
    {
        self.sub(other).magnitude()
    }

    pub fn normalize(self) -> (r: Self)
        ensures
            r == v2_normalize(self),
    {
        let l = fine_length(self.x, self.y, 0);
        if l == 0 {
            self
        } else {
            Self { x: unit_div(self.x, l), y: unit_div(self.y, l) }
        }
    }

    /// The pixel under the point: both whole parts, rounded down.
    pub fn to_vector2i(self) -> (r: Vector2i)
        ensures
            r.x == fx_floor(self.x as int),
            r.y == fx_floor(self.y as int),
    {
        Vector2i { x: crate::vector3::fx_floor_exec(self.x), y: crate::vector3::fx_floor_exec(self.y) }
    }
}

} // verus!
