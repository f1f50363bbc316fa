//! Triangles and meshes.
use vstd::prelude::*;
use crate::vector3::Vector3;
use crate::vector4::Vector4;

verus! {

/// Three homogeneous vertices, a resolved shading colour and one texture
/// coordinate `(u, v, w)` per vertex. The vertex order fixes the winding:
/// the face normal is `(v2 - v1) x (v3 - v1)`.
#[derive(Clone, Copy, Debug)]
pub struct Triangle {
    pub v1: Vector4,
    pub v2: Vector4,
    pub v3: Vector4,
    pub light_color: u32,
    pub uv: [Vector3; 3],
}

/// The zero texture coordinate.
pub open spec fn uv_zero() -> Vector3 {
    Vector3 { x: 0, y: 0, z: 0 }
}

/// Vertex `k` (0, 1 or 2) of a triangle.
pub open spec fn vertex_of(t: Triangle, k: int) -> Vector4 {
    if k == 0 {
        t.v1
    } else if k == 1 {
        t.v2
    } else {
        t.v3
    }
}

impl Triangle {
    /// A triangle with colour 0 and zero texture coordinates.
    pub fn new(v1: Vector4, v2: Vector4, v3: Vector4) -> (r: Self)
        ensures
            r.v1 == v1 && r.v2 == v2 && r.v3 == v3,
            r.light_color == 0,
            r.uv[0] == uv_zero() && r.uv[1] == uv_zero() && r.uv[2] == uv_zero(),
    {
        Self { v1, v2, v3, light_color: 0, uv: [Vector3::zero(), Vector3::zero(), Vector3::zero()] }
    }

    pub fn set_uv(self, uv: [Vector3; 3]) -> (r: Self)
        ensures
            r == (Triangle { uv, ..self }),
    {
        Triangle { uv, ..self }
    }

    pub fn set_light_color(self, light_color: u32) -> (r: Self)
        ensures
            r == (Triangle { light_color, ..self }),
    {
        Triangle { light_color, ..self }
    }

    /// Vertex `k` (0, 1 or 2).
    pub fn vertex(&self, k: usize) -> (r: Vector4)
        requires
            k < 3,
        ensures
            r == vertex_of(*self, k as int),
    {
        if k == 0 {
            self.v1
        } else if k == 1 {
            self.v2
        } else {
            self.v3
        }
    }
}

impl Default for Triangle {
    fn default() -> (r: Self)
        ensures
            r.v1 == (Vector4 { x: 0, y: 0, z: 0, w: 0 }),
            r.v2 == (Vector4 { x: 0, y: 0, z: 0, w: 0 }),
            r.v3 == (Vector4 { x: 0, y: 0, z: 0, w: 0 }),
            r.light_color == 0,
            r.uv[0] == uv_zero() && r.uv[1] == uv_zero() && r.uv[2] == uv_zero(),
    {
        let o = Vector4 { x: 0, y: 0, z: 0, w: 0 };
        Triangle::new(o, o, o)
    }
}

} // verus!
