//! Meshes: an object transform and its triangles.
use vstd::prelude::*;
use crate::object3d::Object3D;
use crate::triangle::Triangle;
use crate::vector3::Vector3;
use crate::vector4::Vector4;

verus! {

/// An object transform and its triangles in object space.
pub struct Mesh {
    pub obj: Object3D,
    pub tris: Vec<Triangle>,
}

/// A cube triangle over three corners (raw fixed-point coordinates). The
/// first triangle of a face (`first`) maps to the upper-left half of the
/// texture, the second to the lower-right half.
pub open spec fn cube_tri_spec(a: (i32, i32, i32), b: (i32, i32, i32), c: (i32, i32, i32), first: bool) -> Triangle {
    Triangle {
        v1: Vector4 { x: a.0, y: a.1, z: a.2, w: 65536 },
        v2: Vector4 { x: b.0, y: b.1, z: b.2, w: 65536 },
        v3: Vector4 { x: c.0, y: c.1, z: c.2, w: 65536 },
        light_color: 0,
        uv: [
            Vector3 { x: 0, y: 65536, z: 65536 },
            if first { Vector3 { x: 0, y: 0, z: 65536 } } else { Vector3 { x: 65536, y: 0, z: 65536 } },
            if first { Vector3 { x: 65536, y: 0, z: 65536 } } else { Vector3 { x: 65536, y: 65536, z: 65536 } },
        ],
    }
}

/// Triangle `i` of the unit cube `[0, 1]^3`: two per face, in the order
/// south, east, north, west, top, bottom.
pub open spec fn cube_triangle(i: int) -> Triangle {
    if i == 0 {
        cube_tri_spec((0, 0, 0), (0, 65536, 0), (65536, 65536, 0), true)
    } else     if i == 1 {
        cube_tri_spec((0, 0, 0), (65536, 65536, 0), (65536, 0, 0), false)
    } else     if i == 2 {
        cube_tri_spec((65536, 0, 0), (65536, 65536, 0), (65536, 65536, 65536), true)
    } else     if i == 3 {
        cube_tri_spec((65536, 0, 0), (65536, 65536, 65536), (65536, 0, 65536), false)
    } else     if i == 4 {
        cube_tri_spec((65536, 0, 65536), (65536, 65536, 65536), (0, 65536, 65536), true)
    } else     if i == 5 {
        cube_tri_spec((65536, 0, 65536), (0, 65536, 65536), (0, 0, 65536), false)
    } else     if i == 6 {
        cube_tri_spec((0, 0, 65536), (0, 65536, 65536), (0, 65536, 0), true)
    } else     if i == 7 {
        cube_tri_spec((0, 0, 65536), (0, 65536, 0), (0, 0, 0), false)
    } else     if i == 8 {
        cube_tri_spec((0, 65536, 0), (0, 65536, 65536), (65536, 65536, 65536), true)
    } else     if i == 9 {
        cube_tri_spec((0, 65536, 0), (65536, 65536, 65536), (65536, 65536, 0), false)
    } else     if i == 10 {
        cube_tri_spec((65536, 0, 65536), (0, 0, 65536), (0, 0, 0), true)
    } else {
        cube_tri_spec((65536, 0, 65536), (0, 0, 0), (65536, 0, 0), false)
    }
}

fn cube_tri(a: (i32, i32, i32), b: (i32, i32, i32), c: (i32, i32, i32), first: bool) -> (r: Triangle)
    ensures
        r == cube_tri_spec(a, b, c, first),
{
    let (u1, u2) = if first {
        (Vector3 { x: 0, y: 0, z: 65536 }, Vector3 { x: 65536, y: 0, z: 65536 })
    } else {
        (Vector3 { x: 65536, y: 0, z: 65536 }, Vector3 { x: 65536, y: 65536, z: 65536 })
    };
    Triangle {
        v1: Vector4 { x: a.0, y: a.1, z: a.2, w: 65536 },
        v2: Vector4 { x: b.0, y: b.1, z: b.2, w: 65536 },
        v3: Vector4 { x: c.0, y: c.1, z: c.2, w: 65536 },
        light_color: 0,
        uv: [Vector3 { x: 0, y: 65536, z: 65536 }, u1, u2],
    }
}

impl Mesh {
    /// The unit cube `[0, 1]^3` as twelve triangles, placed at `position`
    /// and not rotated.
    pub fn unit_cube(position: Vector3) -> (r: Mesh)
        ensures
            r.obj.position == position,
            r.obj.rotation == Object3D::zero_spec().rotation,
            r.tris@.len() == 12,
            forall|i: int| 0 <= i < 12 ==> #[trigger] r.tris@[i] == cube_triangle(i),
    {
        let tris = vec![
            cube_tri((0, 0, 0), (0, 65536, 0), (65536, 65536, 0), true),
            cube_tri((0, 0, 0), (65536, 65536, 0), (65536, 0, 0), false),
            cube_tri((65536, 0, 0), (65536, 65536, 0), (65536, 65536, 65536), true),
            cube_tri((65536, 0, 0), (65536, 65536, 65536), (65536, 0, 65536), false),
            cube_tri((65536, 0, 65536), (65536, 65536, 65536), (0, 65536, 65536), true),
            cube_tri((65536, 0, 65536), (0, 65536, 65536), (0, 0, 65536), false),
            cube_tri((0, 0, 65536), (0, 65536, 65536), (0, 65536, 0), true),
            cube_tri((0, 0, 65536), (0, 65536, 0), (0, 0, 0), false),
            cube_tri((0, 65536, 0), (0, 65536, 65536), (65536, 65536, 65536), true),
            cube_tri((0, 65536, 0), (65536, 65536, 65536), (65536, 65536, 0), false),
            cube_tri((65536, 0, 65536), (0, 0, 65536), (0, 0, 0), true),
            cube_tri((65536, 0, 65536), (0, 0, 0), (65536, 0, 0), false)
        ];
        let obj = Object3D::zero();
        Mesh { obj: Object3D::new(position, obj.rotation), tris }
    }
}

} // verus!
