//! 4x4 fixed-point transform matrices.
//!
//! Vectors are rows multiplied on the left (`v * M`): a matrix's last row
//! holds its translation, and `A * B` applies `A` first, then `B`.
use vstd::prelude::*;
use crate::fixed::{FX_ONE, clamp_i32, floor_div, fx_mul_spec, fx_div_spec, clamp_to_i32, floor_div_i128, fx_mul, lemma_i32_product_bound};

use crate::vector3::{Vector3, v3_sub, v3_normalize, v3_scale, v3_dot, v3_cross};
use crate::vector4::Vector4;

verus! {

/// An angle held as its cosine and sine, both Q16.16.
#[derive(Clone, Copy, Debug, PartialEq, Eq, Structural)]
pub struct Angle {
    pub cos: i32,
    pub sin: i32,
}

impl Angle {
    /// The pair is a cosine and sine up to rounding:
    /// `|cos^2 + sin^2 - 1| <= 2^-14` (in raw units, within 2^18 of 2^32).
    pub open spec fn wf(&self) -> bool {
        let n = self.cos * self.cos + self.sin * self.sin;
        0x1_0000_0000 - 0x4_0000 <= n <= 0x1_0000_0000 + 0x4_0000
    }

    /// The zero angle.
    pub fn zero() -> (r: Self)
        ensures
            r.cos == 65536 && r.sin == 0,
            r.wf(),
    {
        let r = Angle { cos: FX_ONE, sin: 0 };
        assert(r.wf()) by {
            assert(65536 * 65536 == 0x1_0000_0000 && 0 * 0 == 0) by (nonlinear_arith);
        }
        r
    }
}

/// A row-major 4x4 matrix of Q16.16 entries.
#[derive(Clone, Copy, Debug)]
pub struct Matrix4x4 {
    pub m: [[i32; 4]; 4],
}

/// Entry `(r, c)`.
pub open spec fn at(a: Matrix4x4, r: int, c: int) -> int {
    a.m[r][c] as int
}

/// The matrix with the given rows.
pub open spec fn mat_of(rows: [[i32; 4]; 4]) -> Matrix4x4 {
    Matrix4x4 { m: rows }
}

/// Entry `(r, c)` of the product `a * b`.
pub open spec fn mul_at(a: Matrix4x4, b: Matrix4x4, r: int, c: int) -> int {
    clamp_i32(
        floor_div(
            at(a, r, 0) * at(b, 0, c) + at(a, r, 1) * at(b, 1, c) + at(a, r, 2) * at(b, 2, c) + at(a, r, 3) * at(b, 3, c),
            65536,
        ),
    )
}

/// The product `a * b`: every entry is `mul_at`.
pub open spec fn is_product(p: Matrix4x4, a: Matrix4x4, b: Matrix4x4) -> bool {
    forall|r: int, c: int| 0 <= r < 4 && 0 <= c < 4 ==> #[trigger] at(p, r, c) == mul_at(a, b, r, c)
}

/// The product `a * b`.
pub open spec fn mat_mul(a: Matrix4x4, b: Matrix4x4) -> Matrix4x4 {
    mat_of(
        [
            [mul_at(a, b, 0, 0) as i32, mul_at(a, b, 0, 1) as i32, mul_at(a, b, 0, 2) as i32, mul_at(a, b, 0, 3) as i32],
            [mul_at(a, b, 1, 0) as i32, mul_at(a, b, 1, 1) as i32, mul_at(a, b, 1, 2) as i32, mul_at(a, b, 1, 3) as i32],
            [mul_at(a, b, 2, 0) as i32, mul_at(a, b, 2, 1) as i32, mul_at(a, b, 2, 2) as i32, mul_at(a, b, 2, 3) as i32],
            [mul_at(a, b, 3, 0) as i32, mul_at(a, b, 3, 1) as i32, mul_at(a, b, 3, 2) as i32, mul_at(a, b, 3, 3) as i32],
        ],
    )
}

/// Component `c` of the row vector `v` times `m`.
pub open spec fn vec_mul_at(v: Vector4, m: Matrix4x4, c: int) -> int {
    clamp_i32(
        floor_div(
            v.x * at(m, 0, c) + v.y * at(m, 1, c) + v.z * at(m, 2, c) + v.w * at(m, 3, c),
            65536,
        ),
    )
}

/// The row vector `v` times `m`.
pub open spec fn vec_mul(m: Matrix4x4, v: Vector4) -> Vector4 {
    Vector4 {
        x: vec_mul_at(v, m, 0) as i32,
        y: vec_mul_at(v, m, 1) as i32,
        z: vec_mul_at(v, m, 2) as i32,
        w: vec_mul_at(v, m, 3) as i32,
    }
}

pub open spec fn identity_spec() -> Matrix4x4 {
    mat_of([[65536, 0, 0, 0], [0, 65536, 0, 0], [0, 0, 65536, 0], [0, 0, 0, 65536]])
}

/// The rows of a view-to-world matrix: right, up, forward, position.
pub open spec fn basis_spec(right: Vector3, up: Vector3, forward: Vector3, pos: Vector3) -> Matrix4x4 {
    mat_of(
        [
            [right.x, right.y, right.z, 0],
            [up.x, up.y, up.z, 0],
            [forward.x, forward.y, forward.z, 0],
            [pos.x, pos.y, pos.z, 65536],
        ],
    )
}

/// The matrix that places a camera at `pos` looking at `target`, with `up`
/// as the rough up direction: its rows are the right, up and forward
/// directions and the position.
pub open spec fn point_at_spec(pos: Vector3, target: Vector3, up: Vector3) -> Matrix4x4 {
    let forward = v3_normalize(v3_sub(target, pos));
    let a = v3_scale(forward, v3_dot(up, forward));
    let new_up = v3_normalize(v3_sub(up, a));
    let right = v3_cross(new_up, forward);
    basis_spec(right, new_up, forward, pos)
}

/// Dot product of rows `i` and `j` of the rotation block.
pub open spec fn block_row_dot(a: Matrix4x4, i: int, j: int) -> int {
    at(a, i, 0) * at(a, j, 0) + at(a, i, 1) * at(a, j, 1) + at(a, i, 2) * at(a, j, 2)
}

/// `a` is a rigid transform: its rotation block has orthonormal rows
/// (exactly, in Q16.16), its last column is `(0, 0, 0, 1)`, and its
/// translation lies within 8192 whole units of the origin.
pub open spec fn is_rigid(a: Matrix4x4) -> bool {
    &&& forall|i: int, j: int|
        0 <= i < 3 && 0 <= j < 3 ==> #[trigger] block_row_dot(a, i, j) == if i == j {
            0x1_0000_0000int
        } else {
            0int
        }
    &&& at(a, 0, 3) == 0 && at(a, 1, 3) == 0 && at(a, 2, 3) == 0 && at(a, 3, 3) == 65536
    &&& -0x2000_0000 <= at(a, 3, 0) <= 0x2000_0000
    &&& -0x2000_0000 <= at(a, 3, 1) <= 0x2000_0000
    &&& -0x2000_0000 <= at(a, 3, 2) <= 0x2000_0000
}

/// `a` is a rotation up to rounding: the rows of its rotation block are
/// pairwise orthogonal and of unit length, each dot product within `tol`
/// raw units squared of the identity's; its last row and column are those
/// of the identity.
pub open spec fn is_near_rotation(a: Matrix4x4, tol: int) -> bool {
    &&& forall|i: int, j: int|
        0 <= i < 3 && 0 <= j < 3 ==> {
            let d = #[trigger] block_row_dot(a, i, j) - if i == j { 0x1_0000_0000int } else { 0int };
            -tol <= d <= tol
        }
    &&& at(a, 0, 3) == 0 && at(a, 1, 3) == 0 && at(a, 2, 3) == 0 && at(a, 3, 3) == 65536
    &&& at(a, 3, 0) == 0 && at(a, 3, 1) == 0 && at(a, 3, 2) == 0
}

/// Entry `(3, c)` of the quick inverse: minus the translation row times
/// column `c` of the transposed rotation block.
pub open spec fn inverse_translation_at(a: Matrix4x4, c: int) -> int {
    clamp_i32(
        -floor_div(at(a, 3, 0) * at(a, c, 0) + at(a, 3, 1) * at(a, c, 1) + at(a, 3, 2) * at(a, c, 2), 65536),
    )
}

/// The inverse of a rigid transform: the rotation block transposed and the
/// translation carried back through it.
pub open spec fn quick_inverse_spec(a: Matrix4x4) -> Matrix4x4 {
    mat_of(
        [
            [a.m[0][0], a.m[1][0], a.m[2][0], 0],
            [a.m[0][1], a.m[1][1], a.m[2][1], 0],
            [a.m[0][2], a.m[1][2], a.m[2][2], 0],
            [
                inverse_translation_at(a, 0) as i32,
                inverse_translation_at(a, 1) as i32,
                inverse_translation_at(a, 2) as i32,
                65536,
            ],
        ],
    )
}

/// The perspective projection for the near and far planes `near`, `far`,
/// the focal scale `f` (`1 / tan(fov / 2)`) and the aspect ratio `aspect`
/// (all Q16.16).
pub open spec fn projection_spec(near: int, far: int, f: int, aspect: int) -> Matrix4x4 {
    mat_of(
        [
            [fx_mul_spec(aspect, f) as i32, 0, 0, 0],
            [0, f as i32, 0, 0],
            [0, 0, fx_div_spec(far, far - near) as i32, 65536],
            [0, 0, fx_div_spec(-fx_mul_spec(far, near), far - near) as i32, 0],
        ],
    )
}

/// Sum of four products of `i32` values, exactly.
fn dot4_wide(a0: i32, a1: i32, a2: i32, a3: i32, b0: i32, b1: i32, b2: i32, b3: i32) -> (r: i128)
    ensures
        r == a0 * b0 + a1 * b1 + a2 * b2 + a3 * b3,
        -0x1_0000_0000_0000_0000 <= r <= 0x1_0000_0000_0000_0000,
{
    proof {
        lemma_i32_product_bound(a0 as int, b0 as int);
        lemma_i32_product_bound(a1 as int, b1 as int);
        lemma_i32_product_bound(a2 as int, b2 as int);
        lemma_i32_product_bound(a3 as int, b3 as int);
    }
    (a0 as i128) * (b0 as i128) + (a1 as i128) * (b1 as i128) + (a2 as i128) * (b2 as i128) + (
    a3 as i128) * (b3 as i128)
}

/// Quotient of two wide values, as a fixed-point number, saturated.
fn fx_div_wide(a: i64, b: i64) -> (r: i32)
    requires
        b != 0,
        -0x1_0000_0000 <= a <= 0x1_0000_0000,
        -0x1_0000_0000 <= b <= 0x1_0000_0000,
    ensures
        r == fx_div_spec(a as int, b as int),
{
    clamp_to_i32(floor_div_i128((a as i128) * 65536, b as i128))
}

impl Matrix4x4 {
    pub fn identity() -> (r: Self)
        ensures
            r == identity_spec(),
    {
        Self {
            m: [[FX_ONE, 0, 0, 0], [0, FX_ONE, 0, 0], [0, 0, FX_ONE, 0], [0, 0, 0, FX_ONE]],
        }
    }

    pub fn zero() -> (r: Self)
        ensures
            r == mat_of([[0, 0, 0, 0], [0, 0, 0, 0], [0, 0, 0, 0], [0, 0, 0, 0]]),
    {
        Self { m: [[0, 0, 0, 0], [0, 0, 0, 0], [0, 0, 0, 0], [0, 0, 0, 0]] }
    }

    /// Translation by `to`.
    pub fn translation(to: Vector3) -> (r: Self)
        ensures
            r == mat_of([[65536, 0, 0, 0], [0, 65536, 0, 0], [0, 0, 65536, 0], [to.x, to.y, to.z, 65536]]),
    {
        Self { m: [[FX_ONE, 0, 0, 0], [0, FX_ONE, 0, 0], [0, 0, FX_ONE, 0], [to.x, to.y, to.z, FX_ONE]] }
    }

    /// Rotation about the x axis.
    pub fn rotation_x(angle: Angle) -> (r: Self)
        ensures
            r == mat_of(
                [
                    [65536, 0, 0, 0],
                    [0, angle.cos, angle.sin, 0],
                    [0, clamp_i32(-angle.sin) as i32, angle.cos, 0],
                    [0, 0, 0, 65536],
                ],
            ),
    {
        let ns = neg_sat(angle.sin);
        Self {
            m: [[FX_ONE, 0, 0, 0], [0, angle.cos, angle.sin, 0], [0, ns, angle.cos, 0], [0, 0, 0, FX_ONE]],
        }
    }

    /// Rotation about the y axis.
    pub fn rotation_y(angle: Angle) -> (r: Self)
        ensures
            r == mat_of(
                [
                    [angle.cos, 0, clamp_i32(-angle.sin) as i32, 0],
                    [0, 65536, 0, 0],
                    [angle.sin, 0, angle.cos, 0],
                    [0, 0, 0, 65536],
                ],
            ),
    {
        let ns = neg_sat(angle.sin);
        Self {
            m: [[angle.cos, 0, ns, 0], [0, FX_ONE, 0, 0], [angle.sin, 0, angle.cos, 0], [0, 0, 0, FX_ONE]],
        }
    }

    /// Rotation about the z axis.
    pub fn rotation_z(angle: Angle) -> (r: Self)
        ensures
            r == mat_of(
                [
                    [angle.cos, angle.sin, 0, 0],
                    [clamp_i32(-angle.sin) as i32, angle.cos, 0, 0],
                    [0, 0, 65536, 0],
                    [0, 0, 0, 65536],
                ],
            ),
    {
        let ns = neg_sat(angle.sin);
        Self {
            m: [[angle.cos, angle.sin, 0, 0], [ns, angle.cos, 0, 0], [0, 0, FX_ONE, 0], [0, 0, 0, FX_ONE]],
        }
    }

    /// Entry `(r, c)` of `a * b`.
    fn mul_entry(a: &Self, b: &Self, r: usize, c: usize) -> (e: i32)
        requires
            r < 4 && c < 4,
        ensures
            e == mul_at(*a, *b, r as int, c as int),
    {
        let s = dot4_wide(a.m[r][0], a.m[r][1], a.m[r][2], a.m[r][3], b.m[0][c], b.m[1][c], b.m[2][c], b.m[3][c]);
        clamp_to_i32(floor_div_i128(s, 65536))
    }

    /// The product `a * b` (apply `a`, then `b`).
    pub fn multiply_matrix(a: &Self, b: &Self) -> (r: Self)
        ensures
            is_product(r, *a, *b),
            r == mat_mul(*a, *b),
    {
        let m = [
            [Self::mul_entry(a, b, 0, 0), Self::mul_entry(a, b, 0, 1), Self::mul_entry(a, b, 0, 2), Self::mul_entry(a, b, 0, 3)],
            [Self::mul_entry(a, b, 1, 0), Self::mul_entry(a, b, 1, 1), Self::mul_entry(a, b, 1, 2), Self::mul_entry(a, b, 1, 3)],
            [Self::mul_entry(a, b, 2, 0), Self::mul_entry(a, b, 2, 1), Self::mul_entry(a, b, 2, 2), Self::mul_entry(a, b, 2, 3)],
            [Self::mul_entry(a, b, 3, 0), Self::mul_entry(a, b, 3, 1), Self::mul_entry(a, b, 3, 2), Self::mul_entry(a, b, 3, 3)],
        ];
        let r = Self { m };
        assert forall|i: int, j: int| 0 <= i < 4 && 0 <= j < 4 implies #[trigger] at(r, i, j) == mul_at(*a, *b, i, j) by {
            if i == 0 {
                assert(j == 0 || j == 1 || j == 2 || j == 3);
            }
        }
        r
    }

    /// The row vector `vec` times `mat`.
    pub fn multiply_vec(mat: &Self, vec: &Vector4) -> (r: Vector4)
        ensures
            r == vec_mul(*mat, *vec),
    {
        let m = &mat.m;
        let nx = dot4_wide(vec.x, vec.y, vec.z, vec.w, m[0][0], m[1][0], m[2][0], m[3][0]);
        let ny = dot4_wide(vec.x, vec.y, vec.z, vec.w, m[0][1], m[1][1], m[2][1], m[3][1]);
        let nz = dot4_wide(vec.x, vec.y, vec.z, vec.w, m[0][2], m[1][2], m[2][2], m[3][2]);
        let nw = dot4_wide(vec.x, vec.y, vec.z, vec.w, m[0][3], m[1][3], m[2][3], m[3][3]);
        Vector4 {
            x: clamp_to_i32(floor_div_i128(nx, 65536)),
            y: clamp_to_i32(floor_div_i128(ny, 65536)),
            z: clamp_to_i32(floor_div_i128(nz, 65536)),
            w: clamp_to_i32(floor_div_i128(nw, 65536)),
        }
    }

    /// Perspective projection for the near and far planes `f_near` and
    /// `f_far`, the focal scale `f_fov` (`1 / tan(fov / 2)`, Q16.16) and a
    /// viewport of `height` by `width` pixels. Depth maps into `[0, 1]` and
    /// the camera-space depth lands in `w`. Screen sizes are bounded by the
    /// whole part of a Q16.16 value.
    pub fn project(f_near: i32, f_far: i32, f_fov: i32, height: usize, width: usize) -> (r: Matrix4x4)
        requires
            0 < width <= 0x7fff,
            height <= 0x7fff,
            f_near != f_far,
        ensures
            r == projection_spec(
                f_near as int,
                f_far as int,
                f_fov as int,
                fx_div_spec(height as int, width as int),
            ),
    {
        let aspect = fx_div_wide(height as i64, width as i64);
        let depth: i64 = f_far as i64 - f_near as i64;
        let fn_prod = fx_mul(f_far, f_near);
        let mut mat = Matrix4x4::zero();
        mat.m = [
            [fx_mul(aspect, f_fov), 0, 0, 0],
            [0, f_fov, 0, 0],
            [0, 0, fx_div_wide(f_far as i64, depth), FX_ONE],
            [0, 0, fx_div_wide(-(fn_prod as i64), depth), 0],
        ];
        mat
    }

    /// The matrix that places a camera at `pos` looking at `target`, with
    /// `up` as the rough up direction.
    pub fn point_at(pos: Vector3, target: Vector3, up: Vector3) -> (r: Matrix4x4)
        ensures
            r == point_at_spec(pos, target, up),
    {
        let new_forward = target.sub(pos).normalize();
        let a = new_forward.scale(up.dot(new_forward));
        let new_up = up.sub(a).normalize();
        let new_right = new_up.cross(new_forward);
        Matrix4x4 {
            m: [
                [new_right.x, new_right.y, new_right.z, 0],
                [new_up.x, new_up.y, new_up.z, 0],
                [new_forward.x, new_forward.y, new_forward.z, 0],
                [pos.x, pos.y, pos.z, FX_ONE],
            ],
        }
    }

    /// The inverse of a rigid transform (rotation and translation only):
    /// the rotation block transposed, the translation carried back through
    /// it. For a matrix with scale or skew the result is not its inverse;
    /// on a rigid one (`is_rigid`) it is, exactly (see
    /// `lemma_quick_inverse_inverts`).
    pub fn quick_inverse(&self) -> (r: Self)
        ensures
            r == quick_inverse_spec(*self),
    {
        let m = &self.m;
        let t0 = dot4_wide(m[3][0], m[3][1], m[3][2], 0, m[0][0], m[0][1], m[0][2], 0);
        let t1 = dot4_wide(m[3][0], m[3][1], m[3][2], 0, m[1][0], m[1][1], m[1][2], 0);
        let t2 = dot4_wide(m[3][0], m[3][1], m[3][2], 0, m[2][0], m[2][1], m[2][2], 0);
        Matrix4x4 {
            m: [
                [m[0][0], m[1][0], m[2][0], 0],
                [m[0][1], m[1][1], m[2][1], 0],
                [m[0][2], m[1][2], m[2][2], 0],
                [
                    clamp_to_i32(-floor_div_i128(t0, 65536)),
                    clamp_to_i32(-floor_div_i128(t1, 65536)),
                    clamp_to_i32(-floor_div_i128(t2, 65536)),
                    FX_ONE,
                ],
            ],
        }
    }
}

/// Negation, saturated.
fn neg_sat(v: i32) -> (r: i32)
    ensures
        r == clamp_i32(-v),
{
    clamp_to_i32(-(v as i128))
}

} // verus!
