//! Properties that relate several operations: normalizing, projecting and
//! clipping.
use vstd::prelude::*;
use crate::fixed::{clamp_i32, floor_div, isqrt_spec, is_isqrt, lemma_isqrt_unique, fx_mul_spec, fx_div_spec};
use crate::matrix4x4::{
    Matrix4x4, at, vec_mul, projection_spec, mat_mul, mul_at, quick_inverse_spec, identity_spec, is_rigid,
    block_row_dot, inverse_translation_at, Angle, is_near_rotation,
};
use crate::object3d::{rotation_x_spec, rotation_y_spec, rotation_z_spec};
use crate::pipeline::screen_spec;
use crate::vector::{sq3, fine_length_spec, unit_component, sat_add, sat_sub};
use crate::vector3::{Vector3, v3_normalize, v3_magnitude};
use crate::clip::{
    inside_count, is_inside, pick, next3, clip_spec, plane_distance, small_point, unit_bounded,
    lemma_clip_one_inside, lemma_clip_two_inside, lemma_crossing_near_plane,
};
use crate::triangle::{Triangle, vertex_of};
use crate::renderer_2d::abs;
use crate::vector4::{Vector4, v4_normalize, v4_magnitude, v4_zero, v4_perspective_divide};

verus! {

/// Each component of a vector is at most its fine length (in units of
/// 2^-16 of it): `|c| * 2^16 <= isqrt(S * 2^32)` when `c * c <= S`.
proof fn lemma_component_below_length(c: int, s: int, l: int)
    requires
        c * c <= s,
        is_isqrt(l, s * 0x1_0000_0000),
    ensures
        -l <= c * 0x1_0000 <= l,
{
    let a = if c >= 0 { c } else { -c };
    assert(a * a == c * c) by (nonlinear_arith)
        requires
            a == c || a == -c,
    ;
    assert((a * 0x1_0000) * (a * 0x1_0000) <= s * 0x1_0000_0000) by (nonlinear_arith)
        requires
            a * a <= s,
    ;
    assert(s * 0x1_0000_0000 < (l + 1) * (l + 1));
    if a * 0x1_0000 > l {
        assert((l + 1) * (l + 1) <= (a * 0x1_0000) * (a * 0x1_0000)) by (nonlinear_arith)
            requires
                a * 0x1_0000 >= l + 1,
                l >= 0,
        ;
    }
}

/// One component divided by the fine length: it stays within `[-1, 1]`,
/// and its square times `l * l` differs from `(c * 2^32)^2` by the rounding
/// alone.
proof fn lemma_unit_component(c: int, l: int)
    requires
        l > 0,
        -l <= c * 0x1_0000 <= l,
    ensures
        -0x1_0000 <= unit_component(c, l) <= 0x1_0000,
        ({
            let n = unit_component(c, l);
            let a = c * 0x1_0000_0000;
            let b = if a >= 0 { a } else { -a };
            &&& n * n * (l * l) >= a * a - 2 * b * l
            &&& n * n * (l * l) <= a * a + 2 * b * l + l * l
            &&& b <= l * 0x1_0000
        }),
{
    let a = c * 0x1_0000_0000;
    let b = if a >= 0 { a } else { -a };
    let q = floor_div(a, l);
    assert(q == a / l);
    let rem = a % l;
    vstd::arithmetic::div_mod::lemma_fundamental_div_mod(a, l);
    assert(a == l * q + rem);
    assert(0 <= rem < l);
    assert(b <= l * 0x1_0000) by (nonlinear_arith)
        requires
            -l <= c * 0x1_0000 <= l,
            a == c * 0x1_0000_0000,
            b == (if a >= 0 { a } else { -a }),
            l > 0,
    ;
    assert(-0x1_0000 <= q <= 0x1_0000) by (nonlinear_arith)
        requires
            a == l * q + rem,
            0 <= rem < l,
            -(l * 0x1_0000) <= a <= l * 0x1_0000,
            l > 0,
    ;
    assert(unit_component(c, l) == q);
    assert(q * q * (l * l) == (a - rem) * (a - rem)) by (nonlinear_arith)
        requires
            a == l * q + rem,
    ;
    assert((a - rem) * (a - rem) >= a * a - 2 * b * l) by (nonlinear_arith)
        requires
            0 <= rem < l,
            b == (if a >= 0 { a } else { -a }),
    ;
    assert((a - rem) * (a - rem) <= a * a + 2 * b * l + l * l) by (nonlinear_arith)
        requires
            0 <= rem < l,
            b == (if a >= 0 { a } else { -a }),
    ;
}

/// Every natural number has a rounded-down square root.
proof fn lemma_isqrt_exists(n: int)
    requires
        n >= 0,
    ensures
        is_isqrt(isqrt_spec(n), n),
    decreases n,
{
    if n == 0 {
        assert(is_isqrt(0, 0));
        lemma_isqrt_unique(0, 0);
    } else {
        lemma_isqrt_exists(n - 1);
        let r = isqrt_spec(n - 1);
        if (r + 1) * (r + 1) <= n {
            assert(n < (r + 2) * (r + 2)) by (nonlinear_arith)
                requires
                    n - 1 < (r + 1) * (r + 1),
                    r >= 0,
            ;
            assert(is_isqrt(r + 1, n));
            lemma_isqrt_unique(r + 1, n);
        } else {
            assert(is_isqrt(r, n));
            lemma_isqrt_unique(r, n);
        }
    }
}

/// Normalizing a vector gives length 1 up to fixed-point rounding: a
/// nonzero vector comes out with a length within 4 raw units (about
/// 0.00006) of 1.0, and the zero vector stays zero.
pub proof fn lemma_normalize_unit_length(v: Vector3)
    ensures
        (v.x == 0 && v.y == 0 && v.z == 0) ==> v3_normalize(v) == v,
        !(v.x == 0 && v.y == 0 && v.z == 0) ==> 65536 - 4 <= v3_magnitude(v3_normalize(v)) <= 65536 + 4,
{
    if !(v.x == 0 && v.y == 0 && v.z == 0) {
        let x = v.x as int;
        let y = v.y as int;
        let z = v.z as int;
        let s = sq3(x, y, z);
        let k: int = 0x1_0000_0000;
        let l = fine_length_spec(x, y, z);
        assert(x * x >= 0 && y * y >= 0 && z * z >= 0) by (nonlinear_arith);
        assert(s >= 1) by (nonlinear_arith)
            requires
                s == x * x + y * y + z * z,
                x != 0 || y != 0 || z != 0,
                x * x >= 0 && y * y >= 0 && z * z >= 0,
        ;
        lemma_isqrt_exists(s * k);
        assert(is_isqrt(l, s * k));
        assert(l >= 0x1_0000) by (nonlinear_arith)
            requires
                s * k < (l + 1) * (l + 1),
                s >= 1,
                k == 0x1_0000_0000,
                l >= 0,
        ;
        lemma_component_below_length(x, s, l);
        lemma_component_below_length(y, s, l);
        lemma_component_below_length(z, s, l);
        lemma_unit_component(x, l);
        lemma_unit_component(y, l);
        lemma_unit_component(z, l);
        let nx = unit_component(x, l);
        let ny = unit_component(y, l);
        let nz = unit_component(z, l);
        let big = nx * nx + ny * ny + nz * nz;
        let ax = x * k;
        let ay = y * k;
        let az = z * k;
        let bx = if ax >= 0 { ax } else { -ax };
        let by_ = if ay >= 0 { ay } else { -ay };
        let bz = if az >= 0 { az } else { -az };
        let ll = l * l;
        assert(ax * ax == x * x * k * k) by (nonlinear_arith)
            requires
                ax == x * k,
        ;
        assert(ay * ay == y * y * k * k) by (nonlinear_arith)
            requires
                ay == y * k,
        ;
        assert(az * az == z * z * k * k) by (nonlinear_arith)
            requires
                az == z * k,
        ;
        assert(s * k * k == x * x * k * k + y * y * k * k + z * z * k * k) by (nonlinear_arith)
            requires
                s == x * x + y * y + z * z,
        ;
        assert(ll > 0) by (nonlinear_arith)
            requires
                l >= 0x1_0000,
                ll == l * l,
        ;
        assert(big * ll == nx * nx * ll + ny * ny * ll + nz * nz * ll) by (nonlinear_arith)
            requires
                big == nx * nx + ny * ny + nz * nz,
        ;
        assert(2 * bx * l + 2 * by_ * l + 2 * bz * l <= 6 * 0x1_0000 * ll) by (nonlinear_arith)
            requires
                bx <= l * 0x1_0000,
                by_ <= l * 0x1_0000,
                bz <= l * 0x1_0000,
                l >= 0,
                ll == l * l,
        ;
        assert(s * k * k >= k * ll) by (nonlinear_arith)
            requires
                ll <= s * k,
                ll == l * l,
                k > 0,
        ;
        assert((k - 6 * 0x1_0000) * ll == k * ll - 6 * 0x1_0000 * ll) by (nonlinear_arith);
        assert(big * ll >= (k - 6 * 0x1_0000) * ll);
        assert(big >= k - 6 * 0x1_0000) by (nonlinear_arith)
            requires
                big * ll >= (k - 6 * 0x1_0000) * ll,
                ll > 0,
        ;
        assert(s * k * k <= k * ll + 2 * k * l + k) by (nonlinear_arith)
            requires
                s * k < (l + 1) * (l + 1),
                ll == l * l,
                k > 0,
        ;
        assert(2 * k * l <= 2 * 0x1_0000 * ll && k <= ll) by (nonlinear_arith)
            requires
                l >= 0x1_0000,
                k == 0x1_0000_0000,
                ll == l * l,
        ;
        assert((k + 2 * 0x1_0000 + 1 + 6 * 0x1_0000 + 3) * ll == k * ll + 2 * 0x1_0000 * ll + ll + 6 * 0x1_0000 * ll + 3 * ll) by (nonlinear_arith);
        assert(big * ll <= (k + 2 * 0x1_0000 + 1 + 6 * 0x1_0000 + 3) * ll);
        assert(big <= k + 8 * 0x1_0000 + 4) by (nonlinear_arith)
            requires
                big * ll <= (k + 2 * 0x1_0000 + 1 + 6 * 0x1_0000 + 3) * ll,
                ll > 0,
        ;
        let nv = v3_normalize(v);
        assert(nv.x == nx && nv.y == ny && nv.z == nz);
        assert(sq3(nv.x as int, nv.y as int, nv.z as int) == big);
        lemma_isqrt_exists(big);
        let r = isqrt_spec(big);
        assert(r >= 65532) by (nonlinear_arith)
            requires
                big < (r + 1) * (r + 1),
                big >= 0x1_0000_0000 - 6 * 0x1_0000,
                r >= 0,
        ;
        assert(r <= 65540) by (nonlinear_arith)
            requires
                r * r <= big,
                big <= 0x1_0000_0000 + 8 * 0x1_0000 + 4,
                r >= 0,
        ;
        assert(v3_magnitude(nv) == r);
    }
}

/// The same for homogeneous vectors, whose length reads `x`, `y` and `z`:
/// a vector with a nonzero `x`, `y`, `z` part normalizes to length 1
/// within 4 raw units, and one without normalizes to the zero point.
pub proof fn lemma_normalize4_unit_length(v: Vector4)
    ensures
        (v.x == 0 && v.y == 0 && v.z == 0) ==> v4_normalize(v) == v4_zero(),
        !(v.x == 0 && v.y == 0 && v.z == 0) ==> 65536 - 4 <= v4_magnitude(v4_normalize(v)) <= 65536 + 4,
{
    let v3 = Vector3 { x: v.x, y: v.y, z: v.z };
    lemma_normalize_unit_length(v3);
    let n = v4_normalize(v);
    let m = v3_normalize(v3);
    if !(v.x == 0 && v.y == 0 && v.z == 0) {
        assert(n.x == m.x && n.y == m.y && n.z == m.z);
    }
}

/// Undoing a division by `w > 0` by multiplying back by `w` lands within
/// `w / 65536 + 1` raw units of the value divided, when the quotient does
/// not saturate.
proof fn lemma_divide_then_multiply(c: int, w: int)
    requires
        0 < w <= i32::MAX,
        i32::MIN <= c <= i32::MAX,
        i32::MIN <= floor_div(c * 65536, w) <= i32::MAX,
    ensures
        ({
            let back = fx_mul_spec(fx_div_spec(c, w), w);
            c - w / 65536 - 1 <= back <= c
        }),
{
    let d = floor_div(c * 65536, w);
    assert(d == (c * 65536) / w);
    assert(fx_div_spec(c, w) == d);
    vstd::arithmetic::div_mod::lemma_fundamental_div_mod(c * 65536, w);
    let rem = (c * 65536) % w;
    assert(c * 65536 == w * d + rem && 0 <= rem < w);
    let e = floor_div(d * w, 65536);
    assert(e == (d * w) / 65536);
    vstd::arithmetic::div_mod::lemma_fundamental_div_mod(d * w, 65536);
    let rem2 = (d * w) % 65536;
    assert(d * w == 65536 * e + rem2 && 0 <= rem2 < 65536);
    assert(c - w / 65536 - 1 <= e <= c) by (nonlinear_arith)
        requires
            c * 65536 == w * d + rem,
            0 <= rem < w,
            d * w == 65536 * e + rem2,
            0 <= rem2 < 65536,
            w > 0,
    ;
}

/// Projecting a camera-space point and dividing by `w` is undone up to
/// rounding: the projection puts the point's depth into `w` exactly, scales
/// `x` and `y` by the aspect-corrected focal scale and the focal scale, and
/// multiplying the divided coordinates back by `w` recovers them within
/// `w / 65536 + 1` raw units. Points whose divided coordinates would
/// saturate (more than 32768 units off the view axis per unit of depth) are
/// left out.
pub proof fn lemma_projection_round_trip(near: i32, far: i32, f: i32, aspect: i32, p: Vector4)
    requires
        p.w == 65536,
        p.z > 0,
        ({
            let c = vec_mul(projection_spec(near as int, far as int, f as int, aspect as int), p);
            &&& i32::MIN <= floor_div(c.x * 65536, c.w as int) <= i32::MAX
            &&& i32::MIN <= floor_div(c.y * 65536, c.w as int) <= i32::MAX
        }),
    ensures
        ({
            let c = vec_mul(projection_spec(near as int, far as int, f as int, aspect as int), p);
            let d = v4_perspective_divide(c);
            &&& c.w == p.z
            &&& c.x == fx_mul_spec(p.x as int, fx_mul_spec(aspect as int, f as int))
            &&& c.y == fx_mul_spec(p.y as int, f as int)
            &&& c.x - c.w / 65536 - 1 <= fx_mul_spec(d.x as int, c.w as int) <= c.x
            &&& c.y - c.w / 65536 - 1 <= fx_mul_spec(d.y as int, c.w as int) <= c.y
        }),
{
    let m = projection_spec(near as int, far as int, f as int, aspect as int);
    let c = vec_mul(m, p);
    let z = p.z as int;
    assert(at(m, 0, 3) == 0 && at(m, 1, 3) == 0 && at(m, 2, 3) == 65536 && at(m, 3, 3) == 0);
    let (m03, m13, m23, m33) = (at(m, 0, 3), at(m, 1, 3), at(m, 2, 3), at(m, 3, 3));
    assert(p.x * m03 + p.y * m13 + p.z * m23 + p.w * m33 == z * 65536) by (nonlinear_arith)
        requires
            m03 == 0 && m13 == 0 && m23 == 65536 && m33 == 0,
            z == p.z,
    ;
    assert(floor_div(z * 65536, 65536) == z) by {
        assert((z * 65536) / 65536 == z) by (nonlinear_arith);
    }
    assert(c.w == p.z);
    assert(at(m, 1, 0) == 0 && at(m, 2, 0) == 0 && at(m, 3, 0) == 0);
    let (m00, m10, m20, m30) = (at(m, 0, 0), at(m, 1, 0), at(m, 2, 0), at(m, 3, 0));
    assert(p.x * m00 + p.y * m10 + p.z * m20 + p.w * m30 == p.x * m00) by (nonlinear_arith)
        requires
            m10 == 0 && m20 == 0 && m30 == 0,
    ;
    assert(at(m, 0, 1) == 0 && at(m, 2, 1) == 0 && at(m, 3, 1) == 0);
    let (m01, m11, m21, m31) = (at(m, 0, 1), at(m, 1, 1), at(m, 2, 1), at(m, 3, 1));
    assert(p.x * m01 + p.y * m11 + p.z * m21 + p.w * m31 == p.y * m11) by (nonlinear_arith)
        requires
            m01 == 0 && m21 == 0 && m31 == 0,
    ;
    let aspect_f = fx_mul_spec(aspect as int, f as int);
    assert(i32::MIN <= aspect_f <= i32::MAX);
    assert(at(m, 0, 0) == aspect_f);
    assert(c.x == fx_mul_spec(p.x as int, aspect_f));
    assert(c.y == fx_mul_spec(p.y as int, f as int));
    lemma_divide_then_multiply(c.x as int, z);
    lemma_divide_then_multiply(c.y as int, z);
}

/// A normalized normal has components of at most 1.0.
proof fn lemma_normalize_unit_bounded(pn: Vector4)
    ensures
        unit_bounded(v4_normalize(pn)),
{
    if !(pn.x == 0 && pn.y == 0 && pn.z == 0) {
        let x = pn.x as int;
        let y = pn.y as int;
        let z = pn.z as int;
        let s = sq3(x, y, z);
        assert(x * x >= 0 && y * y >= 0 && z * z >= 0) by (nonlinear_arith);
        lemma_isqrt_exists(s * 0x1_0000_0000);
        let l = fine_length_spec(x, y, z);
        assert(s >= 1) by (nonlinear_arith)
            requires
                s == x * x + y * y + z * z,
                x != 0 || y != 0 || z != 0,
                x * x >= 0 && y * y >= 0 && z * z >= 0,
        ;
        assert(l > 0) by (nonlinear_arith)
            requires
                s * 0x1_0000_0000 < (l + 1) * (l + 1),
                s >= 1,
                l >= 0,
        ;
        lemma_component_below_length(x, s, l);
        lemma_component_below_length(y, s, l);
        lemma_component_below_length(z, s, l);
        lemma_unit_component(x, l);
        lemma_unit_component(y, l);
        lemma_unit_component(z, l);
    }
}

/// Clipping a triangle with exactly one vertex on the kept side gives one
/// triangle: that vertex, then two points on the plane up to rounding. Each
/// new point's signed distance from the plane (raw units along the unit
/// normal) is at least -4 and at most 6 plus the extent of its edge along
/// the three axes in whole units. Coordinates are kept within 8192 whole
/// units, so that nothing saturates.
pub proof fn lemma_clip_one_inside_near_plane(plane_p: Vector4, plane_n: Vector4, t: Triangle)
    requires
        inside_count(plane_p, v4_normalize(plane_n), t) == 1,
        small_point(t.v1),
        small_point(t.v2),
        small_point(t.v3),
        small_point(plane_p),
    ensures
        ({
            let n = v4_normalize(plane_n);
            let f0 = is_inside(plane_p, n, t.v1);
            let f1 = is_inside(plane_p, n, t.v2);
            let f2 = is_inside(plane_p, n, t.v3);
            let a = vertex_of(t, pick(f0, f1, f2, true, 0));
            let b0 = vertex_of(t, next3(pick(f0, f1, f2, true, 0)));
            let b1 = vertex_of(t, next3(next3(pick(f0, f1, f2, true, 0))));
            let r = clip_spec(plane_p, n, t);
            let d1 = plane_distance(plane_p, n, r[0].v2);
            let d2 = plane_distance(plane_p, n, r[0].v3);
            &&& r.len() == 1
            &&& r[0].v1 == a
            &&& -4 <= d1 <= 6 + (abs(b0.x - a.x) + abs(b0.y - a.y) + abs(b0.z - a.z)) / 65536
            &&& -4 <= d2 <= 6 + (abs(b1.x - a.x) + abs(b1.y - a.y) + abs(b1.z - a.z)) / 65536
        }),
{
    let n = v4_normalize(plane_n);
    lemma_normalize_unit_bounded(plane_n);
    lemma_clip_one_inside(plane_p, n, t);
    let f0 = is_inside(plane_p, n, t.v1);
    let f1 = is_inside(plane_p, n, t.v2);
    let f2 = is_inside(plane_p, n, t.v3);
    let a = vertex_of(t, pick(f0, f1, f2, true, 0));
    let b0 = vertex_of(t, next3(pick(f0, f1, f2, true, 0)));
    let b1 = vertex_of(t, next3(next3(pick(f0, f1, f2, true, 0))));
    lemma_crossing_near_plane(plane_p, n, a, b0);
    lemma_crossing_near_plane(plane_p, n, a, b1);
}

/// Clipping a triangle with exactly two vertices on the kept side gives
/// two triangles in the input's winding order, `(a, b, ib)` and
/// `(a, ib, ia)` (with `o` the dropped vertex, `a` and `b` the ones after
/// it, `ia` and `ib` the crossings on their edges to `o`). They share the
/// diagonal `a -> ib`, and both crossings lie on the plane up to rounding
/// (as for one kept vertex). Coordinates are kept within 8192 whole units.
pub proof fn lemma_clip_two_inside_near_plane(plane_p: Vector4, plane_n: Vector4, t: Triangle)
    requires
        inside_count(plane_p, v4_normalize(plane_n), t) == 2,
        small_point(t.v1),
        small_point(t.v2),
        small_point(t.v3),
        small_point(plane_p),
    ensures
        ({
            let n = v4_normalize(plane_n);
            let f0 = is_inside(plane_p, n, t.v1);
            let f1 = is_inside(plane_p, n, t.v2);
            let f2 = is_inside(plane_p, n, t.v3);
            let o = pick(f0, f1, f2, false, 0);
            let a0 = vertex_of(t, next3(o));
            let a1 = vertex_of(t, next3(next3(o)));
            let b = vertex_of(t, o);
            let r = clip_spec(plane_p, n, t);
            let d0 = plane_distance(plane_p, n, r[1].v3);
            let d1 = plane_distance(plane_p, n, r[0].v3);
            &&& r.len() == 2
            &&& r[0].v1 == a0 && r[0].v2 == a1 && r[1].v1 == a0
            &&& r[0].v3 == r[1].v2
            &&& -4 <= d0 <= 6 + (abs(b.x - a0.x) + abs(b.y - a0.y) + abs(b.z - a0.z)) / 65536
            &&& -4 <= d1 <= 6 + (abs(b.x - a1.x) + abs(b.y - a1.y) + abs(b.z - a1.z)) / 65536
        }),
{
    let n = v4_normalize(plane_n);
    lemma_normalize_unit_bounded(plane_n);
    lemma_clip_two_inside(plane_p, n, t);
    let f0 = is_inside(plane_p, n, t.v1);
    let f1 = is_inside(plane_p, n, t.v2);
    let f2 = is_inside(plane_p, n, t.v3);
    let o = pick(f0, f1, f2, false, 0);
    let a0 = vertex_of(t, next3(o));
    let a1 = vertex_of(t, next3(next3(o)));
    let b = vertex_of(t, o);
    lemma_crossing_near_plane(plane_p, n, a0, b);
    lemma_crossing_near_plane(plane_p, n, a1, b);
}

/// Scaling by `h >= 2^15` and dividing back by `h` loses at most 2 raw
/// units, when the product does not saturate.
proof fn lemma_multiply_then_divide(c: int, h: int)
    requires
        32768 <= h <= i32::MAX,
        i32::MIN <= c <= i32::MAX,
        i32::MIN <= floor_div(c * h, 65536) <= i32::MAX,
    ensures
        c - 2 <= fx_div_spec(fx_mul_spec(c, h), h) <= c,
{
    let k = (c * h) / 65536;
    assert(floor_div(c * h, 65536) == k);
    assert(fx_mul_spec(c, h) == k);
    vstd::arithmetic::div_mod::lemma_fundamental_div_mod(c * h, 65536);
    let r1 = (c * h) % 65536;
    let m = (k * 65536) / h;
    assert(floor_div(k * 65536, h) == m);
    vstd::arithmetic::div_mod::lemma_fundamental_div_mod(k * 65536, h);
    let r2 = (k * 65536) % h;
    assert(c - 2 <= m <= c) by (nonlinear_arith)
        requires
            c * h == 65536 * k + r1,
            0 <= r1 < 65536,
            k * 65536 == h * m + r2,
            0 <= r2 < h,
            h >= 32768,
    ;
    assert(fx_div_spec(k, h) == clamp_i32(m));
}

/// Mapping normalized device coordinates to pixels is undone by the
/// inverse mapping (`x = s.x / (width / 2) - 1`, `y = 1 - s.y / (height /
/// 2)`) within 2 raw units. Coordinates whose pixel position would
/// saturate are left out.
pub proof fn lemma_screen_round_trip(p: Vector3, width: int, height: int)
    requires
        1 <= width <= 0x7fff,
        1 <= height <= 0x7fff,
        p.x + 65536 <= i32::MAX,
        65536 - p.y <= i32::MAX,
        i32::MIN <= floor_div((p.x + 65536) * (width * 32768), 65536) <= i32::MAX,
        i32::MIN <= floor_div((65536 - p.y) * (height * 32768), 65536) <= i32::MAX,
    ensures
        ({
            let s = screen_spec(p, width, height);
            &&& p.x - 2 <= fx_div_spec(s.x as int, width * 32768) - 65536 <= p.x
            &&& p.y <= 65536 - fx_div_spec(s.y as int, height * 32768) <= p.y + 2
        }),
{
    assert(32768 <= width * 32768 <= i32::MAX && 32768 <= height * 32768 <= i32::MAX) by (nonlinear_arith)
        requires
            1 <= width <= 0x7fff,
            1 <= height <= 0x7fff,
    ;
    assert(sat_add(p.x as int, 65536) == p.x + 65536);
    assert(sat_sub(65536, p.y as int) == 65536 - p.y);
    lemma_multiply_then_divide(p.x + 65536, width * 32768);
    lemma_multiply_then_divide(65536 - p.y, height * 32768);
}

/// A row of unit length has entries of at most 1.0.
proof fn lemma_unit_row_entries(x: int, y: int, z: int)
    requires
        x * x + y * y + z * z == 0x1_0000_0000,
    ensures
        -65536 <= x <= 65536 && -65536 <= y <= 65536 && -65536 <= z <= 65536,
{
    assert(x * x >= 0 && y * y >= 0 && z * z >= 0) by (nonlinear_arith);
    assert(-65536 <= x <= 65536) by (nonlinear_arith)
        requires
            x * x <= 0x1_0000_0000,
    ;
    assert(-65536 <= y <= 65536) by (nonlinear_arith)
        requires
            y * y <= 0x1_0000_0000,
    ;
    assert(-65536 <= z <= 65536) by (nonlinear_arith)
        requires
            z * z <= 0x1_0000_0000,
    ;
}

/// `quick_inverse` inverts a rigid transform: the transform followed by its
/// quick inverse is exactly the identity.
pub proof fn lemma_quick_inverse_inverts(m: Matrix4x4)
    requires
        is_rigid(m),
    ensures
        mat_mul(m, quick_inverse_spec(m)) == identity_spec(),
{
    let q = quick_inverse_spec(m);
    assert(block_row_dot(m, 0, 0) == 0x1_0000_0000int);
    assert(block_row_dot(m, 1, 1) == 0x1_0000_0000int);
    assert(block_row_dot(m, 2, 2) == 0x1_0000_0000int);
    assert(block_row_dot(m, 0, 1) == 0 && block_row_dot(m, 0, 2) == 0 && block_row_dot(m, 1, 0) == 0);
    assert(block_row_dot(m, 1, 2) == 0 && block_row_dot(m, 2, 0) == 0 && block_row_dot(m, 2, 1) == 0);
    lemma_unit_row_entries(at(m, 0, 0), at(m, 0, 1), at(m, 0, 2));
    lemma_unit_row_entries(at(m, 1, 0), at(m, 1, 1), at(m, 1, 2));
    lemma_unit_row_entries(at(m, 2, 0), at(m, 2, 1), at(m, 2, 2));
    // rows 0..2 of the product
    assert forall|i: int, c: int| 0 <= i < 3 && 0 <= c < 3 implies mul_at(m, q, i, c) == if i == c {
        65536int
    } else {
        0int
    } by {
        assert(at(q, 0, c) == at(m, c, 0) && at(q, 1, c) == at(m, c, 1) && at(q, 2, c) == at(m, c, 2));
        let s = at(m, i, 0) * at(q, 0, c) + at(m, i, 1) * at(q, 1, c) + at(m, i, 2) * at(q, 2, c) + at(m, i, 3) * at(q, 3, c);
        assert(at(m, i, 3) == 0);
        assert(at(m, i, 3) * at(q, 3, c) == 0) by (nonlinear_arith)
            requires
                at(m, i, 3) == 0,
        ;
        assert(s == block_row_dot(m, i, c));
        if i == c {
            assert(floor_div(0x1_0000_0000, 65536) == 65536);
        } else {
            assert(floor_div(0, 65536) == 0);
        }
    }
    assert forall|i: int| 0 <= i < 3 implies mul_at(m, q, i, 3) == 0 by {
        assert(at(q, 0, 3) == 0 && at(q, 1, 3) == 0 && at(q, 2, 3) == 0 && at(q, 3, 3) == 65536);
        assert(at(m, i, 3) == 0);
        let (a0, a1, a2) = (at(m, i, 0), at(m, i, 1), at(m, i, 2));
        assert(a0 * at(q, 0, 3) + a1 * at(q, 1, 3) + a2 * at(q, 2, 3) + at(m, i, 3) * at(q, 3, 3) == 0) by (nonlinear_arith)
            requires
                at(q, 0, 3) == 0 && at(q, 1, 3) == 0 && at(q, 2, 3) == 0 && at(m, i, 3) == 0,
        ;
        assert(floor_div(0, 65536) == 0);
    }
    // the translation row
    assert forall|c: int| 0 <= c < 3 implies mul_at(m, q, 3, c) == 0 by {
        let (t0, t1, t2) = (at(m, 3, 0), at(m, 3, 1), at(m, 3, 2));
        let (r0, r1, r2) = (at(m, c, 0), at(m, c, 1), at(m, c, 2));
        let sc = t0 * r0 + t1 * r1 + t2 * r2;
        assert(-3 * 0x2000_0000 * 65536 <= sc <= 3 * 0x2000_0000 * 65536) by (nonlinear_arith)
            requires
                -0x2000_0000 <= t0 <= 0x2000_0000,
                -0x2000_0000 <= t1 <= 0x2000_0000,
                -0x2000_0000 <= t2 <= 0x2000_0000,
                -65536 <= r0 <= 65536,
                -65536 <= r1 <= 65536,
                -65536 <= r2 <= 65536,
                sc == t0 * r0 + t1 * r1 + t2 * r2,
        ;
        let fl = sc / 65536;
        assert(floor_div(sc, 65536) == fl);
        vstd::arithmetic::div_mod::lemma_fundamental_div_mod(sc, 65536);
        let rem = sc % 65536;
        assert(sc == 65536 * fl + rem && 0 <= rem < 65536);
        assert(-3 * 0x2000_0000 - 1 <= fl <= 3 * 0x2000_0000) by (nonlinear_arith)
            requires
                sc == 65536 * fl + rem,
                0 <= rem < 65536,
                -3 * 0x2000_0000 * 65536 <= sc <= 3 * 0x2000_0000 * 65536,
        ;
        assert(inverse_translation_at(m, c) == -fl);
        assert(at(q, 3, c) == -fl);
        assert(at(q, 0, c) == r0 && at(q, 1, c) == r1 && at(q, 2, c) == r2);
        assert(at(m, 3, 3) == 65536);
        let total = t0 * at(q, 0, c) + t1 * at(q, 1, c) + t2 * at(q, 2, c) + at(m, 3, 3) * at(q, 3, c);
        assert(total == rem) by (nonlinear_arith)
            requires
                total == t0 * at(q, 0, c) + t1 * at(q, 1, c) + t2 * at(q, 2, c) + at(m, 3, 3) * at(q, 3, c),
                at(q, 0, c) == r0 && at(q, 1, c) == r1 && at(q, 2, c) == r2,
                at(m, 3, 3) == 65536,
                at(q, 3, c) == -fl,
                sc == t0 * r0 + t1 * r1 + t2 * r2,
                sc == 65536 * fl + rem,
        ;
        assert(rem / 65536 == 0);
        assert(floor_div(total, 65536) == 0);
    }
    assert(mul_at(m, q, 3, 3) == 65536) by {
        assert(at(q, 0, 3) == 0 && at(q, 1, 3) == 0 && at(q, 2, 3) == 0 && at(q, 3, 3) == 65536);
        let (t0, t1, t2) = (at(m, 3, 0), at(m, 3, 1), at(m, 3, 2));
        assert(t0 * at(q, 0, 3) + t1 * at(q, 1, 3) + t2 * at(q, 2, 3) + at(m, 3, 3) * at(q, 3, 3) == 0x1_0000_0000) by (nonlinear_arith)
            requires
                at(q, 0, 3) == 0 && at(q, 1, 3) == 0 && at(q, 2, 3) == 0 && at(q, 3, 3) == 65536,
                at(m, 3, 3) == 65536,
        ;
        assert(floor_div(0x1_0000_0000, 65536) == 65536);
    }
    assert(mul_at(m, q, 0, 0) == 65536 && mul_at(m, q, 0, 1) == 0 && mul_at(m, q, 0, 2) == 0);
    assert(mul_at(m, q, 1, 0) == 0 && mul_at(m, q, 1, 1) == 65536 && mul_at(m, q, 1, 2) == 0);
    assert(mul_at(m, q, 2, 0) == 0 && mul_at(m, q, 2, 1) == 0 && mul_at(m, q, 2, 2) == 65536);
    assert(mul_at(m, q, 0, 3) == 0 && mul_at(m, q, 1, 3) == 0 && mul_at(m, q, 2, 3) == 0);
    assert(mul_at(m, q, 3, 0) == 0 && mul_at(m, q, 3, 1) == 0 && mul_at(m, q, 3, 2) == 0);
}

/// The parts of a well-formed angle are at most about 1.0, so negating
/// the sine never saturates.
proof fn lemma_angle_parts(a: Angle)
    requires
        a.wf(),
    ensures
        -65538 <= a.cos <= 65538,
        -65538 <= a.sin <= 65538,
        clamp_i32(-a.sin) == -a.sin,
{
    let (c, s) = (a.cos as int, a.sin as int);
    assert(c * c >= 0 && s * s >= 0) by (nonlinear_arith);
    assert(-65538 <= c <= 65538) by (nonlinear_arith)
        requires
            c * c <= 0x1_0000_0000 + 0x4_0000,
    ;
    assert(-65538 <= s <= 65538) by (nonlinear_arith)
        requires
            s * s <= 0x1_0000_0000 + 0x4_0000,
    ;
}

/// The rotation matrices about one axis of a well-formed angle are
/// rotations up to rounding: their rows are exactly orthogonal, and of unit
/// length within the angle's own error.
pub proof fn lemma_axis_rotations(a: Angle)
    requires
        a.wf(),
    ensures
        is_near_rotation(rotation_x_spec(a), 0x4_0000),
        is_near_rotation(rotation_y_spec(a), 0x4_0000),
        is_near_rotation(rotation_z_spec(a), 0x4_0000),
{
    lemma_angle_parts(a);
    let (c, s) = (a.cos as int, a.sin as int);
    assert(c * (-s) + s * c == 0 && s * c + c * (-s) == 0 && (-s) * c + c * s == 0) by (nonlinear_arith);
    assert(c * c + s * s == s * s + c * c && (-s) * (-s) == s * s) by (nonlinear_arith);
    assert(forall|v: int| #[trigger] (v * 0) == 0 && 0 * v == 0 && v * 65536 == 65536 * v);
    assert forall|i: int, j: int| 0 <= i < 3 && 0 <= j < 3 implies {
        let d = #[trigger] block_row_dot(rotation_x_spec(a), i, j) - if i == j { 0x1_0000_0000int } else { 0int };
        -0x4_0000 <= d <= 0x4_0000
    } by {
        let m = rotation_x_spec(a);
        assert(at(m, 0, 0) == 65536 && at(m, 0, 1) == 0 && at(m, 0, 2) == 0 && at(m, 1, 0) == 0 && at(m, 1, 1) == c && at(m, 1, 2) == s && at(m, 2, 0) == 0 && at(m, 2, 1) == -s && at(m, 2, 2) == c);
        let (m00, m01, m02, m10, m11, m12, m20, m21, m22) = (at(m, 0, 0), at(m, 0, 1), at(m, 0, 2), at(m, 1, 0), at(m, 1, 1), at(m, 1, 2), at(m, 2, 0), at(m, 2, 1), at(m, 2, 2));
        assert(m00 * m10 + m01 * m11 + m02 * m12 == 0 && m00 * m20 + m01 * m21 + m02 * m22 == 0 && m10 * m20 + m11 * m21 + m12 * m22 == 0
            && m10 * m00 + m11 * m01 + m12 * m02 == 0 && m20 * m00 + m21 * m01 + m22 * m02 == 0 && m20 * m10 + m21 * m11 + m22 * m12 == 0
            && m00 * m00 + m01 * m01 + m02 * m02 - 0x1_0000_0000 == 0
            && m11 * m11 + m10 * m10 + m12 * m12 - 0x1_0000_0000 == c * c + s * s - 0x1_0000_0000
            && m20 * m20 + m21 * m21 + m22 * m22 - 0x1_0000_0000 == c * c + s * s - 0x1_0000_0000) by (nonlinear_arith)
            requires
                m00 == 65536 && m01 == 0 && m02 == 0 && m10 == 0 && m11 == c && m12 == s && m20 == 0 && m21 == -s && m22 == c,
        ;
    }
    assert forall|i: int, j: int| 0 <= i < 3 && 0 <= j < 3 implies {
        let d = #[trigger] block_row_dot(rotation_y_spec(a), i, j) - if i == j { 0x1_0000_0000int } else { 0int };
        -0x4_0000 <= d <= 0x4_0000
    } by {
        let m = rotation_y_spec(a);
        assert(at(m, 0, 0) == c && at(m, 0, 1) == 0 && at(m, 0, 2) == -s && at(m, 1, 0) == 0 && at(m, 1, 1) == 65536 && at(m, 1, 2) == 0 && at(m, 2, 0) == s && at(m, 2, 1) == 0 && at(m, 2, 2) == c);
        let (m00, m01, m02, m10, m11, m12, m20, m21, m22) = (at(m, 0, 0), at(m, 0, 1), at(m, 0, 2), at(m, 1, 0), at(m, 1, 1), at(m, 1, 2), at(m, 2, 0), at(m, 2, 1), at(m, 2, 2));
        assert(m00 * m10 + m01 * m11 + m02 * m12 == 0 && m00 * m20 + m01 * m21 + m02 * m22 == 0 && m10 * m20 + m11 * m21 + m12 * m22 == 0
            && m10 * m00 + m11 * m01 + m12 * m02 == 0 && m20 * m00 + m21 * m01 + m22 * m02 == 0 && m20 * m10 + m21 * m11 + m22 * m12 == 0
            && m00 * m00 + m01 * m01 + m02 * m02 - 0x1_0000_0000 == c * c + s * s - 0x1_0000_0000
            && m11 * m11 + m10 * m10 + m12 * m12 - 0x1_0000_0000 == 0
            && m20 * m20 + m21 * m21 + m22 * m22 - 0x1_0000_0000 == c * c + s * s - 0x1_0000_0000) by (nonlinear_arith)
            requires
                m00 == c && m01 == 0 && m02 == -s && m10 == 0 && m11 == 65536 && m12 == 0 && m20 == s && m21 == 0 && m22 == c,
        ;
    }
    assert forall|i: int, j: int| 0 <= i < 3 && 0 <= j < 3 implies {
        let d = #[trigger] block_row_dot(rotation_z_spec(a), i, j) - if i == j { 0x1_0000_0000int } else { 0int };
        -0x4_0000 <= d <= 0x4_0000
    } by {
        let m = rotation_z_spec(a);
        assert(at(m, 0, 0) == c && at(m, 0, 1) == s && at(m, 0, 2) == 0 && at(m, 1, 0) == -s && at(m, 1, 1) == c && at(m, 1, 2) == 0 && at(m, 2, 0) == 0 && at(m, 2, 1) == 0 && at(m, 2, 2) == 65536);
        let (m00, m01, m02, m10, m11, m12, m20, m21, m22) = (at(m, 0, 0), at(m, 0, 1), at(m, 0, 2), at(m, 1, 0), at(m, 1, 1), at(m, 1, 2), at(m, 2, 0), at(m, 2, 1), at(m, 2, 2));
        assert(m00 * m10 + m01 * m11 + m02 * m12 == 0 && m00 * m20 + m01 * m21 + m02 * m22 == 0 && m10 * m20 + m11 * m21 + m12 * m22 == 0
            && m10 * m00 + m11 * m01 + m12 * m02 == 0 && m20 * m00 + m21 * m01 + m22 * m02 == 0 && m20 * m10 + m21 * m11 + m22 * m12 == 0
            && m00 * m00 + m01 * m01 + m02 * m02 - 0x1_0000_0000 == c * c + s * s - 0x1_0000_0000
            && m11 * m11 + m10 * m10 + m12 * m12 - 0x1_0000_0000 == c * c + s * s - 0x1_0000_0000
            && m20 * m20 + m21 * m21 + m22 * m22 - 0x1_0000_0000 == 0) by (nonlinear_arith)
            requires
                m00 == c && m01 == s && m02 == 0 && m10 == -s && m11 == c && m12 == 0 && m20 == 0 && m21 == 0 && m22 == 65536,
        ;
    }
}

} // verus!
