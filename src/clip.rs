//! Line/plane intersection and triangle clipping against a plane.
use vstd::prelude::*;
use crate::fixed::{floor_div, fx_div_spec, fx_mul_spec, clamp_to_i32, floor_div_i128, fx_mul};
use crate::vector::{sat_add, sat_sub, add_sat, sub_sat};
use crate::vector3::{Vector3, v3};
use crate::vector4::{Vector4, v4_add, v4_dot, v4_normalize, v4_scale, v4_sub};
use crate::triangle::{Triangle, vertex_of};
use crate::renderer_3d::Renderer3D;
use crate::renderer_2d::abs;

verus! {

/// Signed distance of `p` from the plane through `plane_p` with normal `n`
/// (in units of the normal's length).
pub open spec fn plane_distance(plane_p: Vector4, n: Vector4, p: Vector4) -> int {
    v4_dot(n, p) - v4_dot(n, plane_p)
}

/// `p` is on the kept side of the plane (or on it).
pub open spec fn is_inside(plane_p: Vector4, n: Vector4, p: Vector4) -> bool {
    plane_distance(plane_p, n, p) >= 0
}

/// Parameter of the crossing point along `start -> end`, as a fixed-point
/// value (1.0 at `end`); 0 when the segment runs parallel to the plane.
pub open spec fn crossing_t(plane_p: Vector4, n: Vector4, start: Vector4, end: Vector4) -> int {
    let pd = v4_dot(n, plane_p);
    let ad = v4_dot(start, n);
    let bd = v4_dot(end, n);
    if bd == ad {
        0
    } else {
        fx_div_spec(pd - ad, bd - ad)
    }
}

/// The point `start + (end - start) * t`.
pub open spec fn lerp4(start: Vector4, end: Vector4, t: int) -> Vector4 {
    v4_add(start, v4_scale(v4_sub(end, start), t))
}

/// Crossing of the segment with the plane whose normal `n` is used as
/// given: the point and its parameter.
pub open spec fn crossing(plane_p: Vector4, n: Vector4, start: Vector4, end: Vector4) -> (Vector4, int) {
    let t = crossing_t(plane_p, n, start, end);
    (lerp4(start, end, t), t)
}

/// Texture coordinate interpolated from `a` toward `b` by `t`, all three
/// components alike.
pub open spec fn lerp_uv(a: Vector3, b: Vector3, t: int) -> Vector3 {
    v3(
        sat_add(a.x as int, fx_mul_spec(t, sat_sub(b.x as int, a.x as int))),
        sat_add(a.y as int, fx_mul_spec(t, sat_sub(b.y as int, a.y as int))),
        sat_add(a.z as int, fx_mul_spec(t, sat_sub(b.z as int, a.z as int))),
    )
}

/// Index of the `j`-th vertex (counting from 0) whose flag equals `want`.
pub open spec fn pick(f0: bool, f1: bool, f2: bool, want: bool, j: int) -> int {
    if f0 == want {
        if j == 0 {
            0
        } else if f1 == want {
            if j == 1 {
                1
            } else {
                2
            }
        } else {
            2
        }
    } else if f1 == want {
        if j == 0 {
            1
        } else {
            2
        }
    } else {
        2
    }
}

/// Number of vertices of `t` on the kept side.
pub open spec fn inside_count(plane_p: Vector4, n: Vector4, t: Triangle) -> int {
    (if is_inside(plane_p, n, t.v1) { 1int } else { 0 }) + (if is_inside(plane_p, n, t.v2) { 1int } else { 0 }) + (if is_inside(plane_p, n, t.v3) { 1int } else { 0 })
}

/// A triangle with the given vertices, texture coordinates and colour.
pub open spec fn tri_of(a: Vector4, b: Vector4, c: Vector4, ua: Vector3, ub: Vector3, uc: Vector3, color: u32) -> Triangle {
    Triangle { v1: a, v2: b, v3: c, light_color: color, uv: [ua, ub, uc] }
}

/// What clipping `t` against the plane through `plane_p` with the unit
/// normal `n` yields.
pub open spec fn clip_spec(plane_p: Vector4, n: Vector4, t: Triangle) -> Seq<Triangle> {
    let f0 = is_inside(plane_p, n, t.v1);
    let f1 = is_inside(plane_p, n, t.v2);
    let f2 = is_inside(plane_p, n, t.v3);
    let count = inside_count(plane_p, n, t);
    if count == 0 {
        seq![]
    } else if count == 3 {
        seq![t]
    } else if count == 1 {
        let k = pick(f0, f1, f2, true, 0);
        let o0 = next3(k);
        let o1 = next3(o0);
        let p0 = vertex_of(t, k);
        let (q1, t1) = crossing(plane_p, n, p0, vertex_of(t, o0));
        let (q2, t2) = crossing(plane_p, n, p0, vertex_of(t, o1));
        seq![
            tri_of(
                p0,
                q1,
                q2,
                t.uv[k],
                lerp_uv(t.uv[k], t.uv[o0], t1),
                lerp_uv(t.uv[k], t.uv[o1], t2),
                t.light_color,
            ),
        ]
    } else {
        let o = pick(f0, f1, f2, false, 0);
        let ka = next3(o);
        let kb = next3(ka);
        let pa = vertex_of(t, ka);
        let pb = vertex_of(t, kb);
        let (ia, ta) = crossing(plane_p, n, pa, vertex_of(t, o));
        let (ib, tb) = crossing(plane_p, n, pb, vertex_of(t, o));
        let uva = lerp_uv(t.uv[ka], t.uv[o], ta);
        let uvb = lerp_uv(t.uv[kb], t.uv[o], tb);
        seq![
            tri_of(pa, pb, ib, t.uv[ka], t.uv[kb], uvb, t.light_color),
            tri_of(pa, ib, ia, t.uv[ka], uvb, uva, t.light_color),
        ]
    }
}

/// The vertex after vertex `k` in the winding order (0, 1, 2, 0, ...).
pub open spec fn next3(k: int) -> int {
    if k >= 2 {
        0
    } else {
        k + 1
    }
}

/// `v` lies between `a` and `b` (inclusive).
pub open spec fn between(v: int, a: int, b: int) -> bool {
    (a <= v && v <= b) || (b <= v && v <= a)
}

/// Every component of `p` lies between those of `a` and `b`: `p` is in the
/// box spanned by the segment `a -> b`.
pub open spec fn on_segment_box(p: Vector4, a: Vector4, b: Vector4) -> bool {
    between(p.x as int, a.x as int, b.x as int) && between(p.y as int, a.y as int, b.y as int)
        && between(p.z as int, a.z as int, b.z as int) && between(p.w as int, a.w as int, b.w as int)
}

/// Interpolating one component by a parameter in `[0, 1)` stays between the
/// two ends.
proof fn lemma_lerp_component_between(a: int, b: int, t: int)
    requires
        i32::MIN <= a <= i32::MAX,
        i32::MIN <= b <= i32::MAX,
        0 <= t < 65536,
    ensures
        between(sat_add(a, fx_mul_spec(sat_sub(b, a), t)), a, b),
        i32::MIN <= sat_add(a, fx_mul_spec(sat_sub(b, a), t)) <= i32::MAX,
{
    let d = sat_sub(b, a);
    let q = floor_div(d * t, 65536);
    assert(q == (d * t) / 65536);
    if d >= 0 {
        assert(0 <= d * t <= d * 65536) by (nonlinear_arith)
            requires
                d >= 0,
                0 <= t < 65536,
        ;
        assert(0 <= q <= d) by (nonlinear_arith)
            requires
                0 <= d * t <= d * 65536,
                q == (d * t) / 65536,
        ;
    } else {
        assert(d * 65536 <= d * t <= 0) by (nonlinear_arith)
            requires
                d < 0,
                0 <= t < 65536,
        ;
        assert(d <= q <= 0) by (nonlinear_arith)
            requires
                d * 65536 <= d * t <= 0,
                q == (d * t) / 65536,
        ;
    }
    assert(fx_mul_spec(d, t) == q);
}

/// The crossing parameter of a segment that runs from the kept side to the
/// other lies in `[0, 1)`.
pub proof fn lemma_crossing_t_in_unit(plane_p: Vector4, n: Vector4, a: Vector4, b: Vector4)
    requires
        is_inside(plane_p, n, a),
        !is_inside(plane_p, n, b),
    ensures
        0 <= crossing_t(plane_p, n, a, b) < 65536,
{
    let pd = v4_dot(n, plane_p);
    let ad = v4_dot(a, n);
    let bd = v4_dot(b, n);
    assert(ad == v4_dot(n, a)) by {
        assert(a.x * n.x == n.x * a.x && a.y * n.y == n.y * a.y && a.z * n.z == n.z * a.z) by (nonlinear_arith);
    }
    assert(bd == v4_dot(n, b)) by {
        assert(b.x * n.x == n.x * b.x && b.y * n.y == n.y * b.y && b.z * n.z == n.z * b.z) by (nonlinear_arith);
    }
    let num = ad - pd;
    let den = ad - bd;
    assert(0 <= num < den);
    let q = (num * 65536) / den;
    assert(floor_div((pd - ad) * 65536, bd - ad) == q);
    assert(0 <= q < 65536) by (nonlinear_arith)
        requires
            0 <= num < den,
            q == (num * 65536) / den,
    ;
}

/// The crossing point of a segment that runs from the kept side to the
/// other lies in the box spanned by the segment.
pub proof fn lemma_crossing_on_segment(plane_p: Vector4, n: Vector4, a: Vector4, b: Vector4)
    requires
        is_inside(plane_p, n, a),
        !is_inside(plane_p, n, b),
    ensures
        on_segment_box(crossing(plane_p, n, a, b).0, a, b),
{
    let t = crossing_t(plane_p, n, a, b);
    lemma_crossing_t_in_unit(plane_p, n, a, b);
    lemma_lerp_component_between(a.x as int, b.x as int, t);
    lemma_lerp_component_between(a.y as int, b.y as int, t);
    lemma_lerp_component_between(a.z as int, b.z as int, t);
    lemma_lerp_component_between(a.w as int, b.w as int, t);
    assert(fx_mul_spec(sat_sub(b.x as int, a.x as int), t) == fx_mul_spec(v4_sub(b, a).x as int, t));
}

/// Clipping a triangle that lies wholly on one side of a plane never splits
/// it: all vertices kept gives the triangle itself, none kept gives nothing.
pub proof fn lemma_clip_one_side(plane_p: Vector4, n: Vector4, t: Triangle)
    requires
        (is_inside(plane_p, n, t.v1) && is_inside(plane_p, n, t.v2) && is_inside(plane_p, n, t.v3))
            || (!is_inside(plane_p, n, t.v1) && !is_inside(plane_p, n, t.v2) && !is_inside(plane_p, n, t.v3)),
    ensures
        is_inside(plane_p, n, t.v1) ==> clip_spec(plane_p, n, t) == seq![t],
        !is_inside(plane_p, n, t.v1) ==> clip_spec(plane_p, n, t) == Seq::<Triangle>::empty(),
{
}

/// With exactly one vertex kept, clipping gives one triangle in the input's
/// winding order: the kept vertex, then the crossing on its edge to the
/// next vertex, then the crossing on its edge to the vertex after that,
/// each on its edge at a parameter in `[0, 1)`, with the colour kept.
pub proof fn lemma_clip_one_inside(plane_p: Vector4, n: Vector4, t: Triangle)
    requires
        inside_count(plane_p, n, t) == 1,
    ensures
        ({
            let f0 = is_inside(plane_p, n, t.v1);
            let f1 = is_inside(plane_p, n, t.v2);
            let f2 = is_inside(plane_p, n, t.v3);
            let k = pick(f0, f1, f2, true, 0);
            let o0 = next3(k);
            let o1 = next3(o0);
            let r = clip_spec(plane_p, n, t);
            &&& r.len() == 1
            &&& is_inside(plane_p, n, vertex_of(t, k))
            &&& !is_inside(plane_p, n, vertex_of(t, o0))
            &&& !is_inside(plane_p, n, vertex_of(t, o1))
            &&& o0 != o1 && o0 != k && o1 != k
            &&& r[0].v1 == vertex_of(t, k)
            &&& r[0].v2 == crossing(plane_p, n, vertex_of(t, k), vertex_of(t, o0)).0
            &&& r[0].v3 == crossing(plane_p, n, vertex_of(t, k), vertex_of(t, o1)).0
            &&& 0 <= crossing_t(plane_p, n, vertex_of(t, k), vertex_of(t, o0)) < 65536
            &&& 0 <= crossing_t(plane_p, n, vertex_of(t, k), vertex_of(t, o1)) < 65536
            &&& on_segment_box(r[0].v2, vertex_of(t, k), vertex_of(t, o0))
            &&& on_segment_box(r[0].v3, vertex_of(t, k), vertex_of(t, o1))
            &&& r[0].light_color == t.light_color
        }),
{
    let f0 = is_inside(plane_p, n, t.v1);
    let f1 = is_inside(plane_p, n, t.v2);
    let f2 = is_inside(plane_p, n, t.v3);
    let k = pick(f0, f1, f2, true, 0);
    let o0 = next3(k);
    let o1 = next3(o0);
    let a = vertex_of(t, k);
    lemma_crossing_t_in_unit(plane_p, n, a, vertex_of(t, o0));
    lemma_crossing_t_in_unit(plane_p, n, a, vertex_of(t, o1));
    lemma_crossing_on_segment(plane_p, n, a, vertex_of(t, o0));
    lemma_crossing_on_segment(plane_p, n, a, vertex_of(t, o1));
}

/// With exactly two vertices kept, clipping gives two triangles in the
/// input's winding order that split the kept quad along one diagonal. With
/// `o` the dropped vertex, `a` the one after it and `b` the one after
/// that, the quad is `a`, `b`, the crossing `ib` on edge `b -> o`, the
/// crossing `ia` on edge `a -> o`; the triangles are `(a, b, ib)` and
/// `(a, ib, ia)`, sharing the diagonal `a -> ib`. Both crossings lie on
/// their edges, and both triangles keep the colour.
pub proof fn lemma_clip_two_inside(plane_p: Vector4, n: Vector4, t: Triangle)
    requires
        inside_count(plane_p, n, t) == 2,
    ensures
        ({
            let f0 = is_inside(plane_p, n, t.v1);
            let f1 = is_inside(plane_p, n, t.v2);
            let f2 = is_inside(plane_p, n, t.v3);
            let o = pick(f0, f1, f2, false, 0);
            let ka = next3(o);
            let kb = next3(ka);
            let ia = crossing(plane_p, n, vertex_of(t, ka), vertex_of(t, o)).0;
            let ib = crossing(plane_p, n, vertex_of(t, kb), vertex_of(t, o)).0;
            let r = clip_spec(plane_p, n, t);
            &&& r.len() == 2
            &&& o != ka && o != kb && ka != kb && next3(kb) == o
            &&& is_inside(plane_p, n, vertex_of(t, ka))
            &&& is_inside(plane_p, n, vertex_of(t, kb))
            &&& !is_inside(plane_p, n, vertex_of(t, o))
            &&& r[0].v1 == vertex_of(t, ka) && r[0].v2 == vertex_of(t, kb) && r[0].v3 == ib
            &&& r[1].v1 == vertex_of(t, ka) && r[1].v2 == ib && r[1].v3 == ia
            &&& r[0].v1 == r[1].v1 && r[0].v3 == r[1].v2
            &&& on_segment_box(ia, vertex_of(t, ka), vertex_of(t, o))
            &&& on_segment_box(ib, vertex_of(t, kb), vertex_of(t, o))
            &&& r[0].light_color == t.light_color && r[1].light_color == t.light_color
        }),
{
    let f0 = is_inside(plane_p, n, t.v1);
    let f1 = is_inside(plane_p, n, t.v2);
    let f2 = is_inside(plane_p, n, t.v3);
    let o = pick(f0, f1, f2, false, 0);
    let ka = next3(o);
    let kb = next3(ka);
    lemma_crossing_on_segment(plane_p, n, vertex_of(t, ka), vertex_of(t, o));
    lemma_crossing_on_segment(plane_p, n, vertex_of(t, kb), vertex_of(t, o));
}

/// A coordinate small enough that no sum, difference or product below
/// saturates: at most 2^29 raw units (8192 whole units) from zero.
pub open spec fn small(v: int) -> bool {
    -0x2000_0000 <= v <= 0x2000_0000
}

/// All four components of `p` are small.
pub open spec fn small_point(p: Vector4) -> bool {
    small(p.x as int) && small(p.y as int) && small(p.z as int) && small(p.w as int)
}

/// A normal whose components are at most 1.0, as `normalize` gives.
pub open spec fn unit_bounded(n: Vector4) -> bool {
    -65536 <= n.x <= 65536 && -65536 <= n.y <= 65536 && -65536 <= n.z <= 65536
}

/// Interpolating one small component: exact, with the rounding made
/// explicit: `q * 2^16 == a * 2^16 + (b - a) * t - r` with `0 <= r < 2^16`.
proof fn lemma_lerp_component_exact(a: int, b: int, t: int) -> (r: int)
    requires
        small(a),
        small(b),
        0 <= t < 65536,
    ensures
        sat_add(a, fx_mul_spec(sat_sub(b, a), t)) * 65536 == a * 65536 + (b - a) * t - r,
        0 <= r < 65536,
{
    lemma_lerp_component_between(a, b, t);
    let d = b - a;
    assert(sat_sub(b, a) == d);
    let q = (d * t) / 65536;
    assert(floor_div(d * t, 65536) == q);
    vstd::arithmetic::div_mod::lemma_fundamental_div_mod(d * t, 65536);
    let r = (d * t) % 65536;
    assert(d * t == 65536 * q + r);
    assert(fx_mul_spec(d, t) == q);
    assert(sat_add(a, q) == a + q);
    assert((a + q) * 65536 == a * 65536 + d * t - r) by (nonlinear_arith)
        requires
            d * t == 65536 * q + r,
    ;
    r
}

/// The point where an edge crosses the plane lies on the plane up to
/// rounding: its signed distance (in raw units, measured with the unit
/// normal `n`) is at least -4 and at most 6 plus the edge's extent along the
/// three axes in whole units. Inputs are kept small enough that nothing
/// saturates.
pub proof fn lemma_crossing_near_plane(plane_p: Vector4, n: Vector4, a: Vector4, b: Vector4)
    requires
        is_inside(plane_p, n, a),
        !is_inside(plane_p, n, b),
        unit_bounded(n),
        small_point(a),
        small_point(b),
        small_point(plane_p),
    ensures
        ({
            let d = plane_distance(plane_p, n, crossing(plane_p, n, a, b).0);
            let extent = abs(b.x - a.x) + abs(b.y - a.y) + abs(b.z - a.z);
            -4 <= d <= 6 + extent / 65536
        }),
{
    let one: int = 65536;
    let t = crossing_t(plane_p, n, a, b);
    lemma_crossing_t_in_unit(plane_p, n, a, b);
    let q = crossing(plane_p, n, a, b).0;
    let (nx, ny, nz) = (n.x as int, n.y as int, n.z as int);
    let (ax, ay, az) = (a.x as int, a.y as int, a.z as int);
    let (bx, by_, bz) = (b.x as int, b.y as int, b.z as int);
    let (px, py, pz) = (plane_p.x as int, plane_p.y as int, plane_p.z as int);
    // exact sums before rounding
    let sa = nx * ax + ny * ay + nz * az;
    let sb = nx * bx + ny * by_ + nz * bz;
    let sp = nx * px + ny * py + nz * pz;
    let bound = 3 * 0x2000_0000 * 65536;
    assert(-bound <= sa <= bound && -bound <= sb <= bound && -bound <= sp <= bound) by (nonlinear_arith)
        requires
            -65536 <= nx <= 65536,
            -65536 <= ny <= 65536,
            -65536 <= nz <= 65536,
            small(ax), small(ay), small(az), small(bx), small(by_), small(bz), small(px), small(py), small(pz),
            sa == nx * ax + ny * ay + nz * az,
            sb == nx * bx + ny * by_ + nz * bz,
            sp == nx * px + ny * py + nz * pz,
            bound == 3 * 0x2000_0000 * 65536,
    ;
    let ad = sa / one;
    let bd = sb / one;
    let pd = sp / one;
    assert(v4_dot(n, a) == ad && v4_dot(n, b) == bd && v4_dot(n, plane_p) == pd);
    assert(v4_dot(a, n) == ad) by {
        assert(ax * nx == nx * ax && ay * ny == ny * ay && az * nz == nz * az) by (nonlinear_arith);
    }
    assert(v4_dot(b, n) == bd) by {
        assert(bx * nx == nx * bx && by_ * ny == ny * by_ && bz * nz == nz * bz) by (nonlinear_arith);
    }
    vstd::arithmetic::div_mod::lemma_fundamental_div_mod(sa, one);
    vstd::arithmetic::div_mod::lemma_fundamental_div_mod(sb, one);
    vstd::arithmetic::div_mod::lemma_fundamental_div_mod(sp, one);
    let ra = sa % one;
    let rb = sb % one;
    let rp = sp % one;
    let u = ad - pd;
    let v = ad - bd;
    assert(0 <= u < v);
    // the crossing parameter
    assert(t == ((u * one) / v)) by {
        assert(floor_div((pd - ad) * one, bd - ad) == (u * one) / v);
    }
    vstd::arithmetic::div_mod::lemma_fundamental_div_mod(u * one, v);
    let th = (u * one) % v;
    assert(u * one == v * t + th && 0 <= th < v);
    // each component of the crossing point, with its rounding
    let rx = lemma_lerp_component_exact(ax, bx, t);
    let ry = lemma_lerp_component_exact(ay, by_, t);
    let rz = lemma_lerp_component_exact(az, bz, t);
    let qx = q.x as int;
    let qy = q.y as int;
    let qz = q.z as int;
    assert(qx * one == ax * one + (bx - ax) * t - rx);
    assert(qy * one == ay * one + (by_ - ay) * t - ry);
    assert(qz * one == az * one + (bz - az) * t - rz);
    let sq = nx * qx + ny * qy + nz * qz;
    let e = nx * rx + ny * ry + nz * rz;
    assert(nx * (qx * one) == nx * ax * one + nx * (bx - ax) * t - nx * rx) by (nonlinear_arith)
        requires
            qx * one == ax * one + (bx - ax) * t - rx,
    ;
    assert(ny * (qy * one) == ny * ay * one + ny * (by_ - ay) * t - ny * ry) by (nonlinear_arith)
        requires
            qy * one == ay * one + (by_ - ay) * t - ry,
    ;
    assert(nz * (qz * one) == nz * az * one + nz * (bz - az) * t - nz * rz) by (nonlinear_arith)
        requires
            qz * one == az * one + (bz - az) * t - rz,
    ;
    assert(sq * one == nx * (qx * one) + ny * (qy * one) + nz * (qz * one)) by {
        vstd::arithmetic::mul::lemma_mul_is_distributive_add_other_way(one, nx * qx + ny * qy, nz * qz);
        vstd::arithmetic::mul::lemma_mul_is_distributive_add_other_way(one, nx * qx, ny * qy);
        vstd::arithmetic::mul::lemma_mul_is_associative(nx, qx, one);
        vstd::arithmetic::mul::lemma_mul_is_associative(ny, qy, one);
        vstd::arithmetic::mul::lemma_mul_is_associative(nz, qz, one);
    }
    assert(sa * one == nx * ax * one + ny * ay * one + nz * az * one) by (nonlinear_arith)
        requires
            sa == nx * ax + ny * ay + nz * az,
    ;
    assert(t * (sb - sa) == nx * (bx - ax) * t + ny * (by_ - ay) * t + nz * (bz - az) * t) by (nonlinear_arith)
        requires
            sa == nx * ax + ny * ay + nz * az,
            sb == nx * bx + ny * by_ + nz * bz,
    ;
    assert(sq * one == sa * one + t * (sb - sa) - e);
    assert(-3 * one * one <= e <= 3 * one * one) by (nonlinear_arith)
        requires
            -65536 <= nx <= 65536,
            -65536 <= ny <= 65536,
            -65536 <= nz <= 65536,
            0 <= rx < 65536,
            0 <= ry < 65536,
            0 <= rz < 65536,
            e == nx * rx + ny * ry + nz * rz,
            one == 65536,
    ;
    // t * (sb - sa) in terms of the rounded dots
    assert(sb - sa == -one * v + (rb - ra));
    assert(t * (sb - sa) == -one * (v * t) + t * (rb - ra)) by (nonlinear_arith)
        requires
            sb - sa == -one * v + (rb - ra),
    ;
    assert(-one * one <= t * (rb - ra) <= one * one) by (nonlinear_arith)
        requires
            0 <= t < 65536,
            0 <= ra < 65536,
            0 <= rb < 65536,
            one == 65536,
    ;
    let rest = sq * one - one * one * pd;
    assert(rest == one * ra + one * th + t * (rb - ra) - e) by (nonlinear_arith)
        requires
            sq * one == sa * one + t * (sb - sa) - e,
            t * (sb - sa) == -one * (v * t) + t * (rb - ra),
            u * one == v * t + th,
            sa == one * ad + ra,
            u == ad - pd,
            rest == sq * one - one * one * pd,
    ;
    assert(0 <= one * ra < one * one && 0 <= one * th < one * v) by (nonlinear_arith)
        requires
            0 <= ra < one,
            0 <= th < v,
            one == 65536,
    ;
    assert(-4 * one * one <= rest < one * one * 5 + one * v);
    // the distance of the crossing point
    let sq_bound = 3 * 0x2000_0000 * 65536;
    lemma_crossing_on_segment(plane_p, n, a, b);
    assert(small(qx) && small(qy) && small(qz));
    assert(-sq_bound <= sq <= sq_bound) by (nonlinear_arith)
        requires
            -65536 <= nx <= 65536,
            -65536 <= ny <= 65536,
            -65536 <= nz <= 65536,
            small(qx), small(qy), small(qz),
            sq == nx * qx + ny * qy + nz * qz,
            sq_bound == 3 * 0x2000_0000 * 65536,
    ;
    let qd = sq / one;
    assert(v4_dot(n, q) == qd);
    vstd::arithmetic::div_mod::lemma_fundamental_div_mod(sq, one);
    let rq = sq % one;
    let dist = qd - pd;
    assert(rest == one * one * dist + one * rq) by (nonlinear_arith)
        requires
            sq == one * qd + rq,
            rest == sq * one - one * one * pd,
            dist == qd - pd,
    ;
    assert(-4 <= dist) by (nonlinear_arith)
        requires
            rest == one * one * dist + one * rq,
            0 <= rq < one,
            -4 * one * one <= rest,
            one == 65536,
    ;
    assert(dist <= 5 + v / one) by (nonlinear_arith)
        requires
            rest == one * one * dist + one * rq,
            0 <= rq,
            rest < one * one * 5 + one * v,
            one == 65536,
            v > 0,
    ;
    // v is at most the edge's extent plus one
    let ext = abs(bx - ax) + abs(by_ - ay) + abs(bz - az);
    assert(sa - sb == nx * (ax - bx) + ny * (ay - by_) + nz * (az - bz)) by (nonlinear_arith)
        requires
            sa == nx * ax + ny * ay + nz * az,
            sb == nx * bx + ny * by_ + nz * bz,
    ;
    assert(sa - sb <= one * ext) by (nonlinear_arith)
        requires
            -65536 <= nx <= 65536,
            -65536 <= ny <= 65536,
            -65536 <= nz <= 65536,
            sa - sb == nx * (ax - bx) + ny * (ay - by_) + nz * (az - bz),
            ext == abs(bx - ax) + abs(by_ - ay) + abs(bz - az),
            one == 65536,
    ;
    assert(one * v <= sa - sb + one);
    assert(v <= ext + 1) by (nonlinear_arith)
        requires
            one * v <= sa - sb + one,
            sa - sb <= one * ext,
            one == 65536,
    ;
    assert(v / one <= ext / one + 1) by (nonlinear_arith)
        requires
            v <= ext + 1,
            v > 0,
            ext >= 0,
            one == 65536,
    ;
}

/// Index of the `j`-th vertex whose flag equals `want`.
fn pick_index(f0: bool, f1: bool, f2: bool, want: bool, j: usize) -> (r: usize)
    ensures
        r == pick(f0, f1, f2, want, j as int),
        r < 3,
{
    if f0 == want {
        if j == 0 {
            0
        } else if f1 == want {
            if j == 1 {
                1
            } else {
                2
            }
        } else {
            2
        }
    } else if f1 == want {
        if j == 0 {
            1
        } else {
            2
        }
    } else {
        2
    }
}

/// The vertex after vertex `k` in the winding order.
fn next_index(k: usize) -> (r: usize)
    requires
        k < 3,
    ensures
        r == next3(k as int),
        r < 3,
{
    if k >= 2 {
        0
    } else {
        k + 1
    }
}

/// Quotient of two fixed-point values held wide, saturated.
fn fx_div_wide(a: i64, b: i64) -> (r: i32)
    requires
        b != 0,
        -0x1_0000_0000 <= a <= 0x1_0000_0000,
        -0x1_0000_0000 <= b <= 0x1_0000_0000,
    ensures
        r == fx_div_spec(a as int, b as int),
{
    clamp_to_i32(floor_div_i128((a as i128) * 65536, b as i128))
}

/// Texture coordinate interpolated from `a` toward `b` by `t`.
fn interpolate_uv(a: Vector3, b: Vector3, t: i32) -> (r: Vector3)
    ensures
        r == lerp_uv(a, b, t as int),
{
    Vector3 {
        x: add_sat(a.x, fx_mul(t, sub_sat(b.x, a.x))),
        y: add_sat(a.y, fx_mul(t, sub_sat(b.y, a.y))),
        z: add_sat(a.z, fx_mul(t, sub_sat(b.z, a.z))),
    }
}

impl Renderer3D {
    /// Crossing of the segment `line_start -> line_end` with the plane
    /// through `plane_p` with normal `plane_n` (normalized here first): the
    /// point and its parameter along the segment, as a fixed-point value.
    /// A segment parallel to the plane gives `(line_start, 0)`.
    pub fn intersect_plane(
        plane_p: Vector4,
        plane_n: Vector4,
        line_start: Vector4,
        line_end: Vector4,
    ) -> (r: (Vector4, i32))
        ensures
            (r.0, r.1 as int) == crossing(plane_p, v4_normalize(plane_n), line_start, line_end),
    {
        let n = plane_n.normalize();
        Self::crossing_unit(plane_p, n, line_start, line_end)
    }

    /// Crossing with the plane whose normal `n` is used as given.
    fn crossing_unit(plane_p: Vector4, n: Vector4, line_start: Vector4, line_end: Vector4) -> (r: (
        Vector4,
        i32,
    ))
        ensures
            (r.0, r.1 as int) == crossing(plane_p, n, line_start, line_end),
    {
        let pd = n.dot(plane_p);
        let ad = line_start.dot(n);
        let bd = line_end.dot(n);
        let t: i32 = if bd == ad {
            0
        } else {
            fx_div_wide(pd as i64 - ad as i64, bd as i64 - ad as i64)
        };
        let to_end = line_end.sub(line_start);
        let p = line_start.add(to_end.scale(t));
        (p, t)
    }

    /// Clips a triangle against the plane through `plane_p` with normal
    /// `plane_n`, keeping the side the normal points to. Gives no triangle,
    /// the triangle itself, or one or two new triangles that carry its
    /// colour and interpolated texture coordinates.
    pub fn triangle_clip_against_plane(plane_p: Vector4, plane_n: Vector4, in_tri: &Triangle) -> (r:
        Vec<Triangle>)
        ensures
            r@ == clip_spec(plane_p, v4_normalize(plane_n), *in_tri),
            r@.len() <= 2,
    {
        let n = plane_n.normalize();
        let pd = n.dot(plane_p);
        let f0 = n.dot(in_tri.v1) as i64 - pd as i64 >= 0;
        let f1 = n.dot(in_tri.v2) as i64 - pd as i64 >= 0;
        let f2 = n.dot(in_tri.v3) as i64 - pd as i64 >= 0;
        let count: usize = (if f0 { 1 } else { 0 }) + (if f1 { 1 } else { 0 }) + (if f2 { 1 } else { 0 });
        if count == 0 {
            let r: Vec<Triangle> = Vec::new();
            assert(r@ =~= clip_spec(plane_p, n, *in_tri));
            r
        } else if count == 3 {
            let r = vec![*in_tri];
            assert(r@ =~= clip_spec(plane_p, n, *in_tri));
            r
        } else if count == 1 {
            let k = pick_index(f0, f1, f2, true, 0);
            let o0 = next_index(k);
            let o1 = next_index(o0);
            let p0 = in_tri.vertex(k);
            let (q1, t1) = Self::crossing_unit(plane_p, n, p0, in_tri.vertex(o0));
            let (q2, t2) = Self::crossing_unit(plane_p, n, p0, in_tri.vertex(o1));
            let uv0 = in_tri.uv[k];
            let uv1 = interpolate_uv(uv0, in_tri.uv[o0], t1);
            let uv2 = interpolate_uv(uv0, in_tri.uv[o1], t2);
            let out = Triangle { v1: p0, v2: q1, v3: q2, light_color: in_tri.light_color, uv: [uv0, uv1, uv2] };
            let r = vec![out];
            assert(r@ =~= clip_spec(plane_p, n, *in_tri));
            r
        } else {
            let o = pick_index(f0, f1, f2, false, 0);
            let ka = next_index(o);
            let kb = next_index(ka);
            let pa = in_tri.vertex(ka);
            let pb = in_tri.vertex(kb);
            let po = in_tri.vertex(o);
            let (ia, ta) = Self::crossing_unit(plane_p, n, pa, po);
            let (ib, tb) = Self::crossing_unit(plane_p, n, pb, po);
            let uva = interpolate_uv(in_tri.uv[ka], in_tri.uv[o], ta);
            let uvb = interpolate_uv(in_tri.uv[kb], in_tri.uv[o], tb);
            let a = Triangle {
                v1: pa,
                v2: pb,
                v3: ib,
                light_color: in_tri.light_color,
                uv: [in_tri.uv[ka], in_tri.uv[kb], uvb],
            };
            let b = Triangle {
                v1: pa,
                v2: ib,
                v3: ia,
                light_color: in_tri.light_color,
                uv: [in_tri.uv[ka], uvb, uva],
            };
            let r = vec![a, b];
            assert(r@ =~= clip_spec(plane_p, n, *in_tri));
            r
        }
    }
}

} // verus!
