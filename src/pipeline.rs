//! The per-frame geometry pipeline: object space to screen-space triangles,
//! the painter's sort and the screen-edge clip queue.
use vstd::prelude::*;
use crate::fixed::{FX_ONE, fx_mul_spec, fx_mul};
use crate::vector::{Vector2i, sat_add, sat_sub, add_sat, sub_sat};
use crate::vector3::{Vector3, fx_floor};
use crate::vector4::{Vector4, v4_sub, v4_cross, v4_normalize, v4_dot, v4_perspective_divide};
use crate::matrix4x4::{Matrix4x4, vec_mul};
use crate::triangle::Triangle;
use crate::clip::clip_spec;
use crate::palettes::{ShadingPalette, shading_spec};

use crate::renderer_3d::Renderer3D;

verus! {

/// A point at `(x, y, z)`.
pub open spec fn point_of(p: Vector3) -> Vector4 {
    Vector4 { x: p.x, y: p.y, z: p.z, w: 65536 }
}

/// `v` moved by `m`, then divided by its `w` (unless that is zero), as a
/// point.
pub open spec fn transform_spec(m: Matrix4x4, v: Vector4) -> Vector4 {
    point_of(v4_perspective_divide(vec_mul(m, v)))
}

/// `t` with each vertex moved by `m`; colour and texture coordinates kept.
pub open spec fn transform_tri_spec(m: Matrix4x4, t: Triangle) -> Triangle {
    Triangle { v1: transform_spec(m, t.v1), v2: transform_spec(m, t.v2), v3: transform_spec(m, t.v3), ..t }
}

/// Unit normal of the face: `(v2 - v1) x (v3 - v1)`, normalized.
pub open spec fn face_normal(t: Triangle) -> Vector4 {
    v4_normalize(v4_cross(v4_sub(t.v2, t.v1), v4_sub(t.v3, t.v1)))
}

/// Direction the light shines from: up and toward the viewer.
pub open spec fn light_dir() -> Vector4 {
    Vector4 { x: 0, y: 65536, z: -65536i32, w: 0 }
}

/// Colour `palette` gives a face with unit normal `n`.
pub open spec fn face_color(n: Vector4, palette: ShadingPalette) -> u32 {
    shading_spec(palette, v4_dot(v4_normalize(light_dir()), n))
}

/// A point of the near plane in view space (`z = 0.1`).
pub open spec fn near_point() -> Vector4 {
    Vector4 { x: 0, y: 0, z: 6553, w: 65536 }
}

/// Normal of the near plane, pointing away from the camera.
pub open spec fn near_normal() -> Vector4 {
    Vector4 { x: 0, y: 0, z: 65536, w: 65536 }
}

/// Normalized device coordinates mapped to pixels: `x` from `[-1, 1]` to
/// `[0, width]`, `y` flipped from `[-1, 1]` to `[height, 0]`.
pub open spec fn screen_spec(p: Vector3, width: int, height: int) -> Vector4 {
    Vector4 {
        x: fx_mul_spec(sat_add(p.x as int, 65536), width * 32768) as i32,
        y: fx_mul_spec(sat_sub(65536, p.y as int), height * 32768) as i32,
        z: p.z,
        w: 65536,
    }
}

/// A view-space vertex projected by `proj` and mapped to pixels.
pub open spec fn project_spec(proj: Matrix4x4, v: Vector4, width: int, height: int) -> Vector4 {
    screen_spec(v4_perspective_divide(vec_mul(proj, v)), width, height)
}

/// A view-space triangle projected to the screen.
pub open spec fn project_tri_spec(proj: Matrix4x4, t: Triangle, width: int, height: int) -> Triangle {
    Triangle {
        v1: project_spec(proj, t.v1, width, height),
        v2: project_spec(proj, t.v2, width, height),
        v3: project_spec(proj, t.v3, width, height),
        ..t
    }
}

/// The screen-space triangles that one object-space triangle yields: moved
/// to the world by `world`, lit by its world-space normal, moved to view
/// space by `view`, clipped against the near plane, and projected.
#[verifier::opaque]
pub open spec fn triangle_pipeline(
    t: Triangle,
    world: Matrix4x4,
    view: Matrix4x4,
    proj: Matrix4x4,
    width: int,
    height: int,
    palette: ShadingPalette,
) -> Seq<Triangle> {
    let tw = transform_tri_spec(world, t);
    let color = face_color(face_normal(tw), palette);
    let tv = Triangle { light_color: color, ..transform_tri_spec(view, tw) };
    clip_spec(near_point(), v4_normalize(near_normal()), tv).map_values(
        |c: Triangle| project_tri_spec(proj, c, width, height),
    )
}

/// The pipeline applied to each triangle of `tris`, results in order.
#[verifier::opaque]
pub open spec fn mesh_pipeline(
    tris: Seq<Triangle>,
    world: Matrix4x4,
    view: Matrix4x4,
    proj: Matrix4x4,
    width: int,
    height: int,
    palette: ShadingPalette,
) -> Seq<Triangle>
    decreases tris.len(),
{
    if tris.len() == 0 {
        seq![]
    } else {
        mesh_pipeline(tris.drop_last(), world, view, proj, width, height, palette) + triangle_pipeline(
            tris.last(),
            world,
            view,
            proj,
            width,
            height,
            palette,
        )
    }
}

proof fn lemma_mesh_pipeline_empty(
    tris: Seq<Triangle>,
    world: Matrix4x4,
    view: Matrix4x4,
    proj: Matrix4x4,
    width: int,
    height: int,
    palette: ShadingPalette,
)
    requires
        tris.len() == 0,
    ensures
        mesh_pipeline(tris, world, view, proj, width, height, palette) == Seq::<Triangle>::empty(),
{
    reveal(mesh_pipeline);
}

proof fn lemma_mesh_pipeline_step(
    tris: Seq<Triangle>,
    world: Matrix4x4,
    view: Matrix4x4,
    proj: Matrix4x4,
    width: int,
    height: int,
    palette: ShadingPalette,
)
    requires
        tris.len() > 0,
    ensures
        mesh_pipeline(tris, world, view, proj, width, height, palette) == mesh_pipeline(
            tris.drop_last(),
            world,
            view,
            proj,
            width,
            height,
            palette,
        ) + triangle_pipeline(tris.last(), world, view, proj, width, height, palette),
{
    reveal(mesh_pipeline);
}

/// Depth key of the painter's sort: the sum of the vertices' `z`.
pub open spec fn depth_key(t: Triangle) -> int {
    t.v1.z + t.v2.z + t.v3.z
}

/// Farthest first: depth keys never increase along `s`.
pub open spec fn back_to_front(s: Seq<Triangle>) -> bool {
    forall|i: int, j: int| 0 <= i < j < s.len() ==> depth_key(#[trigger] s[i]) >= depth_key(#[trigger] s[j])
}

/// Where a triangle of depth key `k` goes into the farthest-first list `s`:
/// after every triangle at least as far, so that equal keys keep their
/// order of arrival.
pub open spec fn insert_pos(s: Seq<Triangle>, k: int) -> int
    decreases s.len(),
{
    if s.len() == 0 {
        0
    } else if depth_key(s[0]) < k {
        0
    } else {
        1 + insert_pos(s.drop_first(), k)
    }
}

/// The painter's order of `s`: each triangle in turn inserted at
/// `insert_pos`. Farthest first; triangles with equal keys keep their order
/// in `s`.
pub open spec fn painter_order(s: Seq<Triangle>) -> Seq<Triangle>
    decreases s.len(),
{
    if s.len() == 0 {
        seq![]
    } else {
        let p = painter_order(s.drop_last());
        p.insert(insert_pos(p, depth_key(s.last())), s.last())
    }
}

/// Each triangle of `s` clipped against one plane, results in order.
pub open spec fn clip_all(plane_p: Vector4, n: Vector4, s: Seq<Triangle>) -> Seq<Triangle>
    decreases s.len(),
{
    if s.len() == 0 {
        seq![]
    } else {
        clip_all(plane_p, n, s.drop_last()) + clip_spec(plane_p, n, s.last())
    }
}

/// Point of screen edge `edge`: top, bottom, left, right.
pub open spec fn edge_point(edge: int, width: int, height: int) -> Vector4 {
    if edge == 0 {
        Vector4 { x: 0, y: 0, z: 0, w: 65536 }
    } else if edge == 1 {
        Vector4 { x: 0, y: ((height - 1) * 65536) as i32, z: 0, w: 65536 }
    } else if edge == 2 {
        Vector4 { x: 0, y: 0, z: 0, w: 65536 }
    } else {
        Vector4 { x: ((width - 1) * 65536) as i32, y: 0, z: 0, w: 65536 }
    }
}

/// Inward normal of screen edge `edge`.
pub open spec fn edge_normal(edge: int) -> Vector4 {
    if edge == 0 {
        Vector4 { x: 0, y: 65536, z: 0, w: 65536 }
    } else if edge == 1 {
        Vector4 { x: 0, y: -65536i32, z: 0, w: 65536 }
    } else if edge == 2 {
        Vector4 { x: 65536, y: 0, z: 0, w: 65536 }
    } else {
        Vector4 { x: -65536i32, y: 0, z: 0, w: 65536 }
    }
}

/// The triangles left of `s` after clipping against screen edges `0`
/// through `edges - 1`, one edge at a time.
pub open spec fn screen_clip_spec(s: Seq<Triangle>, edges: int, width: int, height: int) -> Seq<Triangle>
    decreases edges,
{
    if edges <= 0 {
        s
    } else {
        let prev = screen_clip_spec(s, edges - 1, width, height);
        clip_all(edge_point(edges - 1, width, height), v4_normalize(edge_normal(edges - 1)), prev)
    }
}

/// `v` moved by `m`, then divided by its `w` (unless zero), as a point.
pub fn transform_vertex(m: &Matrix4x4, v: &Vector4) -> (r: Vector4)
    ensures
        r == transform_spec(*m, *v),
{
    let h = Matrix4x4::multiply_vec(m, v);
    let p = h.perspective_divide();
    Vector4 { x: p.x, y: p.y, z: p.z, w: FX_ONE }
}

/// `t` with each vertex moved by `m`.
pub fn transform_triangle(m: &Matrix4x4, t: &Triangle) -> (r: Triangle)
    ensures
        r == transform_tri_spec(*m, *t),
{
    Triangle {
        v1: transform_vertex(m, &t.v1),
        v2: transform_vertex(m, &t.v2),
        v3: transform_vertex(m, &t.v3),
        ..*t
    }
}

/// Normalized device coordinates mapped to pixels.
pub fn to_screen(p: Vector3, width: usize, height: usize) -> (r: Vector4)
    requires
        width <= 0x7fff,
        height <= 0x7fff,
    ensures
        r == screen_spec(p, width as int, height as int),
{
    let half_w: i32 = (width as i32) * 32768;
    let half_h: i32 = (height as i32) * 32768;
    Vector4 {
        x: fx_mul(add_sat(p.x, FX_ONE), half_w),
        y: fx_mul(sub_sat(FX_ONE, p.y), half_h),
        z: p.z,
        w: FX_ONE,
    }
}

/// A view-space triangle projected by `proj` to pixels.
pub fn project_triangle(proj: &Matrix4x4, t: &Triangle, width: usize, height: usize) -> (r: Triangle)
    requires
        width <= 0x7fff,
        height <= 0x7fff,
    ensures
        r == project_tri_spec(*proj, *t, width as int, height as int),
{
    let p1 = Matrix4x4::multiply_vec(proj, &t.v1).perspective_divide();
    let p2 = Matrix4x4::multiply_vec(proj, &t.v2).perspective_divide();
    let p3 = Matrix4x4::multiply_vec(proj, &t.v3).perspective_divide();
    Triangle {
        v1: to_screen(p1, width, height),
        v2: to_screen(p2, width, height),
        v3: to_screen(p3, width, height),
        ..*t
    }
}

/// The screen-space triangles one object-space triangle yields (see
/// `triangle_pipeline`).
pub fn process_triangle(
    t: &Triangle,
    world: &Matrix4x4,
    view: &Matrix4x4,
    proj: &Matrix4x4,
    width: usize,
    height: usize,
    palette: ShadingPalette,
) -> (r: Vec<Triangle>)
    requires
        width <= 0x7fff,
        height <= 0x7fff,
    ensures
        r@ == triangle_pipeline(*t, *world, *view, *proj, width as int, height as int, palette),
{
    let tw = transform_triangle(world, t);
    let l1 = tw.v2.sub(tw.v1);
    let l2 = tw.v3.sub(tw.v1);
    let normal = l1.cross(l2).normalize();
    let light = Vector4 { x: 0, y: FX_ONE, z: -FX_ONE, w: 0 }.normalize();
    let dp = light.dot(normal);
    let color = Renderer3D::get_shading_color(dp, palette);
    let tv = Triangle { light_color: color, ..transform_triangle(view, &tw) };
    let near_p = Vector4 { x: 0, y: 0, z: 6553, w: FX_ONE };
    let near_n = Vector4 { x: 0, y: 0, z: FX_ONE, w: FX_ONE };
    let clipped = Renderer3D::triangle_clip_against_plane(near_p, near_n, &tv);
    let ghost cl = clipped@;
    let mut out: Vec<Triangle> = Vec::new();
    let mut i: usize = 0;
    while i < clipped.len()
        invariant
            width <= 0x7fff,
            height <= 0x7fff,
            cl == clipped@,
            0 <= i <= clipped@.len(),
            out@ =~= cl.subrange(0, i as int).map_values(|c: Triangle| project_tri_spec(*proj, c, width as int, height as int)),
        decreases clipped@.len() - i,
    {
        let p = project_triangle(proj, &clipped[i], width, height);
        out.push(p);
        i = i + 1;
        assert(cl.subrange(0, i as int).drop_last() =~= cl.subrange(0, i - 1));
    }
    assert(cl.subrange(0, cl.len() as int) =~= cl);
    proof {
        reveal(triangle_pipeline);
    }
    out
}

/// The screen-space triangles of all of `tris`, in order.
pub fn process_mesh(
    tris: &Vec<Triangle>,
    world: &Matrix4x4,
    view: &Matrix4x4,
    proj: &Matrix4x4,
    width: usize,
    height: usize,
    palette: ShadingPalette,
) -> (r: Vec<Triangle>)
    requires
        width <= 0x7fff,
        height <= 0x7fff,
    ensures
        r@ == mesh_pipeline(tris@, *world, *view, *proj, width as int, height as int, palette),
{
    let mut out: Vec<Triangle> = Vec::new();
    let mut i: usize = 0;
    proof {
        lemma_mesh_pipeline_empty(tris@.subrange(0, 0), *world, *view, *proj, width as int, height as int, palette);
    }
    while i < tris.len()
        invariant
            width <= 0x7fff,
            height <= 0x7fff,
            0 <= i <= tris@.len(),
            out@ == mesh_pipeline(tris@.subrange(0, i as int), *world, *view, *proj, width as int, height as int, palette),
        decreases tris@.len() - i,
    {
        let mut part = process_triangle(&tris[i], world, view, proj, width, height, palette);
        let ghost before = out@;
        out.append(&mut part);
        i = i + 1;
        proof {
            let s = tris@.subrange(0, i as int);
            assert(s.drop_last() =~= tris@.subrange(0, i - 1));
            assert(s.last() == tris@[i - 1]);
            lemma_mesh_pipeline_step(s, *world, *view, *proj, width as int, height as int, palette);
        }
    }
    assert(tris@.subrange(0, tris@.len() as int) =~= tris@);
    out
}

/// Sorts `tris` farthest first (by the sum of their vertices' `z`), stably:
/// triangles with equal keys keep their order.
pub fn sort_back_to_front(tris: Vec<Triangle>) -> (r: Vec<Triangle>)
    ensures
        r@ == painter_order(tris@),
        back_to_front(r@),
        r@.to_multiset() == tris@.to_multiset(),
{
    let mut out: Vec<Triangle> = Vec::new();
    let mut i: usize = 0;
    assert(out@ =~= tris@.subrange(0, 0));
    assert(painter_order(tris@.subrange(0, 0)) =~= Seq::<Triangle>::empty());
    while i < tris.len()
        invariant
            0 <= i <= tris@.len(),
            back_to_front(out@),
            out@.to_multiset() == tris@.subrange(0, i as int).to_multiset(),
            out@ == painter_order(tris@.subrange(0, i as int)),
        decreases tris@.len() - i,
    {
        let t = tris[i];
        let key: i64 = t.v1.z as i64 + t.v2.z as i64 + t.v3.z as i64;
        let mut pos: usize = 0;
        assert(out@.subrange(0, out@.len() as int) =~= out@);
        while pos < out.len() && (out[pos].v1.z as i64 + out[pos].v2.z as i64 + out[pos].v3.z as i64) >= key
            invariant
                0 <= pos <= out@.len(),
                key == depth_key(t),
                forall|j: int| 0 <= j < pos ==> depth_key(#[trigger] out@[j]) >= key,
                insert_pos(out@, key as int) == pos + insert_pos(out@.subrange(pos as int, out@.len() as int), key as int),
            decreases out@.len() - pos,
        {
            proof {
                let sub = out@.subrange(pos as int, out@.len() as int);
                assert(sub[0] == out@[pos as int]);
                assert(sub.drop_first() =~= out@.subrange(pos + 1, out@.len() as int));
            }
            pos = pos + 1;
        }
        proof {
            let sub = out@.subrange(pos as int, out@.len() as int);
            if pos < out@.len() {
                assert(sub[0] == out@[pos as int]);
            }
            assert(insert_pos(sub, key as int) == 0);
        }
        let ghost before = out@;
        out.insert(pos, t);
        proof {
            vstd::seq_lib::to_multiset_insert(before, pos as int, t);
            let s = tris@.subrange(0, i + 1);
            assert(s =~= tris@.subrange(0, i as int).push(t));
            assert(s.drop_last() =~= tris@.subrange(0, i as int));
            assert(s.last() == t);
            vstd::seq_lib::to_multiset_build(tris@.subrange(0, i as int), t);
            assert forall|a: int, b: int| 0 <= a < b < out@.len() implies depth_key(#[trigger] out@[a]) >= depth_key(#[trigger] out@[b]) by {
                if pos < before.len() {
                    assert(depth_key(before[pos as int]) < key);
                }
                if b == pos {
                    assert(out@[a] == before[a]);
                } else if a == pos {
                    assert(out@[b] == before[b - 1]);
                    if b - 1 > pos {
                        assert(depth_key(before[pos as int]) >= depth_key(before[b - 1]));
                    }
                } else if a < pos && b < pos {
                    assert(out@[a] == before[a] && out@[b] == before[b]);
                } else if a < pos {
                    assert(out@[a] == before[a] && out@[b] == before[b - 1]);
                } else {
                    assert(out@[a] == before[a - 1] && out@[b] == before[b - 1]);
                }
            }
        }
        i = i + 1;
    }
    assert(tris@.subrange(0, tris@.len() as int) =~= tris@);
    out
}

/// Each triangle of `queue` clipped against one plane, results in order.
pub fn clip_queue(plane_p: Vector4, plane_n: Vector4, queue: &Vec<Triangle>) -> (r: Vec<Triangle>)
    ensures
        r@ == clip_all(plane_p, v4_normalize(plane_n), queue@),
{
    let mut out: Vec<Triangle> = Vec::new();
    let mut i: usize = 0;
    while i < queue.len()
        invariant
            0 <= i <= queue@.len(),
            out@ == clip_all(plane_p, v4_normalize(plane_n), queue@.subrange(0, i as int)),
        decreases queue@.len() - i,
    {
        let mut part = Renderer3D::triangle_clip_against_plane(plane_p, plane_n, &queue[i]);
        out.append(&mut part);
        i = i + 1;
        proof {
            let s = queue@.subrange(0, i as int);
            assert(s.drop_last() =~= queue@.subrange(0, i - 1));
        }
    }
    assert(queue@.subrange(0, queue@.len() as int) =~= queue@);
    out
}

/// A screen-space triangle clipped against the four screen edges in turn
/// (top, bottom, left, right), each edge consuming what the last one left.
pub fn clip_to_screen(t: &Triangle, width: usize, height: usize) -> (r: Vec<Triangle>)
    requires
        1 <= width <= 0x7fff,
        1 <= height <= 0x7fff,
    ensures
        r@ == screen_clip_spec(seq![*t], 4, width as int, height as int),
{
    let mut queue: Vec<Triangle> = vec![*t];
    let mut edge: usize = 0;
    while edge < 4
        invariant
            1 <= width <= 0x7fff,
            1 <= height <= 0x7fff,
            0 <= edge <= 4,
            queue@ == screen_clip_spec(seq![*t], edge as int, width as int, height as int),
        decreases 4 - edge,
    {
        let bottom: i32 = (height as i32 - 1) * FX_ONE;
        let right: i32 = (width as i32 - 1) * FX_ONE;
        let (p, n) = if edge == 0 {
            (Vector4 { x: 0, y: 0, z: 0, w: FX_ONE }, Vector4 { x: 0, y: FX_ONE, z: 0, w: FX_ONE })
        } else if edge == 1 {
            (Vector4 { x: 0, y: bottom, z: 0, w: FX_ONE }, Vector4 { x: 0, y: -FX_ONE, z: 0, w: FX_ONE })
        } else if edge == 2 {
            (Vector4 { x: 0, y: 0, z: 0, w: FX_ONE }, Vector4 { x: FX_ONE, y: 0, z: 0, w: FX_ONE })
        } else {
            (Vector4 { x: right, y: 0, z: 0, w: FX_ONE }, Vector4 { x: -FX_ONE, y: 0, z: 0, w: FX_ONE })
        };
        assert(p == edge_point(edge as int, width as int, height as int));
        assert(n == edge_normal(edge as int));
        queue = clip_queue(p, n, &queue);
        edge = edge + 1;
    }
    queue
}

/// The pixel under a screen-space vertex.
pub open spec fn pixel_of(v: Vector4) -> Vector2i {
    Vector2i { x: fx_floor(v.x as int) as i32, y: fx_floor(v.y as int) as i32 }
}

} // verus!
