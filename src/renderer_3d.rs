//! The 3D renderer: a 2D renderer plus a depth buffer, and the frame loop
//! body that turns meshes into pixels.
use vstd::prelude::*;
use crate::renderer_2d::{Renderer2D, painted, fill_covers, line_covers, pixel_index, sort_by_y, sort_uv_by_y, lemma_pixel_index};
use crate::fixed::{clamp_i32, floor_div, fx_div_spec, fx_div, clamp_to_i32, floor_div_i128};
use crate::vector3::Vector3;
use crate::texture::{Texture, texel_spec, pack4};
use crate::vector::Vector2i;
use crate::vector3::fx_floor_exec;

use crate::matrix4x4::Matrix4x4;
use crate::triangle::Triangle;
use crate::mesh::Mesh;
use crate::object3d::{Camera3D, world_spec, view_spec};
use crate::palettes::ShadingPalette;
use crate::pipeline::{
    painter_order,mesh_pipeline, back_to_front, screen_clip_spec, pixel_of, process_mesh, sort_back_to_front, clip_to_screen};

verus! {

/// A pixel renderer with one depth value per pixel. Depth values are
/// reciprocal depths: larger is nearer.
pub struct Renderer3D {
    pub renderer_2d: Renderer2D,
    pub depth_buffer: Vec<i32>,
}

/// The screen-space triangles of all meshes, mesh by mesh, in order.
pub open spec fn scene_pipeline(
    meshes: Seq<Mesh>,
    view: Matrix4x4,
    proj: Matrix4x4,
    width: int,
    height: int,
    palette: ShadingPalette,
) -> Seq<Triangle>
    decreases meshes.len(),
{
    if meshes.len() == 0 {
        seq![]
    } else {
        let m = meshes.last();
        scene_pipeline(meshes.drop_last(), view, proj, width, height, palette) + mesh_pipeline(
            m.tris@,
            world_spec(m.obj),
            view,
            proj,
            width,
            height,
            palette,
        )
    }
}

/// Each triangle of `s` clipped to the screen, results in order.
pub open spec fn screen_clip_each(s: Seq<Triangle>, width: int, height: int) -> Seq<Triangle>
    decreases s.len(),
{
    if s.len() == 0 {
        seq![]
    } else {
        screen_clip_each(s.drop_last(), width, height) + screen_clip_spec(seq![s.last()], 4, width, height)
    }
}

/// Pixel `(x, y)` lies on an edge of `t` drawn as lines.
pub open spec fn edge_covers(t: Triangle, x: int, y: int) -> bool {
    let a = pixel_of(t.v1);
    let b = pixel_of(t.v2);
    let c = pixel_of(t.v3);
    line_covers(a, b, x, y) || line_covers(b, c, x, y) || line_covers(c, a, x, y)
}

/// Pixel `(x, y)` lies in the scanline fill of `t`.
pub open spec fn face_covers(t: Triangle, x: int, y: int) -> bool {
    fill_covers(pixel_of(t.v1), pixel_of(t.v2), pixel_of(t.v3), x, y)
}

/// Colour of pixel `(x, y)` after drawing `tris` in order over a buffer of
/// colour `background`, each filled with its colour and then outlined in
/// `edge_color`: the last triangle that covers the pixel decides.
pub open spec fn frame_pixel(tris: Seq<Triangle>, x: int, y: int, background: u32, edge_color: u32) -> u32
    decreases tris.len(),
{
    if tris.len() == 0 {
        background
    } else {
        let t = tris.last();
        if edge_covers(t, x, y) {
            edge_color
        } else if face_covers(t, x, y) {
            t.light_color
        } else {
            frame_pixel(tris.drop_last(), x, y, background, edge_color)
        }
    }
}

impl Renderer3D {
    /// The renderer is well formed: its buffers hold one entry per pixel.
    pub open spec fn wf(&self) -> bool {
        &&& self.renderer_2d.wf()
        &&& self.depth_buffer@.len() == self.renderer_2d.buffer@.len()
    }

    /// A renderer over `buffer` (one colour per pixel) with a cleared depth
    /// buffer.
    pub fn new(buffer: Vec<u32>, width: usize, height: usize) -> (r: Self)
        requires
            buffer@.len() == width * height,
            width <= i32::MAX,
            height <= i32::MAX,
        ensures
            r.wf(),
            r.renderer_2d.buffer@ == buffer@,
            r.renderer_2d.width == width,
            r.renderer_2d.height == height,
            forall|i: int| 0 <= i < r.depth_buffer@.len() ==> r.depth_buffer@[i] == 0,
    {
        let n = buffer.len();
        let renderer_2d = Renderer2D::new(buffer, width, height);
        let mut depth_buffer: Vec<i32> = Vec::new();
        let mut i: usize = 0;
        while i < n
            invariant
                0 <= i <= n,
                depth_buffer@.len() == i,
                forall|j: int| 0 <= j < i ==> depth_buffer@[j] == 0,
            decreases n - i,
        {
            depth_buffer.push(0);
            i = i + 1;
        }
        Self { renderer_2d, depth_buffer }
    }

    pub fn width(&self) -> (r: usize)
        ensures
            r == self.renderer_2d.width,
    {
        self.renderer_2d.width
    }

    pub fn height(&self) -> (r: usize)
        ensures
            r == self.renderer_2d.height,
    {
        self.renderer_2d.height
    }

    /// Sets every depth value to 0 (infinitely far).
    pub fn clear_depth(&mut self)
        requires
            old(self).wf(),
        ensures
            final(self).wf(),
            final(self).renderer_2d == old(self).renderer_2d,
            forall|i: int| 0 <= i < final(self).depth_buffer@.len() ==> final(self).depth_buffer@[i] == 0,
    {
        let n = self.depth_buffer.len();
        let mut i: usize = 0;
        while i < n
            invariant
                self.renderer_2d == old(self).renderer_2d,
                self.depth_buffer@.len() == n,
                n == old(self).depth_buffer@.len(),
                old(self).wf(),
                0 <= i <= n,
                forall|j: int| 0 <= j < i ==> self.depth_buffer@[j] == 0,
            decreases n - i,
        {
            self.depth_buffer.set(i, 0);
            i = i + 1;
        }
    }

    /// Fills `t` with its colour, then outlines it in `edge_color`.
    fn raster_triangle(&mut self, t: &Triangle, edge_color: u32)
        requires
            old(self).wf(),
        ensures
            final(self).wf(),
            final(self).depth_buffer == old(self).depth_buffer,
            final(self).renderer_2d.width == old(self).renderer_2d.width,
            final(self).renderer_2d.height == old(self).renderer_2d.height,
            forall|x: int, y: int|
                final(self).renderer_2d.in_bounds(x, y) ==> #[trigger] final(self).renderer_2d.pixel(x, y) == if edge_covers(*t, x, y) {
                    edge_color
                } else if face_covers(*t, x, y) {
                    t.light_color
                } else {
                    old(self).renderer_2d.pixel(x, y)
                },
    {
        let a = Vector2i { x: fx_floor_exec(t.v1.x), y: fx_floor_exec(t.v1.y) };
        let b = Vector2i { x: fx_floor_exec(t.v2.x), y: fx_floor_exec(t.v2.y) };
        let c = Vector2i { x: fx_floor_exec(t.v3.x), y: fx_floor_exec(t.v3.y) };
        let ghost s0 = self.renderer_2d;
        self.renderer_2d.fill_triangle(a, b, c, t.light_color);
        let ghost s1 = self.renderer_2d;
        self.renderer_2d.draw_triangle(a, b, c, edge_color);
        proof {
            assert forall|x: int, y: int| self.renderer_2d.in_bounds(x, y) implies #[trigger] self.renderer_2d.pixel(x, y) == if edge_covers(*t, x, y) {
                edge_color
            } else if face_covers(*t, x, y) {
                t.light_color
            } else {
                s0.pixel(x, y)
            } by {
                assert(s1.pixel(x, y) == if fill_covers(a, b, c, x, y) {
                    t.light_color
                } else {
                    s0.pixel(x, y)
                });
            }
        }
    }

    /// Draws `pieces` in order, appending each to `drawn`.
    fn draw_pieces(&mut self, pieces: &Vec<Triangle>, drawn: &mut Vec<Triangle>, edge_color: u32)
        requires
            old(self).wf(),
            forall|x: int, y: int|
                old(self).renderer_2d.in_bounds(x, y) ==> #[trigger] old(self).renderer_2d.pixel(x, y)
                    == frame_pixel(old(drawn)@, x, y, 0, edge_color),
        ensures
            final(self).wf(),
            final(self).depth_buffer == old(self).depth_buffer,
            final(self).renderer_2d.width == old(self).renderer_2d.width,
            final(self).renderer_2d.height == old(self).renderer_2d.height,
            final(drawn)@ == old(drawn)@ + pieces@,
            forall|x: int, y: int|
                final(self).renderer_2d.in_bounds(x, y) ==> #[trigger] final(self).renderer_2d.pixel(x, y)
                    == frame_pixel(final(drawn)@, x, y, 0, edge_color),
    {
        let ghost base = drawn@;
        let mut j: usize = 0;
        while j < pieces.len()
            invariant
                self.wf(),
                self.depth_buffer == old(self).depth_buffer,
                self.renderer_2d.width == old(self).renderer_2d.width,
                self.renderer_2d.height == old(self).renderer_2d.height,
                base == old(drawn)@,
                0 <= j <= pieces@.len(),
                drawn@ == base + pieces@.subrange(0, j as int),
                forall|x: int, y: int|
                    self.renderer_2d.in_bounds(x, y) ==> #[trigger] self.renderer_2d.pixel(x, y)
                        == frame_pixel(drawn@, x, y, 0, edge_color),
            decreases pieces@.len() - j,
        {
            let ghost before = drawn@;
            let ghost r0 = self.renderer_2d;
            self.raster_triangle(&pieces[j], edge_color);
            drawn.push(pieces[j]);
            proof {
                assert(drawn@.drop_last() == before);
                assert(drawn@.last() == pieces@[j as int]);
                assert(pieces@.subrange(0, j + 1) =~= pieces@.subrange(0, j as int).push(pieces@[j as int]));
                assert(drawn@ =~= base + pieces@.subrange(0, j + 1));
                assert forall|x: int, y: int| self.renderer_2d.in_bounds(x, y) implies #[trigger] self.renderer_2d.pixel(x, y)
                    == frame_pixel(drawn@, x, y, 0, edge_color) by {
                    assert(r0.pixel(x, y) == frame_pixel(before, x, y, 0, edge_color));
                }
            }
            j = j + 1;
        }
        assert(pieces@.subrange(0, pieces@.len() as int) =~= pieces@);
    }

    /// Renders one frame: clears the buffers, sends every mesh's triangles
    /// through the pipeline seen from `camera` and projected by `proj`,
    /// sorts them farthest first (stably: equal depths keep their order),
    /// clips each to the screen edges and draws
    /// the pieces filled with their colours and outlined in `edge_color`.
    /// Gives the pieces drawn, in drawing order.
    pub fn render_frame(
        &mut self,
        meshes: &Vec<Mesh>,
        camera: &Camera3D,
        proj: &Matrix4x4,
        palette: ShadingPalette,
        edge_color: u32,
    ) -> (r: Vec<Triangle>)
        requires
            old(self).wf(),
            1 <= old(self).renderer_2d.width <= 0x7fff,
            1 <= old(self).renderer_2d.height <= 0x7fff,
        ensures
            final(self).wf(),
            final(self).renderer_2d.width == old(self).renderer_2d.width,
            final(self).renderer_2d.height == old(self).renderer_2d.height,
            forall|i: int| 0 <= i < final(self).depth_buffer@.len() ==> final(self).depth_buffer@[i] == 0,
            r@ == screen_clip_each(
                painter_order(scene_pipeline(
                    meshes@,
                    view_spec(camera.position, camera.yaw),
                    *proj,
                    old(self).renderer_2d.width as int,
                    old(self).renderer_2d.height as int,
                    palette,
                )),
                old(self).renderer_2d.width as int,
                old(self).renderer_2d.height as int,
            ),
            forall|x: int, y: int|
                final(self).renderer_2d.in_bounds(x, y) ==> #[trigger] final(self).renderer_2d.pixel(x, y)
                    == frame_pixel(r@, x, y, 0, edge_color),
    {
        let width = self.renderer_2d.width;
        let height = self.renderer_2d.height;
        self.renderer_2d.clear(0);
        self.clear_depth();
        let view = camera.calc_view();
        let all = collect_scene(meshes, &view, proj, width, height, palette);
        let ghost scene = all@;
        let sorted = sort_back_to_front(all);
        let mut drawn: Vec<Triangle> = Vec::new();
        let mut i: usize = 0;
        while i < sorted.len()
            invariant
                self.wf(),
                self.renderer_2d.width == width,
                self.renderer_2d.height == height,
                1 <= width <= 0x7fff,
                1 <= height <= 0x7fff,
                forall|j: int| 0 <= j < self.depth_buffer@.len() ==> self.depth_buffer@[j] == 0,
                0 <= i <= sorted@.len(),
                drawn@ == screen_clip_each(sorted@.subrange(0, i as int), width as int, height as int),
                forall|x: int, y: int|
                    self.renderer_2d.in_bounds(x, y) ==> #[trigger] self.renderer_2d.pixel(x, y)
                        == frame_pixel(drawn@, x, y, 0, edge_color),
            decreases sorted@.len() - i,
        {
            let pieces = clip_to_screen(&sorted[i], width, height);
            self.draw_pieces(&pieces, &mut drawn, edge_color);
            proof {
                let s = sorted@.subrange(0, i + 1);
                assert(s.drop_last() =~= sorted@.subrange(0, i as int));
                assert(s.last() == sorted@[i as int]);
            }
            i = i + 1;
        }
        assert(sorted@.subrange(0, sorted@.len() as int) =~= sorted@);
        drawn
    }
}

impl Renderer3D {
    /// Renders a frame that holds `mesh` alone (see `render_frame`).
    pub fn draw_mesh(
        &mut self,
        mesh: Mesh,
        camera: &Camera3D,
        proj: &Matrix4x4,
        palette: ShadingPalette,
        edge_color: u32,
    ) -> (r: Vec<Triangle>)
        requires
            old(self).wf(),
            1 <= old(self).renderer_2d.width <= 0x7fff,
            1 <= old(self).renderer_2d.height <= 0x7fff,
        ensures
            final(self).wf(),
            final(self).renderer_2d.width == old(self).renderer_2d.width,
            final(self).renderer_2d.height == old(self).renderer_2d.height,
            r@ == screen_clip_each(
                painter_order(mesh_pipeline(
                    mesh.tris@,
                    world_spec(mesh.obj),
                    view_spec(camera.position, camera.yaw),
                    *proj,
                    old(self).renderer_2d.width as int,
                    old(self).renderer_2d.height as int,
                    palette,
                )),
                old(self).renderer_2d.width as int,
                old(self).renderer_2d.height as int,
            ),
            forall|x: int, y: int|
                final(self).renderer_2d.in_bounds(x, y) ==> #[trigger] final(self).renderer_2d.pixel(x, y)
                    == frame_pixel(r@, x, y, 0, edge_color),
    {
        let ghost m = mesh;
        let meshes = vec![mesh];
        proof {
            let s = meshes@;
            assert(s.drop_last() =~= Seq::<Mesh>::empty());
            assert(s.last() == m);
            let v = view_spec(camera.position, camera.yaw);
            let w = self.renderer_2d.width as int;
            let h = self.renderer_2d.height as int;
            assert(scene_pipeline(s.drop_last(), v, *proj, w, h, palette) =~= Seq::<Triangle>::empty());
            assert(scene_pipeline(s, v, *proj, w, h, palette) =~= mesh_pipeline(m.tris@, world_spec(m.obj), v, *proj, w, h, palette));
        }
        self.render_frame(&meshes, camera, proj, palette, edge_color)
    }
}

/// The screen-space triangles of all meshes seen through `view`.
fn collect_scene(
    meshes: &Vec<Mesh>,
    view: &Matrix4x4,
    proj: &Matrix4x4,
    width: usize,
    height: usize,
    palette: ShadingPalette,
) -> (r: Vec<Triangle>)
    requires
        width <= 0x7fff,
        height <= 0x7fff,
    ensures
        r@ == scene_pipeline(meshes@, *view, *proj, width as int, height as int, palette),
{
    let mut all: Vec<Triangle> = Vec::new();
    let mut k: usize = 0;
    while k < meshes.len()
        invariant
            width <= 0x7fff,
            height <= 0x7fff,
            0 <= k <= meshes@.len(),
            all@ == scene_pipeline(meshes@.subrange(0, k as int), *view, *proj, width as int, height as int, palette),
        decreases meshes@.len() - k,
    {
        let world = meshes[k].obj.transform_matrix();
        let mut part = process_mesh(&meshes[k].tris, &world, view, proj, width, height, palette);
        all.append(&mut part);
        k = k + 1;
        proof {
            let s = meshes@.subrange(0, k as int);
            assert(s.drop_last() =~= meshes@.subrange(0, k - 1));
        }
    }
    assert(meshes@.subrange(0, meshes@.len() as int) =~= meshes@);
    all
}

/// `a + (b - a) * n / d`, rounded down and saturated (for `d > 0`).
pub open spec fn lerp_spec(a: int, b: int, n: int, d: int) -> int {
    clamp_i32(a + floor_div((b - a) * n, d))
}

/// Texture coordinates interpolated from `a` toward `b` by `n / d`.
pub open spec fn lerp_uvw(a: Vector3, b: Vector3, n: int, d: int) -> Vector3 {
    Vector3 {
        x: lerp_spec(a.x as int, b.x as int, n, d) as i32,
        y: lerp_spec(a.y as int, b.y as int, n, d) as i32,
        z: lerp_spec(a.z as int, b.z as int, n, d) as i32,
    }
}

/// The two ends of row `y` of the triangle `a`, `b`, `c` (sorted by `y`):
/// `x` and texture coordinates where the row crosses the long edge `a -> c`
/// and the short edge of its half, left end first. Rows from `a.y` up to
/// (not including) `b.y` form the upper half, rows from `b.y` to `c.y` the
/// lower one; a half of zero height has no rows.
pub open spec fn tex_row(
    a: Vector2i,
    ua: Vector3,
    b: Vector2i,
    ub: Vector3,
    c: Vector2i,
    uc: Vector3,
    y: int,
) -> Option<(int, Vector3, int, Vector3)> {
    let upper = a.y <= y < b.y;
    let lower = b.y <= y <= c.y && b.y < c.y;
    if !(upper || lower) || c.y <= a.y {
        None
    } else {
        let lx = lerp_spec(a.x as int, c.x as int, y - a.y, c.y - a.y);
        let lu = lerp_uvw(ua, uc, y - a.y, c.y - a.y);
        let (sx, su) = if upper {
            (lerp_spec(a.x as int, b.x as int, y - a.y, b.y - a.y), lerp_uvw(ua, ub, y - a.y, b.y - a.y))
        } else {
            (lerp_spec(b.x as int, c.x as int, y - b.y, c.y - b.y), lerp_uvw(ub, uc, y - b.y, c.y - b.y))
        };
        if lx > sx {
            Some((sx, su, lx, lu))
        } else {
            Some((lx, lu, sx, su))
        }
    }
}

/// Colour sampled from `tex` at the perspective-divided coordinates of `q`
/// (`u / w`, `v / w`, scaled to the texture's size), if `w` is positive
/// and the texel exists.
pub open spec fn sample_spec(tex: &Texture, q: Vector3) -> Option<u32> {
    if q.z <= 0 {
        None
    } else {
        let tx = floor_div(fx_div_spec(q.x as int, q.z as int) * tex.width, 65536);
        let ty = floor_div(fx_div_spec(q.y as int, q.z as int) * tex.height, 65536);
        if tx < 0 || ty < 0 || tx > u32::MAX || ty > u32::MAX {
            None
        } else {
            match texel_spec(tex, tx, ty) {
                Some(p) => Some(pack4(0, p[0], p[1], p[2]) as u32),
                None => None,
            }
        }
    }
}

/// What the textured fill puts at pixel `(x, y)`: its colour and depth
/// `w`, if the pixel lies in a row span (left end included, right end not)
/// and the texture gives it a colour.
pub open spec fn tex_fragment(
    a: Vector2i,
    ua: Vector3,
    b: Vector2i,
    ub: Vector3,
    c: Vector2i,
    uc: Vector3,
    tex: &Texture,
    x: int,
    y: int,
) -> Option<(u32, i32)> {
    match tex_row(a, ua, b, ub, c, uc, y) {
        None => None,
        Some((ax, au, bx, bu)) => if ax <= x < bx {
            let q = lerp_uvw(au, bu, x - ax, bx - ax);
            match sample_spec(tex, q) {
                Some(color) => Some((color, q.z)),
                None => None,
            }
        } else {
            None
        },
    }
}

/// `tex_fragment` of the triangle as a function of the pixel.
pub open spec fn frag_fn(
    a: Vector2i,
    ua: Vector3,
    b: Vector2i,
    ub: Vector3,
    c: Vector2i,
    uc: Vector3,
    tex: &Texture,
) -> spec_fn(int, int) -> Option<(u32, i32)> {
    |px: int, py: int| tex_fragment(a, ua, b, ub, c, uc, tex, px, py)
}

/// `new` is `old` with the fragments `f` gives on the pixels where `region`
/// holds, each written (colour and depth) only where its depth is greater
/// than the depth already stored.
pub open spec fn depth_painted(
    old: &Renderer3D,
    new: &Renderer3D,
    f: spec_fn(int, int) -> Option<(u32, i32)>,
    region: spec_fn(int, int) -> bool,
) -> bool {
    let w = old.renderer_2d.width as int;
    &&& new.wf()
    &&& new.renderer_2d.width == old.renderer_2d.width
    &&& new.renderer_2d.height == old.renderer_2d.height
    &&& forall|x: int, y: int|
        #![trigger new.renderer_2d.pixel(x, y)]
        new.renderer_2d.in_bounds(x, y) ==> {
            let i = pixel_index(w, x, y);
            if region(x, y) && f(x, y) is Some && f(x, y).unwrap().1 > old.depth_buffer@[i] {
                &&& new.renderer_2d.pixel(x, y) == f(x, y).unwrap().0
                &&& new.depth_buffer@[i] == f(x, y).unwrap().1
            } else {
                &&& new.renderer_2d.pixel(x, y) == old.renderer_2d.pixel(x, y)
                &&& new.depth_buffer@[i] == old.depth_buffer@[i]
            }
        }
}

/// Painting fragments over two disjoint regions one after the other paints
/// their union.
proof fn lemma_depth_painted_trans(
    a: &Renderer3D,
    b: &Renderer3D,
    c: &Renderer3D,
    f: spec_fn(int, int) -> Option<(u32, i32)>,
    p: spec_fn(int, int) -> bool,
    q: spec_fn(int, int) -> bool,
    r: spec_fn(int, int) -> bool,
)
    requires
        depth_painted(a, b, f, p),
        depth_painted(b, c, f, q),
        forall|x: int, y: int| !(#[trigger] p(x, y) && q(x, y)),
        forall|x: int, y: int| #[trigger] r(x, y) == (p(x, y) || q(x, y)),
    ensures
        depth_painted(a, c, f, r),
{
    assert forall|x: int, y: int| #![trigger c.renderer_2d.pixel(x, y)] c.renderer_2d.in_bounds(x, y) implies {
        let i = pixel_index(a.renderer_2d.width as int, x, y);
        if r(x, y) && f(x, y) is Some && f(x, y).unwrap().1 > a.depth_buffer@[i] {
            &&& c.renderer_2d.pixel(x, y) == f(x, y).unwrap().0
            &&& c.depth_buffer@[i] == f(x, y).unwrap().1
        } else {
            &&& c.renderer_2d.pixel(x, y) == a.renderer_2d.pixel(x, y)
            &&& c.depth_buffer@[i] == a.depth_buffer@[i]
        }
    } by {
        assert(b.renderer_2d.in_bounds(x, y));
        let _ = b.renderer_2d.pixel(x, y);
    }
}

/// `floor(v * n / d)` lies between 0 and `v` when `0 <= n <= d`.
proof fn lemma_floor_between(v: int, n: int, d: int)
    requires
        0 <= n <= d,
        d > 0,
    ensures
        (0 <= floor_div(v * n, d) <= v) || (v <= floor_div(v * n, d) <= 0),
{
    let q = floor_div(v * n, d);
    assert(q == (v * n) / d);
    if v >= 0 {
        assert(0 <= v * n <= v * d) by (nonlinear_arith)
            requires
                v >= 0,
                0 <= n <= d,
        ;
        assert(0 <= q <= v) by (nonlinear_arith)
            requires
                0 <= v * n <= v * d,
                q == (v * n) / d,
                d > 0,
        ;
    } else {
        assert(v * d <= v * n <= 0) by (nonlinear_arith)
            requires
                v < 0,
                0 <= n <= d,
        ;
        assert(v <= q <= 0) by (nonlinear_arith)
            requires
                v * d <= v * n <= 0,
                q == (v * n) / d,
                d > 0,
        ;
    }
}

/// Nothing painted over an empty region.
proof fn lemma_depth_painted_refl(a: &Renderer3D, f: spec_fn(int, int) -> Option<(u32, i32)>, p: spec_fn(int, int) -> bool)
    requires
        a.wf(),
        forall|x: int, y: int| !#[trigger] p(x, y),
    ensures
        depth_painted(a, a, f, p),
{
}

/// A painted region can be widened by pixels that get no fragment.
proof fn lemma_depth_painted_widen(
    a: &Renderer3D,
    b: &Renderer3D,
    f: spec_fn(int, int) -> Option<(u32, i32)>,
    p: spec_fn(int, int) -> bool,
    r: spec_fn(int, int) -> bool,
)
    requires
        depth_painted(a, b, f, p),
        forall|x: int, y: int| #[trigger] r(x, y) && !p(x, y) ==> f(x, y) is None,
        forall|x: int, y: int| #[trigger] p(x, y) ==> r(x, y),
    ensures
        depth_painted(a, b, f, r),
{
    assert forall|x: int, y: int| #![trigger b.renderer_2d.pixel(x, y)] b.renderer_2d.in_bounds(x, y) implies {
        let i = pixel_index(a.renderer_2d.width as int, x, y);
        if r(x, y) && f(x, y) is Some && f(x, y).unwrap().1 > a.depth_buffer@[i] {
            &&& b.renderer_2d.pixel(x, y) == f(x, y).unwrap().0
            &&& b.depth_buffer@[i] == f(x, y).unwrap().1
        } else {
            &&& b.renderer_2d.pixel(x, y) == a.renderer_2d.pixel(x, y)
            &&& b.depth_buffer@[i] == a.depth_buffer@[i]
        }
    } by {
        let _ = b.renderer_2d.pixel(x, y);
        if p(x, y) {
            assert(r(x, y));
        }
        if r(x, y) && !p(x, y) {
            assert(f(x, y) is None);
        }
    }
}

/// `a + (b - a) * n / d`, rounded down and saturated.
fn lerp_exec(a: i32, b: i32, n: i64, d: i64) -> (r: i32)
    requires
        0 < d <= 0x1_0000_0000,
        0 <= n <= d,
    ensures
        r == lerp_spec(a as int, b as int, n as int, d as int),
{
    proof {
        crate::fixed::lemma_mul_bound(b - a, n as int, 0x1_0000_0000, 0x1_0000_0000);
        lemma_floor_between(b - a, n as int, d as int);
    }
    let q = floor_div_i128((b as i128 - a as i128) * (n as i128), d as i128);
    clamp_to_i32(a as i128 + q)
}

fn lerp_uvw_exec(a: Vector3, b: Vector3, n: i64, d: i64) -> (r: Vector3)
    requires
        0 < d <= 0x1_0000_0000,
        0 <= n <= d,
    ensures
        r == lerp_uvw(a, b, n as int, d as int),
{
    Vector3 { x: lerp_exec(a.x, b.x, n, d), y: lerp_exec(a.y, b.y, n, d), z: lerp_exec(a.z, b.z, n, d) }
}

/// Colour of `tex` at the perspective-divided coordinates of `q`.
fn sample_exec(tex: &Texture, q: Vector3) -> (r: Option<u32>)
    ensures
        r == sample_spec(tex, q),
{
    if q.z <= 0 {
        return None;
    }
    let u = fx_div(q.x, q.z);
    let v = fx_div(q.y, q.z);
    proof {
        crate::fixed::lemma_mul_bound(u as int, tex.width as int, 0x8000_0000, 0x1_0000_0000);
        crate::fixed::lemma_mul_bound(v as int, tex.height as int, 0x8000_0000, 0x1_0000_0000);
    }
    let tx = floor_div_i128((u as i128) * (tex.width as i128), 65536);
    let ty = floor_div_i128((v as i128) * (tex.height as i128), 65536);
    if tx < 0 || ty < 0 || tx > u32::MAX as i128 || ty > u32::MAX as i128 {
        return None;
    }
    let p = tex.get_pixel(tx as u32, ty as u32);
    match p {
        Some(c) => {
            let color = tex.get_pixel_as_u32(tx as u32, ty as u32, false);
            color
        },
        None => None,
    }
}

impl Renderer3D {
    /// Writes `color` and depth `w` at `(x, y)` if the pixel lies in the
    /// buffer and `w` is greater than the depth stored there.
    fn plot_depth(&mut self, x: i64, y: i64, frag: Option<(u32, i32)>)
        requires
            old(self).wf(),
        ensures
            depth_painted(old(self), final(self), |px: int, py: int| frag, |px: int, py: int| px == x && py == y),
    {
        let w = self.renderer_2d.width;
        let h = self.renderer_2d.height;
        let ghost before = *self;
        if let Some((color, depth)) = frag {
            if x >= 0 && y >= 0 && x < w as i64 && y < h as i64 {
                let len = self.depth_buffer.len();
                proof {
                    lemma_pixel_index(w as int, h as int, x as int, y as int, x as int, y as int);
                }
                let i = (y as usize) * w + (x as usize);
                if depth > self.depth_buffer[i] {
                    self.depth_buffer.set(i, depth);
                    self.renderer_2d.buffer.set(i, color);
                }
                proof {
                    assert forall|px: int, py: int| #![trigger self.renderer_2d.pixel(px, py)] self.renderer_2d.in_bounds(px, py) && !(px == x && py == y) implies
                        self.renderer_2d.pixel(px, py) == before.renderer_2d.pixel(px, py)
                        && self.depth_buffer@[pixel_index(w as int, px, py)] == before.depth_buffer@[pixel_index(w as int, px, py)] by {
                        lemma_pixel_index(w as int, h as int, px, py, x as int, y as int);
                    }
                }
            }
        }
    }

    /// Textured fill of row `y`: the pixels of its span that pass the depth
    /// test take the sampled colour and their depth.
    fn textured_row(
        &mut self,
        a: Vector2i,
        ua: Vector3,
        b: Vector2i,
        ub: Vector3,
        c: Vector2i,
        uc: Vector3,
        tex: &Texture,
        y: i64,
    )
        requires
            old(self).wf(),
            a.y <= b.y <= c.y,
        ensures
            depth_painted(
                old(self),
                final(self),
                frag_fn(a, ua, b, ub, c, uc, tex),
                |px: int, py: int| py == y,
            ),
    {
        let ghost start = *self;
        let upper = a.y as i64 <= y && y < b.y as i64;
        let lower = b.y as i64 <= y && y <= c.y as i64 && b.y < c.y;
        if !(upper || lower) || c.y <= a.y {
            proof {
                let e = |px: int, py: int| false;
                let r = |px: int, py: int| py == y;
                let ff = frag_fn(a, ua, b, ub, c, uc, tex);
                lemma_depth_painted_refl(&start, ff, e);
                assert forall|px: int, py: int| #[trigger] r(px, py) && !e(px, py) implies ff(px, py) is None by {}
                lemma_depth_painted_widen(&start, self, ff, e, r);
            }
            return ;
        }
        let total = c.y as i64 - a.y as i64;
        let lx = lerp_exec(a.x, c.x, y - a.y as i64, total);
        let lu = lerp_uvw_exec(ua, uc, y - a.y as i64, total);
        let (sx, su) = if upper {
            let d = b.y as i64 - a.y as i64;
            (lerp_exec(a.x, b.x, y - a.y as i64, d), lerp_uvw_exec(ua, ub, y - a.y as i64, d))
        } else {
            let d = c.y as i64 - b.y as i64;
            (lerp_exec(b.x, c.x, y - b.y as i64, d), lerp_uvw_exec(ub, uc, y - b.y as i64, d))
        };
        let (ax, au, bx, bu) = if lx > sx { (sx, su, lx, lu) } else { (lx, lu, sx, su) };
        assert(tex_row(a, ua, b, ub, c, uc, y as int) == Some((ax as int, au, bx as int, bu)));
        let mut x: i64 = ax as i64;
        proof {
            lemma_depth_painted_refl(&start, frag_fn(a, ua, b, ub, c, uc, tex), |px: int, py: int| py == y && ax <= px < x);
        }
        while x < bx as i64
            invariant
                start.wf(),
                ax <= x <= bx || (ax as int == x && bx <= ax),
                tex_row(a, ua, b, ub, c, uc, y as int) == Some((ax as int, au, bx as int, bu)),
                depth_painted(&start, self, frag_fn(a, ua, b, ub, c, uc, tex), |px: int, py: int| py == y && ax <= px < x),
            decreases bx - x,
        {
            let q = lerp_uvw_exec(au, bu, x - ax as i64, bx as i64 - ax as i64);
            let frag = match sample_exec(tex, q) {
                Some(color) => Some((color, q.z)),
                None => None,
            };
            assert(frag == tex_fragment(a, ua, b, ub, c, uc, tex, x as int, y as int));
            let ghost mid = *self;
            self.plot_depth(x, y, frag);
            proof {
                let p = |px: int, py: int| py == y && ax <= px < x;
                let qq = |px: int, py: int| px == x && py == y;
                let r = |px: int, py: int| py == y && ax <= px < x + 1;
                assert(depth_painted(&mid, self, frag_fn(a, ua, b, ub, c, uc, tex), qq)) by {
                    assert forall|px: int, py: int| #![trigger self.renderer_2d.pixel(px, py)] self.renderer_2d.in_bounds(px, py) && qq(px, py) implies frag_fn(a, ua, b, ub, c, uc, tex)(px, py) == frag by {}
                }
                lemma_depth_painted_trans(&start, &mid, self, frag_fn(a, ua, b, ub, c, uc, tex), p, qq, r);
            }
            x = x + 1;
        }
        proof {
            let p = |px: int, py: int| py == y && ax <= px < x;
            let r = |px: int, py: int| py == y;
            let ff = frag_fn(a, ua, b, ub, c, uc, tex);
            assert forall|px: int, py: int| #[trigger] r(px, py) && !p(px, py) implies ff(px, py) is None by {}
            lemma_depth_painted_widen(&start, self, ff, p, r);
        }
    }

    /// Fills the triangle `p1`, `p2`, `p3` with texture `tex`: along each row
    /// of its upper and lower halves the texture coordinates `(u, v, w)` are
    /// interpolated linearly (`u` and `v` already divided by depth, `w` the
    /// reciprocal depth), the texel at `(u / w, v / w)` is sampled, and it is
    /// drawn where `w` is greater than the stored depth, which then becomes
    /// `w`.
    pub fn textured_triangle(
        &mut self,
        p1: Vector2i,
        uv1: Vector3,
        p2: Vector2i,
        uv2: Vector3,
        p3: Vector2i,
        uv3: Vector3,
        tex: &Texture,
    )
        requires
            old(self).wf(),
        ensures
            ({
                let (a, b, c) = sort_by_y(p1, p2, p3);
                let (ua, ub, uc) = sort_uv_by_y(p1, uv1, p2, uv2, p3, uv3);
                depth_painted(
                    old(self),
                    final(self),
                    frag_fn(a, ua, b, ub, c, uc, tex),
                    |px: int, py: int| true,
                )
            }),
    {
        let (mut a, mut ua, mut b, mut ub, mut c, mut uc) = (p1, uv1, p2, uv2, p3, uv3);
        if a.y > b.y {
            let (t, tu) = (a, ua);
            a = b;
            ua = ub;
            b = t;
            ub = tu;
        }
        if b.y > c.y {
            let (t, tu) = (b, ub);
            b = c;
            ub = uc;
            c = t;
            uc = tu;
        }
        if a.y > b.y {
            let (t, tu) = (a, ua);
            a = b;
            ua = ub;
            b = t;
            ub = tu;
        }
        assert((a, b, c) == sort_by_y(p1, p2, p3));
        assert((ua, ub, uc) == sort_uv_by_y(p1, uv1, p2, uv2, p3, uv3));
        let ghost start = *self;
        let mut y: i64 = a.y as i64;
        proof {
            lemma_depth_painted_refl(&start, frag_fn(a, ua, b, ub, c, uc, tex), |px: int, py: int| a.y <= py < y);
        }
        while y <= c.y as i64
            invariant
                start.wf(),
                a.y <= b.y <= c.y,
                a.y <= y <= c.y + 1,
                depth_painted(&start, self, frag_fn(a, ua, b, ub, c, uc, tex), |px: int, py: int| a.y <= py < y),
            decreases c.y + 1 - y,
        {
            let ghost mid = *self;
            self.textured_row(a, ua, b, ub, c, uc, tex, y);
            proof {
                let p = |px: int, py: int| a.y <= py < y;
                let q = |px: int, py: int| py == y;
                let r = |px: int, py: int| a.y <= py < y + 1;
                lemma_depth_painted_trans(&start, &mid, self, frag_fn(a, ua, b, ub, c, uc, tex), p, q, r);
            }
            y = y + 1;
        }
        proof {
            let p = |px: int, py: int| a.y <= py < y;
            let r = |px: int, py: int| true;
            let ff = frag_fn(a, ua, b, ub, c, uc, tex);
            assert forall|px: int, py: int| #[trigger] r(px, py) && !p(px, py) implies ff(px, py) is None by {}
            lemma_depth_painted_widen(&start, self, ff, p, r);
        }
    }
}

} // verus!
