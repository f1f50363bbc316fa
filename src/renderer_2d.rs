//! The pixel buffer and the 2D rasterizers.
//!
//! Drawing contracts are stated per pixel: after a call, every pixel of the
//! buffer holds the drawing colour where the shape covers it and its old
//! value everywhere else. Pixels outside the buffer are never written.
use vstd::prelude::*;
use crate::vector::{Vector2i, sign};
use crate::vector3::Vector3;
use crate::fixed::{clamp_i32, clamp_to_i32, lemma_mul_bound};

verus! {

/// A row-major buffer of packed colours with the origin at the top left.
pub struct Renderer2D {
    pub buffer: Vec<u32>,
    pub width: usize,
    pub height: usize,
}

/// `|v|`.
pub open spec fn abs(v: int) -> int {
    if v < 0 {
        -v
    } else {
        v
    }
}

/// Index of pixel `(x, y)` in a row-major buffer `w` pixels wide.
pub open spec fn pixel_index(w: int, x: int, y: int) -> int {
    y * w + x
}

impl Renderer2D {
    /// The buffer holds one colour per pixel.
    pub open spec fn wf(&self) -> bool {
        &&& self.buffer@.len() == self.width * self.height
        &&& self.width <= i32::MAX
        &&& self.height <= i32::MAX
    }

    /// `(x, y)` is a pixel of the buffer.
    pub open spec fn in_bounds(&self, x: int, y: int) -> bool {
        0 <= x < self.width && 0 <= y < self.height
    }

    /// Colour of pixel `(x, y)`.
    pub open spec fn pixel(&self, x: int, y: int) -> u32 {
        self.buffer@[pixel_index(self.width as int, x, y)]
    }
}

/// `new` is `old` with `color` on the pixels that `covered` holds of, and
/// nothing else changed.
pub open spec fn painted(
    old: &Renderer2D,
    new: &Renderer2D,
    covered: spec_fn(int, int) -> bool,
    color: u32,
) -> bool {
    &&& new.width == old.width
    &&& new.height == old.height
    &&& new.wf()
    &&& forall|x: int, y: int|
        new.in_bounds(x, y) ==> #[trigger] new.pixel(x, y) == if covered(x, y) {
            color
        } else {
            old.pixel(x, y)
        }
}

/// Distinct pixels of a buffer have distinct indices, and every pixel's
/// index lies inside the buffer.
pub proof fn lemma_pixel_index(w: int, h: int, x1: int, y1: int, x2: int, y2: int)
    requires
        0 <= x1 < w,
        0 <= y1 < h,
        0 <= x2 < w,
        0 <= y2 < h,
    ensures
        0 <= pixel_index(w, x1, y1) < w * h,
        pixel_index(w, x1, y1) == pixel_index(w, x2, y2) ==> x1 == x2 && y1 == y2,
{
    assert(0 <= y1 * w + x1 < w * h) by (nonlinear_arith)
        requires
            0 <= x1 < w,
            0 <= y1 < h,
    ;
    if y1 < y2 {
        assert(y1 * w + x1 < y2 * w + x2) by (nonlinear_arith)
            requires
                0 <= x1 < w,
                0 <= x2,
                y1 < y2,
        ;
    } else if y2 < y1 {
        assert(y2 * w + x2 < y1 * w + x1) by (nonlinear_arith)
            requires
                0 <= x2 < w,
                0 <= x1,
                y2 < y1,
        ;
    }
}

/// Painting composes: painting `p` and then `q` in one colour paints
/// their union.
proof fn lemma_painted_trans(
    a: &Renderer2D,
    b: &Renderer2D,
    c: &Renderer2D,
    p: spec_fn(int, int) -> bool,
    q: spec_fn(int, int) -> bool,
    r: spec_fn(int, int) -> bool,
    color: u32,
)
    requires
        painted(a, b, p, color),
        painted(b, c, q, color),
        forall|x: int, y: int| #[trigger] r(x, y) == (p(x, y) || q(x, y)),
    ensures
        painted(a, c, r, color),
{
    assert forall|x: int, y: int| c.in_bounds(x, y) implies #[trigger] c.pixel(x, y) == if r(x, y) {
        color
    } else {
        a.pixel(x, y)
    } by {
        assert(b.pixel(x, y) == if p(x, y) {
            color
        } else {
            a.pixel(x, y)
        });
    }
}

/// Painting nothing leaves a well-formed buffer as it is.
proof fn lemma_painted_refl(a: &Renderer2D, p: spec_fn(int, int) -> bool, color: u32)
    requires
        a.wf(),
        forall|x: int, y: int| !#[trigger] p(x, y),
    ensures
        painted(a, a, p, color),
{
}

/// Pixel `(x, y)` of the line from `a` to `b`, Bresenham style: the longer
/// axis `u` is stepped one pixel at a time from the end with the smaller
/// `u`, and the other coordinate `v` is the one nearest the ideal line,
/// ties going back toward the start. A line from a point to itself is that
/// pixel.
pub open spec fn line_covers(a: Vector2i, b: Vector2i, x: int, y: int) -> bool {
    if a.x == b.x && a.y == b.y {
        x == a.x && y == a.y
    } else {
        let steep = abs(a.x - b.x) < abs(a.y - b.y);
        let pu = if steep { y } else { x };
        let pv = if steep { x } else { y };
        let au = if steep { a.y as int } else { a.x as int };
        let av = if steep { a.x as int } else { a.y as int };
        let bu = if steep { b.y as int } else { b.x as int };
        let bv = if steep { b.x as int } else { b.y as int };
        let u0 = if au > bu { bu } else { au };
        let v0 = if au > bu { bv } else { av };
        let u1 = if au > bu { au } else { bu };
        let v1 = if au > bu { av } else { bv };
        u0 <= pu <= u1 && pv == v0 + sign(v1 - v0) * line_step(u1 - u0, abs(v1 - v0), pu - u0)
    }
}

/// How far the minor coordinate has moved after `k` steps along the major
/// one, for a run of `du` and a rise of `dv`: `k * dv / du` rounded to the
/// nearest integer, halves rounded down.
pub open spec fn line_step(du: int, dv: int, k: int) -> int {
    (2 * dv * k + du - 1) / (2 * du)
}

/// `v / d` truncated toward zero (for `d > 0`).
pub open spec fn trunc_div(v: int, d: int) -> int {
    if v >= 0 {
        v / d
    } else {
        -((-v) / d)
    }
}

/// The three vertices ordered by `y`, as three compare-and-swap steps.
pub open spec fn sort_by_y(v1: Vector2i, v2: Vector2i, v3: Vector2i) -> (Vector2i, Vector2i, Vector2i) {
    let (a, b) = if v1.y > v2.y { (v2, v1) } else { (v1, v2) };
    let (b, c) = if b.y > v3.y { (v3, b) } else { (b, v3) };
    let (a, b) = if a.y > b.y { (b, a) } else { (a, b) };
    (a, b, c)
}

/// The texture coordinates that go with the vertices, reordered as
/// `sort_by_y` reorders the vertices.
pub open spec fn sort_uv_by_y(
    v1: Vector2i,
    u1: Vector3,
    v2: Vector2i,
    u2: Vector3,
    v3: Vector2i,
    u3: Vector3,
) -> (Vector3, Vector3, Vector3) {
    let (a, ua, b, ub) = if v1.y > v2.y { (v2, u2, v1, u1) } else { (v1, u1, v2, u2) };
    let (b, ub, c, uc) = if b.y > v3.y { (v3, u3, b, ub) } else { (b, ub, v3, u3) };
    let (ua, ub) = if a.y > b.y { (ub, ua) } else { (ua, ub) };
    (ua, ub, uc)
}

/// Ends of the span on row `a.y + i` of the triangle `a`, `b`, `c` (sorted
/// by `y`, not all on one row): the crossing with the long edge `a -> c`
/// and with the short edge in that half, each truncated toward zero.
pub open spec fn span_ends(a: Vector2i, b: Vector2i, c: Vector2i, i: int) -> (int, int) {
    let total = c.y - a.y;
    let second = i > b.y - a.y || b.y == a.y;
    let seg = if second { c.y - b.y } else { b.y - a.y };
    let xa = a.x + trunc_div((c.x - a.x) * i, total);
    let xb = if seg == 0 {
        if second { b.x as int } else { a.x as int }
    } else if second {
        b.x + trunc_div((c.x - b.x) * (i - (b.y - a.y)), seg)
    } else {
        a.x + trunc_div((b.x - a.x) * i, seg)
    };
    (xa, xb)
}

/// Pixel `(x, y)` is filled by the flat scanline fill of the triangle: rows
/// from the top vertex down to (not including) the bottom one, each filled
/// between its two span ends inclusive.
pub open spec fn fill_covers(v1: Vector2i, v2: Vector2i, v3: Vector2i, x: int, y: int) -> bool {
    let (a, b, c) = sort_by_y(v1, v2, v3);
    let i = y - a.y;
    let (xa, xb) = span_ends(a, b, c, i);
    &&& a.y < c.y
    &&& a.y <= y < c.y
    &&& (xa <= x <= xb || xb <= x <= xa)
}

/// Pixel `(x, y)` is in the rectangle with corners `a` and `b`, or on its
/// border when `filled` is false.
pub open spec fn square_covers(a: Vector2i, b: Vector2i, filled: bool, x: int, y: int) -> bool {
    let min_x = if a.x < b.x { a.x as int } else { b.x as int };
    let max_x = if a.x < b.x { b.x as int } else { a.x as int };
    let min_y = if a.y < b.y { a.y as int } else { b.y as int };
    let max_y = if a.y < b.y { b.y as int } else { a.y as int };
    &&& min_x <= x <= max_x
    &&& min_y <= y <= max_y
    &&& (filled || x == min_x || x == max_x || y == min_y || y == max_y)
}

/// `v` rounded to the nearest integer, halves away from zero, for `v = n / d`
/// with `d > 0`.
pub open spec fn round_div(n: int, d: int) -> int {
    if n >= 0 {
        (2 * n + d) / (2 * d)
    } else {
        let m = -n;
        -((2 * m + d) / (2 * d))
    }
}

/// `x` on the segment `p1 -> p2` at row `y`, rounded to the nearest pixel;
/// `p1.x` for a horizontal segment on its own row; `i32::MAX` when `y` is
/// outside the segment's rows.
pub open spec fn x_at_y_spec(p1: Vector2i, p2: Vector2i, y: int) -> int {
    if y < p1.y && y < p2.y || y > p1.y && y > p2.y {
        i32::MAX as int
    } else if p1.y == p2.y {
        p1.x as int
    } else {
        let d = p2.y - p1.y;
        let n = p1.x * d + (y - p1.y) * (p2.x - p1.x);
        if d > 0 {
            round_div(n, d)
        } else {
            round_div(-n, -d)
        }
    }
}

/// `v / d` truncated toward zero.
fn trunc_div_exec(v: i128, d: i128) -> (r: i128)
    requires
        d > 0,
        -0x1_0000_0000_0000_0000_0000 <= v <= 0x1_0000_0000_0000_0000_0000,
    ensures
        r == trunc_div(v as int, d as int),
{
    if v >= 0 {
        v / d
    } else {
        -((-v) / d)
    }
}

impl Renderer2D {
    /// A renderer over `buffer`, which holds one colour per pixel.
    pub fn new(buffer: Vec<u32>, width: usize, height: usize) -> (r: Self)
        requires
            buffer@.len() == width * height,
            width <= i32::MAX,
            height <= i32::MAX,
        ensures
            r.wf(),
            r.buffer@ == buffer@,
            r.width == width,
            r.height == height,
    {
        Self { buffer, width, height }
    }

    pub fn width(&self) -> (r: usize)
        ensures
            r == self.width,
    {
        self.width
    }

    pub fn height(&self) -> (r: usize)
        ensures
            r == self.height,
    {
        self.height
    }

    pub fn buffer(&self) -> (r: &Vec<u32>)
        ensures
            r@ == self.buffer@,
    {
        &self.buffer
    }

    /// Sets every pixel to `color`.
    pub fn clear(&mut self, color: u32)
        requires
            old(self).wf(),
        ensures
            painted(old(self), final(self), |x: int, y: int| true, color),
            forall|i: int| 0 <= i < final(self).buffer@.len() ==> final(self).buffer@[i] == color,
    {
        let n = self.buffer.len();
        let mut i: usize = 0;
        while i < n
            invariant
                self.width == old(self).width,
                self.height == old(self).height,
                self.buffer@.len() == n,
                n == old(self).buffer@.len(),
                0 <= i <= n,
                forall|j: int| 0 <= j < i ==> self.buffer@[j] == color,
            decreases n - i,
        {
            self.buffer.set(i, color);
            i = i + 1;
        }
        proof {
            assert forall|x: int, y: int| self.in_bounds(x, y) implies #[trigger] self.pixel(x, y) == color by {
                lemma_pixel_index(self.width as int, self.height as int, x, y, x, y);
            }
        }
    }

    /// Sets pixel `pos` to `color` if it lies in the buffer.
    pub fn draw_pixel(&mut self, pos: Vector2i, color: u32)
        requires
            old(self).wf(),
        ensures
            painted(old(self), final(self), |x: int, y: int| x == pos.x && y == pos.y, color),
    {
        if pos.x >= 0 && pos.y >= 0 && (pos.x as usize) < self.width && (pos.y as usize) < self.height {
            let len = self.buffer.len();
            proof {
                lemma_pixel_index(self.width as int, self.height as int, pos.x as int, pos.y as int, pos.x as int, pos.y as int);
                assert((pos.y as usize) * self.width + (pos.x as usize) < len);
            }
            let index = (pos.y as usize) * self.width + (pos.x as usize);
            let ghost before = *self;
            self.buffer.set(index, color);
            proof {
                assert forall|x: int, y: int| self.in_bounds(x, y) implies #[trigger] self.pixel(x, y) == if x == pos.x && y == pos.y {
                    color
                } else {
                    before.pixel(x, y)
                } by {
                    lemma_pixel_index(self.width as int, self.height as int, x, y, pos.x as int, pos.y as int);
                }
            }
        }
    }

    /// Draws the line from `a` to `b` (both ends included) with Bresenham's
    /// algorithm; a line from a point to itself is one pixel.
    pub fn draw_line(&mut self, a: Vector2i, b: Vector2i, color: u32)
        requires
            old(self).wf(),
        ensures
            painted(old(self), final(self), |x: int, y: int| line_covers(a, b, x, y), color),
    {
        if a.x == b.x && a.y == b.y {
            self.draw_pixel(a, color);
            return ;
        }
        let ghost start = *self;
        let xa = a.x as i64;
        let ya = a.y as i64;
        let xb = b.x as i64;
        let yb = b.y as i64;
        let adx: i64 = if xa > xb { xa - xb } else { xb - xa };
        let ady: i64 = if ya > yb { ya - yb } else { yb - ya };
        let steep = adx < ady;
        let (au, av, bu, bv) = if steep { (ya, xa, yb, xb) } else { (xa, ya, xb, yb) };
        let (u0, v0, u1, v1) = if au > bu { (bu, bv, au, av) } else { (au, av, bu, bv) };
        let du: i64 = u1 - u0;
        let adv: i64 = if v1 > v0 { v1 - v0 } else { v0 - v1 };
        assert(du > 0 && adv <= du);
        let derror2: i64 = adv * 2;
        let vstep: i64 = if v0 < v1 { 1 } else { -1 };
        let mut error2: i64 = 0;
        let mut v: i64 = v0;
        let mut u: i64 = u0;
        let ghost mut m: int = 0;
        proof {
            assert(2 * adv * (u - u0) == 0 && 2 * du * m == 0) by (nonlinear_arith)
                requires
                    u == u0,
                    m == 0,
            ;
            lemma_painted_refl(&start, |x: int, y: int| line_covers(a, b, x, y) && (if steep { y } else { x }) < u0, color);
        }
        while u <= u1
            invariant
                start.wf(),
                0 < du <= 0x1_0000_0000,
                0 <= adv <= du,
                derror2 == 2 * adv,
                du == u1 - u0,
                adv == abs(v1 - v0),
                vstep == (if v0 < v1 { 1int } else { -1int }),
                i32::MIN <= u0 <= u1 <= i32::MAX,
                i32::MIN <= v0 <= i32::MAX,
                i32::MIN <= v1 <= i32::MAX,
                u0 <= u <= u1 + 1,
                0 <= m <= adv + 1,
                v == v0 + vstep * m,
                error2 == 2 * adv * (u - u0) - 2 * du * m,
                -du < error2 <= du,
                steep == (abs(a.x - b.x) < abs(a.y - b.y)),
                !(a.x == b.x && a.y == b.y),
                au == (if steep { a.y as int } else { a.x as int }),
                av == (if steep { a.x as int } else { a.y as int }),
                bu == (if steep { b.y as int } else { b.x as int }),
                bv == (if steep { b.x as int } else { b.y as int }),
                u0 == (if au > bu { bu } else { au }),
                v0 == (if au > bu { bv } else { av }),
                u1 == (if au > bu { au } else { bu }),
                v1 == (if au > bu { av } else { bv }),
                painted(&start, self, |x: int, y: int| line_covers(a, b, x, y) && (if steep { y } else { x }) < u, color),
            decreases u1 + 1 - u,
        {
            proof {
                let k = u - u0;
                let rem = error2 + du - 1;
                assert(2 * adv * k + du - 1 == m * (2 * du) + rem) by (nonlinear_arith)
                    requires
                        error2 == 2 * adv * k - 2 * du * m,
                        rem == error2 + du - 1,
                ;
                vstd::arithmetic::div_mod::lemma_fundamental_div_mod_converse(2 * adv * k + du - 1, 2 * du, m, rem);
                assert(m == line_step(du as int, adv as int, k));
                assert(m <= adv) by (nonlinear_arith)
                    requires
                        error2 == 2 * adv * k - 2 * du * m,
                        error2 > -du,
                        k <= du,
                        du > 0,
                        adv >= 0,
                ;
                if v0 < v1 {
                    assert(vstep * m == m) by (nonlinear_arith)
                        requires
                            vstep == 1,
                    ;
                    assert(v == v0 + m);
                    assert(sign(v1 - v0) * m == m);
                } else if v0 > v1 {
                    assert(vstep * m == -m) by (nonlinear_arith)
                        requires
                            vstep == -1,
                    ;
                    assert(v == v0 - m);
                    assert(sign(v1 - v0) * m == -m);
                } else {
                    assert(m == 0);
                    assert(v == v0);
                }
                assert(v0 + sign(v1 - v0) * m == v);
            }
            let ghost mid = *self;
            let pos = if steep { Vector2i { x: v as i32, y: u as i32 } } else { Vector2i { x: u as i32, y: v as i32 } };
            self.draw_pixel(pos, color);
            proof {
                let p = |x: int, y: int| line_covers(a, b, x, y) && (if steep { y } else { x }) < u;
                let q = |x: int, y: int| x == pos.x && y == pos.y;
                let r = |x: int, y: int| line_covers(a, b, x, y) && (if steep { y } else { x }) < u + 1;
                assert forall|x: int, y: int| #[trigger] r(x, y) == (p(x, y) || q(x, y)) by {
                    let pu = if steep { y } else { x };
                    let pv = if steep { x } else { y };
                    if pu == u {
                        assert(line_covers(a, b, x, y) == (pv == v));
                    }
                }
                lemma_painted_trans(&start, &mid, self, p, q, r, color);
            }
            let ghost u_before = u;
            let ghost e_before = error2;
            proof {
                assert(2 * adv * (u + 1 - u0) == 2 * adv * (u - u0) + 2 * adv) by (nonlinear_arith);
            }
            error2 = error2 + derror2;
            if error2 > du {
                v = v + vstep;
                error2 = error2 - du * 2;
                proof {
                    assert(2 * du * (m + 1) == 2 * du * m + 2 * du) by (nonlinear_arith);
                    m = m + 1;
                    assert(m <= adv + 1) by (nonlinear_arith)
                        requires
                            error2 == 2 * adv * (u + 1 - u0) - 2 * du * m,
                            error2 > -du,
                            u + 1 - u0 <= du + 1,
                            du > 0,
                            0 <= adv <= du,
                    ;
                }
            }
            u = u + 1;
        }
    }

    /// The three edges of the triangle `a`, `b`, `c` as lines.
    pub fn draw_triangle(&mut self, a: Vector2i, b: Vector2i, c: Vector2i, color: u32)
        requires
            old(self).wf(),
        ensures
            painted(
                old(self),
                final(self),
                |x: int, y: int| line_covers(a, b, x, y) || line_covers(b, c, x, y) || line_covers(c, a, x, y),
                color,
            ),
    {
        let ghost s0 = *self;
        self.draw_line(a, b, color);
        let ghost s1 = *self;
        self.draw_line(b, c, color);
        let ghost s2 = *self;
        self.draw_line(c, a, color);
        proof {
            let p1 = |x: int, y: int| line_covers(a, b, x, y);
            let p2 = |x: int, y: int| line_covers(b, c, x, y);
            let p3 = |x: int, y: int| line_covers(c, a, x, y);
            let p12 = |x: int, y: int| line_covers(a, b, x, y) || line_covers(b, c, x, y);
            let p123 = |x: int, y: int| line_covers(a, b, x, y) || line_covers(b, c, x, y) || line_covers(c, a, x, y);
            lemma_painted_trans(&s0, &s1, &s2, p1, p2, p12, color);
            lemma_painted_trans(&s0, &s2, self, p12, p3, p123, color);
        }
    }
}


/// `trunc_div(d * i, n)` lies between 0 and `d` when `0 <= i <= n`.
proof fn lemma_trunc_between(d: int, i: int, n: int)
    requires
        0 <= i <= n,
        n > 0,
    ensures
        (0 <= trunc_div(d * i, n) <= d) || (d <= trunc_div(d * i, n) <= 0),
{
    if d >= 0 {
        assert(0 <= d * i <= d * n) by (nonlinear_arith)
            requires
                d >= 0,
                0 <= i <= n,
        ;
        assert((d * n) / n == d) by (nonlinear_arith)
            requires
                n > 0,
        ;
        vstd::arithmetic::div_mod::lemma_div_is_ordered(d * i, d * n, n);
        vstd::arithmetic::div_mod::lemma_div_pos_is_pos(d * i, n);
    } else {
        let e = -d;
        assert(0 <= e * i <= e * n) by (nonlinear_arith)
            requires
                e >= 0,
                0 <= i <= n,
        ;
        assert(-(d * i) == e * i) by (nonlinear_arith)
            requires
                e == -d,
        ;
        assert((e * n) / n == e) by (nonlinear_arith)
            requires
                n > 0,
        ;
        vstd::arithmetic::div_mod::lemma_div_is_ordered(e * i, e * n, n);
        vstd::arithmetic::div_mod::lemma_div_pos_is_pos(e * i, n);
    }
}

/// Ends of the span on row `a.y + i`, as computed by `span_ends`.
fn span_ends_exec(a: Vector2i, b: Vector2i, c: Vector2i, i: i64) -> (r: (i32, i32))
    requires
        a.y <= b.y <= c.y,
        a.y < c.y,
        0 <= i < c.y - a.y,
    ensures
        r.0 as int == span_ends(a, b, c, i as int).0,
        r.1 as int == span_ends(a, b, c, i as int).1,
{
    let total: i128 = c.y as i128 - a.y as i128;
    let ab: i128 = b.y as i128 - a.y as i128;
    let second = i as i128 > ab || b.y == a.y;
    let seg: i128 = if second { c.y as i128 - b.y as i128 } else { ab };
    proof {
        lemma_trunc_between(c.x - a.x, i as int, total as int);
        lemma_mul_bound(c.x - a.x, i as int, 0x1_0000_0000, 0x1_0000_0000);
        lemma_mul_bound(c.x - b.x, i - ab, 0x1_0000_0000, 0x1_0000_0000);
        lemma_mul_bound(b.x - a.x, i as int, 0x1_0000_0000, 0x1_0000_0000);
    }
    let xa = a.x as i128 + trunc_div_exec((c.x as i128 - a.x as i128) * (i as i128), total);
    let xb: i128 = if seg == 0 {
        if second { b.x as i128 } else { a.x as i128 }
    } else if second {
        proof {
            lemma_trunc_between(c.x - b.x, i - (b.y - a.y), seg as int);
        }
        b.x as i128 + trunc_div_exec((c.x as i128 - b.x as i128) * (i as i128 - ab), seg)
    } else {
        proof {
            lemma_trunc_between(b.x - a.x, i as int, seg as int);
        }
        a.x as i128 + trunc_div_exec((b.x as i128 - a.x as i128) * (i as i128), seg)
    };
    (xa as i32, xb as i32)
}

/// `n / d` rounded to the nearest integer, halves away from zero.
fn round_div_exec(n: i128, d: i128) -> (r: i128)
    requires
        d > 0,
        -0x1_0000_0000_0000_0000_0000 <= n <= 0x1_0000_0000_0000_0000_0000,
        d <= 0x1_0000_0000_0000_0000_0000,
    ensures
        r == round_div(n as int, d as int),
{
    if n >= 0 {
        (2 * n + d) / (2 * d)
    } else {
        let m = -n;
        -((2 * m + d) / (2 * d))
    }
}

impl Renderer2D {
    /// Draws the rectangle with corners `a` and `b`: every pixel of it in
    /// `fill_color` when `filled`, else its border in `color`.
    pub fn draw_square(&mut self, a: Vector2i, b: Vector2i, color: u32, filled: bool, fill_color: u32)
        requires
            old(self).wf(),
        ensures
            painted(
                old(self),
                final(self),
                |x: int, y: int| square_covers(a, b, filled, x, y),
                if filled { fill_color } else { color },
            ),
    {
        let ghost start = *self;
        let paint = if filled { fill_color } else { color };
        let min_x: i64 = if a.x < b.x { a.x as i64 } else { b.x as i64 };
        let max_x: i64 = if a.x < b.x { b.x as i64 } else { a.x as i64 };
        let min_y: i64 = if a.y < b.y { a.y as i64 } else { b.y as i64 };
        let max_y: i64 = if a.y < b.y { b.y as i64 } else { a.y as i64 };
        let mut y: i64 = min_y;
        proof {
            lemma_painted_refl(&start, |px: int, py: int| square_covers(a, b, filled, px, py) && py < min_y, paint);
        }
        while y <= max_y
            invariant
                start.wf(),
                min_y <= y <= max_y + 1,
                i32::MIN <= min_x <= max_x <= i32::MAX,
                i32::MIN <= min_y <= max_y <= i32::MAX,
                min_x == (if a.x < b.x { a.x as int } else { b.x as int }),
                max_x == (if a.x < b.x { b.x as int } else { a.x as int }),
                min_y == (if a.y < b.y { a.y as int } else { b.y as int }),
                max_y == (if a.y < b.y { b.y as int } else { a.y as int }),
                painted(&start, self, |px: int, py: int| square_covers(a, b, filled, px, py) && py < y, paint),
            decreases max_y + 1 - y,
        {
            let mut x: i64 = min_x;
            while x <= max_x
                invariant
                    start.wf(),
                    min_y <= y <= max_y,
                    min_x <= x <= max_x + 1,
                    i32::MIN <= min_x <= max_x <= i32::MAX,
                    i32::MIN <= min_y <= max_y <= i32::MAX,
                    min_x == (if a.x < b.x { a.x as int } else { b.x as int }),
                    max_x == (if a.x < b.x { b.x as int } else { a.x as int }),
                    min_y == (if a.y < b.y { a.y as int } else { b.y as int }),
                    max_y == (if a.y < b.y { b.y as int } else { a.y as int }),
                    painted(
                        &start,
                        self,
                        |px: int, py: int| square_covers(a, b, filled, px, py) && (py < y || (py == y && px < x)),
                        paint,
                    ),
                decreases max_x + 1 - x,
            {
                let on_border = x == min_x || x == max_x || y == min_y || y == max_y;
                let ghost mid = *self;
                let ghost p = |px: int, py: int| square_covers(a, b, filled, px, py) && (py < y || (py == y && px < x));
                let ghost r = |px: int, py: int| square_covers(a, b, filled, px, py) && (py < y || (py == y && px < x + 1));
                if filled || on_border {
                    self.draw_pixel(Vector2i { x: x as i32, y: y as i32 }, paint);
                    proof {
                        let q = |px: int, py: int| px == x && py == y;
                        assert forall|px: int, py: int| #[trigger] r(px, py) == (p(px, py) || q(px, py)) by {}
                        lemma_painted_trans(&start, &mid, self, p, q, r, paint);
                    }
                } else {
                    proof {
                        assert forall|px: int, py: int| self.in_bounds(px, py) implies #[trigger] self.pixel(px, py) == if r(px, py) {
                            paint
                        } else {
                            start.pixel(px, py)
                        } by {
                            assert(p(px, py) == r(px, py));
                        }
                    }
                }
                x = x + 1;
            }
            proof {
                let p = |px: int, py: int| square_covers(a, b, filled, px, py) && (py < y || (py == y && px < max_x + 1));
                let r = |px: int, py: int| square_covers(a, b, filled, px, py) && py < y + 1;
                assert forall|px: int, py: int| self.in_bounds(px, py) implies #[trigger] self.pixel(px, py) == if r(px, py) {
                    paint
                } else {
                    start.pixel(px, py)
                } by {
                    assert(p(px, py) == r(px, py));
                }
            }
            y = y + 1;
        }
        proof {
            let p = |px: int, py: int| square_covers(a, b, filled, px, py) && py < max_y + 1;
            assert forall|px: int, py: int| self.in_bounds(px, py) implies #[trigger] self.pixel(px, py) == if square_covers(a, b, filled, px, py) {
                paint
            } else {
                start.pixel(px, py)
            } by {
                assert(p(px, py) == square_covers(a, b, filled, px, py));
            }
        }
    }

    /// `x` of the segment `p1 -> p2` at row `y`, rounded to the nearest
    /// pixel; `p1.x` for a horizontal segment on its own row; `i32::MAX`
    /// when `y` is outside the segment's rows.
    pub fn get_x_at_y(&self, p1: Vector2i, p2: Vector2i, y: i32) -> (r: i32)
        ensures
            r == clamp_i32(x_at_y_spec(p1, p2, y as int)),
    {
        if (y < p1.y && y < p2.y) || (y > p1.y && y > p2.y) {
            return i32::MAX;
        }
        if p1.y == p2.y {
            return p1.x;
        }
        let d: i128 = p2.y as i128 - p1.y as i128;
        proof {
            lemma_mul_bound(p1.x as int, d as int, 0x1_0000_0000, 0x1_0000_0000);
            lemma_mul_bound(y - p1.y, p2.x - p1.x, 0x1_0000_0000, 0x1_0000_0000);
        }
        let n: i128 = (p1.x as i128) * d + (y as i128 - p1.y as i128) * (p2.x as i128 - p1.x as i128);
        let x = if d > 0 {
            round_div_exec(n, d)
        } else {
            round_div_exec(-n, -d)
        };
        clamp_to_i32(x)
    }

    /// Fills the triangle `v1`, `v2`, `v3` with `color`, one horizontal span
    /// per row, from the top vertex's row down to the row above the bottom
    /// vertex. A triangle on a single row draws nothing.
    pub fn fill_triangle(&mut self, v1: Vector2i, v2: Vector2i, v3: Vector2i, color: u32)
        requires
            old(self).wf(),
        ensures
            painted(old(self), final(self), |x: int, y: int| fill_covers(v1, v2, v3, x, y), color),
    {
        let ghost start = *self;
        let mut a = v1;
        let mut b = v2;
        let mut c = v3;
        if a.y > b.y {
            let t = a;
            a = b;
            b = t;
        }
        if b.y > c.y {
            let t = b;
            b = c;
            c = t;
        }
        if a.y > b.y {
            let t = a;
            a = b;
            b = t;
        }
        assert((a, b, c) == sort_by_y(v1, v2, v3));
        if a.y == c.y {
            proof {
                lemma_painted_refl(&start, |x: int, y: int| fill_covers(v1, v2, v3, x, y), color);
            }
            return ;
        }
        let total: i64 = c.y as i64 - a.y as i64;
        let mut i: i64 = 0;
        proof {
            lemma_painted_refl(&start, |x: int, y: int| fill_covers(v1, v2, v3, x, y) && y < a.y + 0, color);
        }
        while i < total
            invariant
                start.wf(),
                (a, b, c) == sort_by_y(v1, v2, v3),
                a.y <= b.y <= c.y,
                total == c.y - a.y,
                0 <= i <= total,
                painted(&start, self, |x: int, y: int| fill_covers(v1, v2, v3, x, y) && y < a.y + i, color),
            decreases total - i,
        {
            let (xa, xb) = span_ends_exec(a, b, c, i);
            let start_x: i64 = if xa > xb { xb as i64 } else { xa as i64 };
            let end_x: i64 = if xa > xb { xa as i64 } else { xb as i64 };
            let row: i32 = (a.y as i64 + i) as i32;
            let mut x: i64 = start_x;
            proof {
                assert forall|px: int, py: int| self.in_bounds(px, py) implies #[trigger] self.pixel(px, py) == if fill_covers(v1, v2, v3, px, py) && (py < row || (py == row && px < start_x)) {
                    color
                } else {
                    start.pixel(px, py)
                } by {
                    if py == row {
                        assert(!(fill_covers(v1, v2, v3, px, py) && px < start_x));
                    }
                }
            }
            while x <= end_x
                invariant
                    start.wf(),
                    (a, b, c) == sort_by_y(v1, v2, v3),
                    a.y <= b.y <= c.y,
                    total == c.y - a.y,
                    0 <= i < total,
                    row == a.y + i,
                    start_x <= x <= end_x + 1,
                    i32::MIN <= start_x <= end_x <= i32::MAX,
                    start_x == (if xa > xb { xb as int } else { xa as int }),
                    end_x == (if xa > xb { xa as int } else { xb as int }),
                    xa as int == span_ends(a, b, c, i as int).0,
                    xb as int == span_ends(a, b, c, i as int).1,
                    painted(
                        &start,
                        self,
                        |px: int, py: int| fill_covers(v1, v2, v3, px, py) && (py < row || (py == row && px < x)),
                        color,
                    ),
                decreases end_x + 1 - x,
            {
                let ghost mid = *self;
                self.draw_pixel(Vector2i { x: x as i32, y: row }, color);
                proof {
                    let p = |px: int, py: int| fill_covers(v1, v2, v3, px, py) && (py < row || (py == row && px < x));
                    let q = |px: int, py: int| px == x && py == row;
                    let r = |px: int, py: int| fill_covers(v1, v2, v3, px, py) && (py < row || (py == row && px < x + 1));
                    assert forall|px: int, py: int| #[trigger] r(px, py) == (p(px, py) || q(px, py)) by {}
                    lemma_painted_trans(&start, &mid, self, p, q, r, color);
                }
                x = x + 1;
            }
            proof {
                assert forall|px: int, py: int| self.in_bounds(px, py) implies #[trigger] self.pixel(px, py) == if fill_covers(v1, v2, v3, px, py) && py < a.y + i + 1 {
                    color
                } else {
                    start.pixel(px, py)
                } by {
                    if py == row {
                        assert(fill_covers(v1, v2, v3, px, py) ==> px < end_x + 1);
                    }
                }
            }
            i = i + 1;
        }
        proof {
            assert forall|px: int, py: int| self.in_bounds(px, py) implies #[trigger] self.pixel(px, py) == if fill_covers(v1, v2, v3, px, py) {
                color
            } else {
                start.pixel(px, py)
            } by {
                assert(fill_covers(v1, v2, v3, px, py) ==> py < a.y + total);
            }
        }
    }
}

} // verus!
