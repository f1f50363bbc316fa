//! The drawing capability both renderers offer.
use vstd::prelude::*;
use crate::fixed::clamp_i32;
use crate::renderer_2d::{Renderer2D, painted, line_covers, fill_covers, square_covers, x_at_y_spec};
use crate::renderer_3d::Renderer3D;
use crate::vector::Vector2i;

verus! {

/// Drawing on a pixel surface. Every method's contract is stated over the
/// surface the renderer draws on.
pub trait Renderer {
    /// The pixel surface this renderer draws on.
    spec fn surface(&self) -> Renderer2D;

    /// Sets every pixel to `color`.
    fn clear(&mut self, color: u32)
        requires
            old(self).surface().wf(),
        ensures
            painted(&old(self).surface(), &final(self).surface(), |x: int, y: int| true, color),
    ;

    /// Sets pixel `pos` to `color` if it lies in the surface.
    fn draw_pixel(&mut self, pos: Vector2i, color: u32)
        requires
            old(self).surface().wf(),
        ensures
            painted(&old(self).surface(), &final(self).surface(), |x: int, y: int| x == pos.x && y == pos.y, color),
    ;

    /// Draws the rectangle with corners `a` and `b`.
    fn draw_square(&mut self, a: Vector2i, b: Vector2i, color: u32, filled: bool, fill_color: u32)
        requires
            old(self).surface().wf(),
        ensures
            painted(
                &old(self).surface(),
                &final(self).surface(),
                |x: int, y: int| square_covers(a, b, filled, x, y),
                if filled { fill_color } else { color },
            ),
    ;

    /// Draws the line from `a` to `b`.
    fn draw_line(&mut self, a: Vector2i, b: Vector2i, color: u32)
        requires
            old(self).surface().wf(),
        ensures
            painted(&old(self).surface(), &final(self).surface(), |x: int, y: int| line_covers(a, b, x, y), color),
    ;

    /// Draws the edges of the triangle `a`, `b`, `c`.
    fn draw_triangle(&mut self, a: Vector2i, b: Vector2i, c: Vector2i, color: u32)
        requires
            old(self).surface().wf(),
        ensures
            painted(
                &old(self).surface(),
                &final(self).surface(),
                |x: int, y: int| line_covers(a, b, x, y) || line_covers(b, c, x, y) || line_covers(c, a, x, y),
                color,
            ),
    ;

    /// Fills the triangle `a`, `b`, `c`.
    fn fill_triangle(&mut self, a: Vector2i, b: Vector2i, c: Vector2i, color: u32)
        requires
            old(self).surface().wf(),
        ensures
            painted(&old(self).surface(), &final(self).surface(), |x: int, y: int| fill_covers(a, b, c, x, y), color),
    ;

    /// Width of the surface in pixels.
    fn width(&self) -> (r: usize)
        ensures
            r == self.surface().width,
    ;

    /// Height of the surface in pixels.
    fn height(&self) -> (r: usize)
        ensures
            r == self.surface().height,
    ;

    /// `x` of the segment `p1 -> p2` at row `y` (see `x_at_y_spec`).
    fn get_x_at_y(&self, p1: Vector2i, p2: Vector2i, y: i32) -> (r: i32)
        ensures
            r == clamp_i32(x_at_y_spec(p1, p2, y as int)),
    ;
}

impl Renderer for Renderer2D {
    open spec fn surface(&self) -> Renderer2D {
        *self
    }

    fn clear(&mut self, color: u32) {
        Renderer2D::clear(self, color)
    }

    fn draw_pixel(&mut self, pos: Vector2i, color: u32) {
        Renderer2D::draw_pixel(self, pos, color)
    }

    fn draw_square(&mut self, a: Vector2i, b: Vector2i, color: u32, filled: bool, fill_color: u32) {
        Renderer2D::draw_square(self, a, b, color, filled, fill_color)
    }

    fn draw_line(&mut self, a: Vector2i, b: Vector2i, color: u32) {
        Renderer2D::draw_line(self, a, b, color)
    }

    fn draw_triangle(&mut self, a: Vector2i, b: Vector2i, c: Vector2i, color: u32) {
        Renderer2D::draw_triangle(self, a, b, c, color)
    }

    fn fill_triangle(&mut self, a: Vector2i, b: Vector2i, c: Vector2i, color: u32) {
        Renderer2D::fill_triangle(self, a, b, c, color)
    }

    fn width(&self) -> (r: usize) {
        self.width
    }

    fn height(&self) -> (r: usize) {
        self.height
    }

    fn get_x_at_y(&self, p1: Vector2i, p2: Vector2i, y: i32) -> (r: i32) {
        Renderer2D::get_x_at_y(self, p1, p2, y)
    }
}

impl Renderer for Renderer3D {
    open spec fn surface(&self) -> Renderer2D {
        self.renderer_2d
    }

    fn clear(&mut self, color: u32) {
        self.renderer_2d.clear(color)
    }

    fn draw_pixel(&mut self, pos: Vector2i, color: u32) {
        self.renderer_2d.draw_pixel(pos, color)
    }

    fn draw_square(&mut self, a: Vector2i, b: Vector2i, color: u32, filled: bool, fill_color: u32) {
        self.renderer_2d.draw_square(a, b, color, filled, fill_color)
    }

    fn draw_line(&mut self, a: Vector2i, b: Vector2i, color: u32) {
        self.renderer_2d.draw_line(a, b, color)
    }

    fn draw_triangle(&mut self, a: Vector2i, b: Vector2i, c: Vector2i, color: u32) {
        self.renderer_2d.draw_triangle(a, b, c, color)
    }

    fn fill_triangle(&mut self, a: Vector2i, b: Vector2i, c: Vector2i, color: u32) {
        self.renderer_2d.fill_triangle(a, b, c, color)
    }

    fn width(&self) -> (r: usize) {
        self.renderer_2d.width
    }

    fn height(&self) -> (r: usize) {
        self.renderer_2d.height
    }

    fn get_x_at_y(&self, p1: Vector2i, p2: Vector2i, y: i32) -> (r: i32) {
        self.renderer_2d.get_x_at_y(p1, p2, y)
    }
}

} // verus!
