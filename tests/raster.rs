use raster3d::renderer::Renderer;
use raster3d::renderer_3d::Renderer3D;
use raster3d::vector::Vector2i;

const WIDTH: usize = 500;
const HEIGHT: usize = 500;

fn renderer() -> Renderer3D {
    Renderer3D::new(vec![0; WIDTH * HEIGHT], WIDTH, HEIGHT)
}

#[test]
fn test_draw_triangle() {
    let mut r = renderer();
    r.draw_triangle(
        Vector2i::new(0, 100),
        Vector2i::new(100, 150),
        Vector2i::new(200, 100),
        0xffff,
    );
    let buffer = r.renderer_2d.buffer();
    let mut triangle_drawn = false;
    for y in 100..151 {
        for x in 0..201 {
            let idx = y * WIDTH + x;
            if buffer[idx] == 0xffff {
                triangle_drawn = true;
                break;
            }
        }
        if triangle_drawn {
            break;
        }
    }
    assert!(triangle_drawn, "Triangle was not drawn correctly in the buffer");
}

#[test]
fn test_filled_triangle() {
    let mut r = renderer();
    r.fill_triangle(
        Vector2i::new(0, 100),
        Vector2i::new(100, 150),
        Vector2i::new(200, 100),
        0xffff,
    );
    let buffer = r.renderer_2d.buffer();
    let mut triangle_drawn = false;
    for y in 100..151 {
        for x in 0..201 {
            let idx = y * WIDTH + x;
            if buffer[idx] == 0xffff {
                triangle_drawn = true;
                break;
            }
        }
        if triangle_drawn {
            break;
        }
    }
    assert!(triangle_drawn, "Triangle was not drawn correctly in the buffer");
}

#[test]
fn fill_triangle_covers_exactly_its_spans() {
    let mut r = renderer();
    r.renderer_2d.fill_triangle(
        Vector2i::new(0, 100),
        Vector2i::new(100, 150),
        Vector2i::new(200, 100),
        0xFFFF,
    );
    let buffer = r.renderer_2d.buffer();
    for y in 0..HEIGHT {
        for x in 0..WIDTH {
            let inside = (100..150).contains(&y) && {
                let i = y - 100;
                x >= 2 * i && x <= 200 - 2 * i
            };
            let expected = if inside { 0xFFFF } else { 0 };
            assert_eq!(buffer[y * WIDTH + x], expected, "pixel ({}, {})", x, y);
        }
    }
}

#[test]
fn draw_line_of_one_point_sets_one_pixel() {
    let mut r = renderer();
    r.renderer_2d.draw_line(Vector2i::new(0, 0), Vector2i::new(0, 0), 0xABCDEF);
    let buffer = r.renderer_2d.buffer();
    assert_eq!(buffer[0], 0xABCDEF);
    assert_eq!(buffer.iter().filter(|&&c| c != 0).count(), 1);
}

fn outline<R: raster3d::renderer::Renderer>(r: &mut R) -> usize {
    let (w, h) = (r.width() as i32, r.height() as i32);
    r.draw_square(Vector2i::new(0, 0), Vector2i::new(w - 1, h - 1), 4, false, 0);
    (r.get_x_at_y(Vector2i::new(0, 0), Vector2i::new(w - 1, h - 1), h - 1)) as usize
}

#[test]
fn renderers_share_the_drawing_interface() {
    let mut r3 = Renderer3D::new(vec![0; 16], 4, 4);
    assert_eq!(outline(&mut r3), 3);
    let b = r3.renderer_2d.buffer();
    assert_eq!(b.iter().filter(|&&c| c == 4).count(), 12);
    let mut r2 = raster3d::renderer_2d::Renderer2D::new(vec![1; 6], 3, 2);
    assert_eq!(outline(&mut r2), 2);
    assert!(r2.buffer().iter().all(|&c| c == 4));
}
