use raster3d::fixed::FX_ONE;
use raster3d::matrix4x4::{Angle, Matrix4x4};
use raster3d::mesh::Mesh;
use raster3d::obj_loader::{ObjLoader, ObjRecord};
use raster3d::object3d::{Camera3D, Object3D, Rotation};
use raster3d::palettes::{PaletteDefault, PalettePink, ShadingPalette, COLOUR, PALETTE_DEFAULT, PALETTE_INKPINK, PALETTE_PINK};
use raster3d::pipeline::{clip_to_screen, sort_back_to_front};
use raster3d::renderer_3d::Renderer3D;
use raster3d::texture::{ImageFormat, Texture};
use raster3d::texture_pool::TexturePool;
use raster3d::triangle::Triangle;
use raster3d::vector::Vector2i;
use raster3d::vector3::Vector3;
use raster3d::vector4::Vector4;

fn fx(v: f64) -> i32 {
    (v * 65536.0).round() as i32
}

#[test]
fn unit_cube_in_front_of_camera_is_visible() {
    let (w, h) = (500usize, 500usize);
    let mut r = Renderer3D::new(vec![0; w * h], w, h);
    let meshes = vec![Mesh::unit_cube(Vector3::new(0, 0, fx(5.0)))];
    let camera = Camera3D::new(Vector3::zero(), w, h);
    let proj = Matrix4x4::project(fx(0.1), fx(1000.0), FX_ONE, h, w);
    let drawn = r.render_frame(&meshes, &camera, &proj, ShadingPalette::Pink, COLOUR::RED.to_u32());
    assert!(!drawn.is_empty());
    assert!(r.renderer_2d.buffer().iter().any(|&c| c != 0));
    // the cube spans x in [250, 300], y in [200, 250] on screen
    assert_ne!(r.renderer_2d.buffer()[225 * w + 275], 0);
    assert_eq!(r.renderer_2d.buffer()[10 * w + 10], 0);
}

#[test]
fn cube_behind_camera_draws_nothing() {
    let (w, h) = (100usize, 100usize);
    let mut r = Renderer3D::new(vec![9; w * h], w, h);
    let meshes = vec![Mesh::unit_cube(Vector3::new(0, 0, fx(-5.0)))];
    let camera = Camera3D::new(Vector3::zero(), w, h);
    let proj = Matrix4x4::project(fx(0.1), fx(1000.0), FX_ONE, h, w);
    let drawn = r.render_frame(&meshes, &camera, &proj, ShadingPalette::Default, 1);
    assert!(drawn.is_empty());
    assert!(r.renderer_2d.buffer().iter().all(|&c| c == 0));
}

#[test]
fn camera_looks_along_yaw() {
    let mut c = Camera3D::new(Vector3::new(FX_ONE, 0, 0), 10, 10);
    c.yaw = Angle { cos: 0, sin: FX_ONE };
    c.update_look_dir();
    assert_eq!(c.look_dir, Vector3::new(FX_ONE, 0, 0));
    let view = c.calc_view();
    let ahead = Matrix4x4::multiply_vec(&view, &Vector4::new(fx(3.0), 0, 0, FX_ONE));
    assert_eq!(ahead, Vector4::new(0, 0, fx(2.0), FX_ONE));
}

#[test]
fn object_transform_rotates_then_translates() {
    let rot = Rotation { pitch: Angle::zero(), yaw: Angle::zero(), roll: Angle { cos: 0, sin: FX_ONE } };
    let obj = Object3D::new(Vector3::new(0, 0, fx(5.0)), rot);
    let m = obj.transform_matrix();
    let p = Matrix4x4::multiply_vec(&m, &Vector4::new(FX_ONE, 0, 0, FX_ONE));
    assert_eq!(p, Vector4::new(0, FX_ONE, fx(5.0), FX_ONE));
    assert_eq!(Object3D::zero().transform_matrix().m, Matrix4x4::identity().m);
}

#[test]
fn screen_clip_keeps_inside_and_cuts_overhang() {
    let inside = Triangle::new(
        Vector4::new(fx(10.0), fx(10.0), 0, FX_ONE),
        Vector4::new(fx(20.0), fx(10.0), 0, FX_ONE),
        Vector4::new(fx(10.0), fx(20.0), 0, FX_ONE),
    );
    assert_eq!(clip_to_screen(&inside, 100, 100).len(), 1);
    let over = Triangle::new(
        Vector4::new(fx(-10.0), fx(10.0), 0, FX_ONE),
        Vector4::new(fx(20.0), fx(10.0), 0, FX_ONE),
        Vector4::new(fx(20.0), fx(20.0), 0, FX_ONE),
    );
    let pieces = clip_to_screen(&over, 100, 100);
    assert!(!pieces.is_empty());
    for t in &pieces {
        for v in [t.v1, t.v2, t.v3] {
            assert!(v.x >= -4 && v.y >= -4);
        }
    }
    let outside = Triangle::new(
        Vector4::new(fx(200.0), fx(10.0), 0, FX_ONE),
        Vector4::new(fx(220.0), fx(10.0), 0, FX_ONE),
        Vector4::new(fx(210.0), fx(20.0), 0, FX_ONE),
    );
    assert!(clip_to_screen(&outside, 100, 100).is_empty());
}

#[test]
fn painter_sort_puts_far_first() {
    let t = |z: i32| Triangle::new(Vector4::new(0, 0, z, 0), Vector4::new(0, 0, z, 0), Vector4::new(0, 0, z, 0));
    let sorted = sort_back_to_front(vec![t(1), t(5), t(3), t(5), t(-2)]);
    let zs: Vec<i32> = sorted.iter().map(|t| t.v1.z).collect();
    assert_eq!(zs, vec![5, 5, 3, 1, -2]);
}

#[test]
fn palettes_band_light() {
    assert_eq!(PaletteDefault.get_shading_color(fx(0.1)), PALETTE_DEFAULT::ORANGE.to_u32());
    assert_eq!(PaletteDefault.get_shading_color(fx(0.5)), 0xFFFF00);
    assert_eq!(PaletteDefault.get_shading_color(fx(0.9)), 0xFFFFFF);
    assert_eq!(PaletteDefault.get_shading_color(fx(1.0)), 0);
    assert_eq!(PaletteDefault.get_shading_color(fx(-0.2)), 0xFFA500);
    assert_eq!(PaletteDefault.get_shading_color(fx(-0.5)), 0);
    assert_eq!(PalettePink.get_shading_color(fx(0.0)), PALETTE_PINK::PINK4.to_u32());
    assert_eq!(PalettePink.get_shading_color(fx(1.0)), 0xFE6C90);
    assert_eq!(Renderer3D::get_shading_color(fx(0.6), ShadingPalette::Pink), 0x87286A);
    assert_eq!(COLOUR::BROWN.to_u32(), 0x8B4513);
    assert_eq!(PALETTE_INKPINK::PINK2.to_u32(), 0x87286a);
}

fn texture_2x2() -> Texture {
    let data = vec![
        1, 2, 3, 4, 5, 6, 7, 8, //
        9, 10, 11, 12, 13, 14, 15, 16,
    ];
    Texture::from_rgba("tex/brick.PNG", data, 2, 2).unwrap()
}

#[test]
fn texture_pixels_pack() {
    let t = texture_2x2();
    assert_eq!(t.format, ImageFormat::PNG);
    assert_eq!(t.get_pixel(1, 1), Some([13, 14, 15, 16]));
    assert_eq!(t.get_pixel_as_u32(1, 0, true), Some(0x05060708));
    assert_eq!(t.get_pixel_as_u32(1, 0, false), Some(0x050607));
    assert_eq!(t.get_pixel_as_u32(2, 0, false), None);
    assert_eq!(t.get_pixel(0, 2), None);
    let short = Texture::from_rgba("a.bmp", vec![1, 2, 3], 1, 1).unwrap();
    assert_eq!(short.get_pixel(0, 0), None);
}

#[test]
fn image_formats_from_extensions() {
    assert_eq!(ImageFormat::from_extension("PNG"), Ok(ImageFormat::PNG));
    assert_eq!(ImageFormat::from_extension("JpEg"), Ok(ImageFormat::JPG));
    assert_eq!(ImageFormat::from_lowercase("jpg"), Ok(ImageFormat::JPG));
    assert!(ImageFormat::from_lowercase("BMP").is_err());
    assert!(ImageFormat::from_extension("gif").is_err());
    assert_eq!("bmp".parse::<ImageFormat>(), Ok(ImageFormat::BMP));
    assert!(Texture::from_rgba("noext", vec![], 0, 0).is_err());
    assert!(Texture::from_rgba("a.gif", vec![], 0, 0).is_err());
    assert_eq!(Texture::from_rgba("x/y.jpeg", vec![], 0, 0).unwrap().format, ImageFormat::JPG);
}

#[test]
fn texture_pool_registers_by_name() {
    let mut pool = TexturePool::new();
    assert!(!pool.contains("brick"));
    pool.register("brick", texture_2x2());
    pool.register("other", Texture::from_rgba("o.bmp", vec![0; 4], 1, 1).unwrap());
    assert!(pool.contains("brick"));
    assert_eq!(pool.get("brick").unwrap().width, 2);
    pool.register("brick", Texture::from_rgba("b.bmp", vec![0; 4], 1, 1).unwrap());
    assert_eq!(pool.get_or_panic("brick").width, 1);
    assert_eq!(pool.entries.len(), 2);
    assert!(pool.get("missing").is_none());
}

#[test]
fn textured_triangle_samples_and_depth_tests() {
    let (w, h) = (8usize, 8usize);
    let mut r = Renderer3D::new(vec![0; w * h], w, h);
    let t = Texture::from_rgba("t.png", vec![200, 100, 50, 255], 1, 1).unwrap();
    let uv = Vector3::new(0, 0, FX_ONE);
    r.textured_triangle(Vector2i::new(0, 0), uv, Vector2i::new(6, 0), uv, Vector2i::new(0, 6), uv, &t);
    assert_eq!(r.renderer_2d.buffer()[1 * w + 1], 0xC86432);
    assert_eq!(r.depth_buffer[1 * w + 1], FX_ONE);
    assert_eq!(r.renderer_2d.buffer()[7 * w + 7], 0);
    // a farther triangle over the same pixels loses the depth test
    let far = Vector3::new(0, 0, FX_ONE / 2);
    let t2 = Texture::from_rgba("u.png", vec![1, 1, 1, 255], 1, 1).unwrap();
    r.textured_triangle(Vector2i::new(0, 0), far, Vector2i::new(6, 0), far, Vector2i::new(0, 6), far, &t2);
    assert_eq!(r.renderer_2d.buffer()[1 * w + 1], 0xC86432);
}

#[test]
fn obj_records_build_mesh() {
    assert_eq!(ObjLoader::face_index("12/3/4"), Some(11));
    assert_eq!(ObjLoader::face_index("1"), Some(0));
    assert_eq!(ObjLoader::face_index("+3/1"), Some(2));
    assert_eq!(ObjLoader::face_index("+"), None);
    assert_eq!(ObjLoader::face_index("-3"), None);
    assert_eq!(ObjLoader::face_index("0"), None);
    assert_eq!(ObjLoader::face_index("x"), None);
    assert_eq!(ObjLoader::face_index("/2"), None);
    assert_eq!(ObjLoader::face_index("99999999999999999999999"), None);
    let v = |x: i32, y: i32| ObjRecord::Vertex(Vector3::new(x * FX_ONE, y * FX_ONE, 0));
    let records = vec![
        v(0, 0),
        v(1, 0),
        v(1, 1),
        v(0, 1),
        ObjRecord::Face(vec![0, 1, 2, 3]),
        ObjRecord::Face(vec![0, 1, 2]),
        ObjRecord::Face(vec![0, 1, 9]),
        ObjRecord::Face(vec![0, 1]),
    ];
    let mesh = ObjLoader::from_records(&records);
    assert_eq!(mesh.tris.len(), 3);
    assert_eq!(mesh.tris[1].v1, Vector4::new(0, 0, 0, FX_ONE));
    assert_eq!(mesh.tris[1].v2, Vector4::new(FX_ONE, FX_ONE, 0, FX_ONE));
    assert_eq!(mesh.tris[1].v3, Vector4::new(0, FX_ONE, 0, FX_ONE));
}

#[test]
fn draw_square_and_x_at_y() {
    let (w, h) = (10usize, 10usize);
    let mut r = Renderer3D::new(vec![0; w * h], w, h);
    r.renderer_2d.draw_square(Vector2i::new(1, 1), Vector2i::new(4, 3), 7, false, 9);
    assert_eq!(r.renderer_2d.buffer()[1 * w + 2], 7);
    assert_eq!(r.renderer_2d.buffer()[2 * w + 2], 0);
    r.renderer_2d.draw_square(Vector2i::new(4, 3), Vector2i::new(1, 1), 7, true, 9);
    assert_eq!(r.renderer_2d.buffer()[2 * w + 2], 9);
    assert_eq!(r.renderer_2d.buffer().iter().filter(|&&c| c == 9).count(), 12);
    let g = &r.renderer_2d;
    assert_eq!(g.get_x_at_y(Vector2i::new(0, 0), Vector2i::new(10, 10), 5), 5);
    assert_eq!(g.get_x_at_y(Vector2i::new(0, 0), Vector2i::new(3, 2), 1), 2);
    assert_eq!(g.get_x_at_y(Vector2i::new(0, 0), Vector2i::new(-3, 2), 1), -2);
    assert_eq!(g.get_x_at_y(Vector2i::new(4, 3), Vector2i::new(9, 3), 3), 4);
    assert_eq!(g.get_x_at_y(Vector2i::new(4, 3), Vector2i::new(9, 3), 100), i32::MAX);
    assert_eq!(g.get_x_at_y(Vector2i::new(0, 0), Vector2i::new(10, 0), 5), i32::MAX);
    assert_eq!(g.get_x_at_y(Vector2i::new(0, 0), Vector2i::new(3, 2), 3), i32::MAX);
    r.renderer_2d.clear(3);
    assert!(r.renderer_2d.buffer().iter().all(|&c| c == 3));
}

#[test]
fn draw_line_steep_and_reversed() {
    let (w, h) = (10usize, 10usize);
    let mut r = Renderer3D::new(vec![0; w * h], w, h);
    r.renderer_2d.draw_line(Vector2i::new(2, 8), Vector2i::new(0, 0), 1);
    let lit: Vec<(usize, usize)> = (0..h)
        .flat_map(|y| (0..w).map(move |x| (x, y)))
        .filter(|&(x, y)| r.renderer_2d.buffer()[y * w + x] == 1)
        .collect();
    assert_eq!(lit.len(), 9);
    assert!(lit.contains(&(0, 0)) && lit.contains(&(2, 8)));
    r.renderer_2d.draw_line(Vector2i::new(-5, -5), Vector2i::new(-1, -1), 2);
    assert!(r.renderer_2d.buffer().iter().all(|&c| c != 2));
}

#[test]
fn camera_input_moves_and_turns() {
    let mut c = Camera3D::new(Vector3::zero(), 10, 10);
    let none = raster3d::object3d::CameraInput {
        left: false,
        right: false,
        down: false,
        up: false,
        forward: false,
        back: false,
        turn_right: false,
        turn_left: false,
    };
    let quarter = Angle { cos: 0, sin: FX_ONE };
    c.apply_input(raster3d::object3d::CameraInput { forward: true, up: true, ..none }, fx(0.5), fx(2.0), quarter);
    assert_eq!(c.position, Vector3::new(0, fx(0.5), fx(2.0)));
    assert_eq!(c.look_dir, Vector3::new(0, 0, FX_ONE));
    c.apply_input(raster3d::object3d::CameraInput { turn_right: true, left: true, ..none }, fx(1.0), 0, quarter);
    assert_eq!(c.position, Vector3::new(fx(-1.0), fx(0.5), fx(2.0)));
    assert_eq!(c.yaw, quarter);
    assert_eq!(c.look_dir, Vector3::new(FX_ONE, 0, 0));
    c.apply_input(raster3d::object3d::CameraInput { turn_left: true, ..none }, 0, 0, quarter);
    assert_eq!(c.yaw, Angle::zero());
    assert_eq!(c.look_dir, Vector3::new(0, 0, FX_ONE));
}

#[test]
fn painter_sort_is_stable() {
    let t = |z: i32, c: u32| {
        Triangle::new(Vector4::new(0, 0, z, 0), Vector4::new(0, 0, 0, 0), Vector4::new(0, 0, 0, 0)).set_light_color(c)
    };
    let sorted = sort_back_to_front(vec![t(1, 1), t(2, 2), t(1, 3), t(2, 4), t(1, 5)]);
    let order: Vec<u32> = sorted.iter().map(|t| t.light_color).collect();
    assert_eq!(order, vec![2, 4, 1, 3, 5]);
}

#[test]
fn rendering_twice_gives_the_same_frame() {
    let (w, h) = (64usize, 64usize);
    let meshes = vec![Mesh::unit_cube(Vector3::new(fx(-0.5), fx(-0.5), fx(3.0)))];
    let camera = Camera3D::new(Vector3::zero(), w, h);
    let proj = Matrix4x4::project(fx(0.1), fx(1000.0), FX_ONE, h, w);
    let mut a = Renderer3D::new(vec![0; w * h], w, h);
    let mut b = Renderer3D::new(vec![7; w * h], w, h);
    a.render_frame(&meshes, &camera, &proj, ShadingPalette::Default, 1);
    b.render_frame(&meshes, &camera, &proj, ShadingPalette::Default, 1);
    assert_eq!(a.renderer_2d.buffer(), b.renderer_2d.buffer());
    assert!(a.renderer_2d.buffer().iter().any(|&c| c != 0));
}
