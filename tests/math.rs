use raster3d::fixed::{fx_div, fx_int, fx_mul, isqrt, FX_ONE};
use raster3d::matrix4x4::{Angle, Matrix4x4};
use raster3d::vector::Vector2i;
use raster3d::vector2::Vector2;
use raster3d::vector3::Vector3;
use raster3d::vector4::Vector4;

fn fx(v: f64) -> i32 {
    (v * 65536.0).round() as i32
}

#[test]
fn fixed_point_products_and_quotients() {
    assert_eq!(fx_mul(fx(1.5), fx(2.0)), fx(3.0));
    assert_eq!(fx_mul(fx(-1.5), fx(2.0)), fx(-3.0));
    assert_eq!(fx_mul(-1, 1), -1);
    assert_eq!(fx_div(fx(3.0), fx(2.0)), fx(1.5));
    assert_eq!(fx_div(fx(-1.0), fx(3.0)), -21846);
    assert_eq!(fx_mul(i32::MAX, i32::MAX), i32::MAX);
    assert_eq!(fx_int(3), 3 * FX_ONE);
    assert_eq!(fx_int(70000), i32::MAX);
}

#[test]
fn integer_square_root() {
    assert_eq!(isqrt(0), 0);
    assert_eq!(isqrt(15), 3);
    assert_eq!(isqrt(16), 4);
    assert_eq!(isqrt(u128::MAX), u64::MAX as u128);
}

#[test]
fn normalize_gives_unit_length() {
    let cases = [
        Vector3::new(fx(3.0), fx(4.0), 0),
        Vector3::new(1, 1, 0),
        Vector3::new(fx(-2.5), fx(7.0), fx(0.1)),
        Vector3::new(i32::MAX, i32::MIN, i32::MAX),
    ];
    for v in cases {
        let m = v.normalize().magnitude();
        assert!((m - FX_ONE).abs() <= 4, "{:?} -> {}", v, m);
    }
    let n = Vector3::new(fx(3.0), fx(4.0), 0).normalize();
    assert_eq!((n.x, n.y, n.z), (fx(0.6) - 1, fx(0.8) - 1, 0));
}

#[test]
fn normalize_zero_is_zero() {
    assert_eq!(Vector3::zero().normalize(), Vector3::zero());
    assert_eq!(Vector4::new(0, 0, 0, 5).normalize(), Vector4::zero());
    assert_eq!(Vector2::zero().normalize(), Vector2::zero());
    let m = Vector4::new(fx(1.0), fx(1.0), fx(1.0), FX_ONE).normalize().magnitude();
    assert!((m - FX_ONE).abs() <= 4);
}

#[test]
fn dot_and_cross() {
    let x = Vector3::new(FX_ONE, 0, 0);
    let y = Vector3::new(0, FX_ONE, 0);
    assert_eq!(x.cross(y), Vector3::new(0, 0, FX_ONE));
    assert_eq!(x.dot(y), 0);
    assert_eq!(Vector3::new(fx(2.0), fx(3.0), fx(4.0)).dot(Vector3::new(fx(1.0), fx(0.5), fx(-1.0))), fx(-0.5));
    let a = Vector4::new(fx(2.0), 0, 0, FX_ONE);
    assert_eq!(a.magnitude(), fx(2.0));
    assert_eq!(a.add(Vector4::new(i32::MAX, 0, 0, 0)).x, i32::MAX);
    assert_eq!(Vector2::new(fx(3.0), fx(4.0)).magnitude(), fx(5.0));
}

#[test]
fn vector2i_normalize_truncates_toward_zero() {
    assert_eq!(Vector2i::new(5, 0).normalize(), Vector2i::new(1, 0));
    assert_eq!(Vector2i::new(0, -7).normalize(), Vector2i::new(0, -1));
    assert_eq!(Vector2i::new(3, 4).normalize(), Vector2i::zero());
    assert_eq!(Vector2i::zero().normalize(), Vector2i::zero());
    assert_eq!(Vector2i::new(3, 4).magnitude(), 5);
    assert_eq!(Vector2i::new(i32::MAX, 1).add(Vector2i::one()).x, i32::MAX);
}

#[test]
fn perspective_divide_guards_zero_w() {
    let p = Vector4::new(fx(4.0), fx(2.0), fx(1.0), fx(2.0)).perspective_divide();
    assert_eq!(p, Vector3::new(fx(2.0), fx(1.0), fx(0.5)));
    let q = Vector4::new(fx(4.0), fx(2.0), fx(1.0), 0).perspective_divide();
    assert_eq!(q, Vector3::new(fx(4.0), fx(2.0), fx(1.0)));
}

#[test]
fn matrices_compose_rows() {
    let t = Matrix4x4::translation(Vector3::new(fx(1.0), fx(2.0), fx(3.0)));
    let p = Matrix4x4::multiply_vec(&t, &Vector4::new(fx(1.0), fx(1.0), fx(1.0), FX_ONE));
    assert_eq!(p, Vector4::new(fx(2.0), fx(3.0), fx(4.0), FX_ONE));
    let i = Matrix4x4::identity();
    let m = Matrix4x4::multiply_matrix(&t, &i);
    assert_eq!(m.m, t.m);
    let quarter = Angle { cos: 0, sin: FX_ONE };
    let r = Matrix4x4::rotation_z(quarter);
    let v = Matrix4x4::multiply_vec(&r, &Vector4::new(FX_ONE, 0, 0, FX_ONE));
    assert_eq!(v, Vector4::new(0, FX_ONE, 0, FX_ONE));
    let inv = t.quick_inverse();
    let back = Matrix4x4::multiply_vec(&inv, &p);
    assert_eq!(back, Vector4::new(fx(1.0), fx(1.0), fx(1.0), FX_ONE));
}

#[test]
fn point_at_and_quick_inverse_undo_each_other() {
    let pos = Vector3::new(fx(1.0), fx(2.0), fx(3.0));
    let cam = Matrix4x4::point_at(pos, Vector3::new(fx(1.0), fx(2.0), fx(4.0)), Vector3::up());
    assert_eq!(cam.m[2], [0, 0, FX_ONE, 0]);
    assert_eq!(cam.m[3], [pos.x, pos.y, pos.z, FX_ONE]);
    let view = cam.quick_inverse();
    let local = Matrix4x4::multiply_vec(&view, &Vector4::new(fx(1.0), fx(2.0), fx(5.0), FX_ONE));
    assert_eq!(local, Vector4::new(0, 0, fx(2.0), FX_ONE));
}

#[test]
fn projection_matrix_entries() {
    let m = Matrix4x4::project(fx(0.1), fx(1000.0), FX_ONE, 500, 500);
    assert_eq!(m.m[0][0], FX_ONE);
    assert_eq!(m.m[1][1], FX_ONE);
    assert_eq!(m.m[2][3], FX_ONE);
    assert_eq!(m.m[3][3], 0);
    assert!((m.m[2][2] - fx(1000.0 / 999.9)).abs() <= 2);
    assert!((m.m[3][2] - fx(-100.0 / 999.9)).abs() <= 2);
}

#[test]
fn projection_round_trip() {
    let (w, h) = (500usize, 500usize);
    let m = Matrix4x4::project(fx(0.1), fx(1000.0), FX_ONE, h, w);
    for (x, y, z) in [(0.5, -0.25, 5.0), (-1.0, 2.0, 10.0), (0.0, 0.0, 1.0)] {
        let p = Vector4::new(fx(x), fx(y), fx(z), FX_ONE);
        let clip = Matrix4x4::multiply_vec(&m, &p);
        let ndc = clip.perspective_divide();
        let sx = (ndc.x as f64 / 65536.0 + 1.0) * 0.5 * w as f64;
        let sy = (1.0 - ndc.y as f64 / 65536.0) * 0.5 * h as f64;
        let wz = clip.w as f64 / 65536.0;
        let bx = (sx / (0.5 * w as f64) - 1.0) * wz;
        let by = (1.0 - sy / (0.5 * h as f64)) * wz;
        assert!((wz - z).abs() < 1e-3);
        assert!((bx - x).abs() < 1e-2, "{} vs {}", bx, x);
        assert!((by - y).abs() < 1e-2, "{} vs {}", by, y);
    }
}
