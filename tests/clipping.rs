use raster3d::fixed::FX_ONE;
use raster3d::renderer_3d::Renderer3D;
use raster3d::triangle::Triangle;
use raster3d::vector3::Vector3;
use raster3d::vector4::Vector4;

fn p(x: i32, y: i32, z: i32) -> Vector4 {
    Vector4::new(x * FX_ONE, y * FX_ONE, z * FX_ONE, FX_ONE)
}

fn plane() -> (Vector4, Vector4) {
    (p(0, 0, 1), Vector4::new(0, 0, 5 * FX_ONE, FX_ONE))
}

fn uv(u: i32, v: i32) -> Vector3 {
    Vector3::new(u * FX_ONE, v * FX_ONE, FX_ONE)
}

fn same(a: &Triangle, b: &Triangle) -> bool {
    a.v1 == b.v1 && a.v2 == b.v2 && a.v3 == b.v3 && a.light_color == b.light_color && a.uv == b.uv
}

#[test]
fn intersect_plane_finds_crossing() {
    let (pp, pn) = plane();
    let (q, t) = Renderer3D::intersect_plane(pp, pn, p(0, 0, 0), p(4, 0, 4));
    assert_eq!(t, FX_ONE / 4);
    assert_eq!(q, Vector4::new(FX_ONE, 0, FX_ONE, FX_ONE));
    let (q, t) = Renderer3D::intersect_plane(pp, pn, p(1, 2, 3), p(5, 6, 3));
    assert_eq!((q, t), (p(1, 2, 3), 0));
}

#[test]
fn clip_all_inside_returns_triangle() {
    let (pp, pn) = plane();
    let t = Triangle::new(p(0, 0, 2), p(1, 0, 3), p(0, 1, 1)).set_light_color(7);
    let r = Renderer3D::triangle_clip_against_plane(pp, pn, &t);
    assert_eq!(r.len(), 1);
    assert!(same(&r[0], &t));
}

#[test]
fn clip_all_outside_returns_nothing() {
    let (pp, pn) = plane();
    let t = Triangle::new(p(0, 0, 0), p(1, 0, -3), p(0, 1, 0));
    assert!(Renderer3D::triangle_clip_against_plane(pp, pn, &t).is_empty());
}

#[test]
fn clip_one_inside_gives_one_triangle_on_plane() {
    let (pp, pn) = plane();
    let t = Triangle::new(p(0, 0, 0), p(0, 0, 3), p(2, 0, -1))
        .set_light_color(0xABCDEF)
        .set_uv([uv(0, 0), uv(1, 0), uv(1, 1)]);
    let r = Renderer3D::triangle_clip_against_plane(pp, pn, &t);
    assert_eq!(r.len(), 1);
    let o = &r[0];
    // the kept vertex first, then the crossings toward v3 and v1: the
    // input's winding order
    assert_eq!(o.v1, p(0, 0, 3));
    assert_eq!(o.light_color, 0xABCDEF);
    assert_eq!(o.v2, Vector4::new(FX_ONE, 0, FX_ONE, FX_ONE));
    // both new vertices lie on the plane z = 1, up to fixed-point rounding
    assert!((o.v2.z - FX_ONE).abs() <= 4);
    assert!((o.v3.z - FX_ONE).abs() <= 4);
    assert_eq!((o.v3.x, o.v3.y), (0, 0));
    assert_eq!(o.uv[0], uv(1, 0));
    assert_eq!(o.uv[1], Vector3::new(FX_ONE, FX_ONE / 2, FX_ONE));
    assert_eq!(o.uv[2], Vector3::new(FX_ONE / 3 + 1, 0, FX_ONE));
    let (n_in, n_out) = (normal(&t), normal(o));
    assert!(n_in.0 * n_out.0 + n_in.1 * n_out.1 + n_in.2 * n_out.2 > 0.0);
}

#[test]
fn clip_keeps_winding() {
    // the case where the kept vertex is v2, against z >= 0
    let (pp, pn) = (p(0, 0, 0), Vector4::new(0, 0, FX_ONE, FX_ONE));
    let t = Triangle::new(p(1, 0, -1), p(0, 0, 1), p(0, 1, -1));
    let r = Renderer3D::triangle_clip_against_plane(pp, pn, &t);
    assert_eq!(r.len(), 1);
    let n_in = normal(&t);
    let n_out = normal(&r[0]);
    assert!(n_in.0 * n_out.0 + n_in.1 * n_out.1 + n_in.2 * n_out.2 > 0.0);
    // two kept, v3 dropped
    let t2 = Triangle::new(p(0, 0, 1), p(1, 0, 1), p(0, 1, -1));
    let n_in = normal(&t2);
    for piece in Renderer3D::triangle_clip_against_plane(pp, pn, &t2) {
        let n_out = normal(&piece);
        assert!(n_in.0 * n_out.0 + n_in.1 * n_out.1 + n_in.2 * n_out.2 > 0.0);
    }
}

fn normal(t: &Triangle) -> (f64, f64, f64) {
    let f = |v: Vector4| (v.x as f64 / 65536.0, v.y as f64 / 65536.0, v.z as f64 / 65536.0);
    let (a, b, c) = (f(t.v1), f(t.v2), f(t.v3));
    let u = (b.0 - a.0, b.1 - a.1, b.2 - a.2);
    let w = (c.0 - a.0, c.1 - a.1, c.2 - a.2);
    (u.1 * w.2 - u.2 * w.1, u.2 * w.0 - u.0 * w.2, u.0 * w.1 - u.1 * w.0)
}

#[test]
fn clip_two_inside_gives_quad_split() {
    let (pp, pn) = plane();
    let t = Triangle::new(p(0, 0, 3), p(2, 0, 3), p(0, 2, -1)).set_light_color(5);
    let r = Renderer3D::triangle_clip_against_plane(pp, pn, &t);
    assert_eq!(r.len(), 2);
    let ia = Vector4::new(0, FX_ONE, FX_ONE, FX_ONE);
    let ib = Vector4::new(FX_ONE, FX_ONE, FX_ONE, FX_ONE);
    assert_eq!((r[0].v1, r[0].v2, r[0].v3), (p(0, 0, 3), p(2, 0, 3), ib));
    assert_eq!((r[1].v1, r[1].v2, r[1].v3), (p(0, 0, 3), ib, ia));
    assert_eq!(r[0].light_color, 5);
    assert_eq!(r[1].light_color, 5);
}
