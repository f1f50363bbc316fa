//! Meshes from Wavefront OBJ records.
//!
//! Reading the file and reading the decimal vertex coordinates happen
//! outside; this module reads face indices and assembles the mesh: vertex
//! records collect into a list, face records of three or four indices
//! become one triangle or two (a fan over the quad).
use vstd::prelude::*;
use vstd::string::StrSliceExecFns;
use crate::vector3::Vector3;
use crate::vector4::Vector4;
use crate::triangle::{Triangle, uv_zero};
use crate::object3d::Object3D;
use crate::mesh::Mesh;

verus! {

/// One record of an OBJ file: a vertex position, or a face's 0-based
/// vertex indices.
#[derive(Debug, Clone, PartialEq, Eq)]
pub enum ObjRecord {
    Vertex(Vector3),
    Face(Vec<usize>),
}

/// Loads meshes from OBJ records.
pub struct ObjLoader;

/// Value of a string of decimal digits.
pub open spec fn digits_value(s: Seq<char>) -> int
    decreases s.len(),
{
    if s.len() == 0 {
        0
    } else {
        digits_value(s.drop_last()) * 10 + (s.last() as int - '0' as int)
    }
}

/// Every character of `s` is a decimal digit.
pub open spec fn all_digits(s: Seq<char>) -> bool {
    forall|i: int| 0 <= i < s.len() ==> '0' <= #[trigger] s[i] <= '9'
}

/// Length of the part of `s` before its first `/`.
pub open spec fn index_part_len(s: Seq<char>) -> int
    decreases s.len(),
{
    if s.len() == 0 {
        0
    } else if s[0] == '/' {
        0
    } else {
        1 + index_part_len(s.drop_first())
    }
}

/// The digits of an index part: without one leading `+`, as `usize`
/// parsing allows.
pub open spec fn unsigned_digits(p: Seq<char>) -> Seq<char> {
    if p.len() > 0 && p[0] == '+' {
        p.drop_first()
    } else {
        p
    }
}

/// The 0-based vertex index a face token `n`, `n/t` or `n/t/m` names: its
/// part before the first `/`, read as a 1-based decimal index (one leading
/// `+` allowed). None when that part has no digits, holds a non-digit, is
/// 0, or does not fit a `usize`.
pub open spec fn face_index_spec(s: Seq<char>) -> Option<usize> {
    let p = unsigned_digits(s.subrange(0, index_part_len(s)));
    if p.len() == 0 || !all_digits(p) || digits_value(p) == 0 || digits_value(p) > usize::MAX {
        None
    } else {
        Some((digits_value(p) - 1) as usize)
    }
}

/// A triangle over three positions, as points.
pub open spec fn tri_of_points(a: Vector3, b: Vector3, c: Vector3) -> Triangle {
    Triangle {
        v1: Vector4 { x: a.x, y: a.y, z: a.z, w: 65536 },
        v2: Vector4 { x: b.x, y: b.y, z: b.z, w: 65536 },
        v3: Vector4 { x: c.x, y: c.y, z: c.z, w: 65536 },
        light_color: 0,
        uv: [uv_zero(), uv_zero(), uv_zero()],
    }
}

/// The triangles of one face over `verts`: one for three indices, two (a
/// fan from the first index) for four, none for any other count or when an
/// index names no vertex.
pub open spec fn face_tris(verts: Seq<Vector3>, ix: Seq<usize>) -> Seq<Triangle> {
    if (ix.len() == 3 || ix.len() == 4) && forall|k: int| 0 <= k < ix.len() ==> #[trigger] ix[k] < verts.len() {
        if ix.len() == 3 {
            seq![tri_of_points(verts[ix[0] as int], verts[ix[1] as int], verts[ix[2] as int])]
        } else {
            seq![
                tri_of_points(verts[ix[0] as int], verts[ix[1] as int], verts[ix[2] as int]),
                tri_of_points(verts[ix[0] as int], verts[ix[2] as int], verts[ix[3] as int]),
            ]
        }
    } else {
        seq![]
    }
}

/// The vertices and triangles the records give, in order.
pub open spec fn assemble(records: Seq<ObjRecord>) -> (Seq<Vector3>, Seq<Triangle>)
    decreases records.len(),
{
    if records.len() == 0 {
        (seq![], seq![])
    } else {
        let (v, t) = assemble(records.drop_last());
        match records.last() {
            ObjRecord::Vertex(p) => (v.push(p), t),
            ObjRecord::Face(ix) => (v, t + face_tris(v, ix@)),
        }
    }
}

impl ObjLoader {
    /// The 0-based vertex index a face token names (see `face_index_spec`).
    pub fn face_index(token: &str) -> (r: Option<usize>)
        ensures
            r == face_index_spec(token@),
    {
        let n = token.unicode_len();
        let ghost s = token@;
        let mut len: usize = 0;
        assert(s.subrange(0, n as int) =~= s);
        while len < n && token.get_char(len) != '/'
            invariant
                n == s.len(),
                s == token@,
                0 <= len <= n,
                forall|k: int| 0 <= k < len ==> s[k] != '/',
                index_part_len(s) == len + index_part_len(s.subrange(len as int, n as int)),
            decreases n - len,
        {
            proof {
                let t = s.subrange(len as int, n as int);
                assert(t.drop_first() =~= s.subrange(len + 1, n as int));
            }
            len = len + 1;
        }
        proof {
            let t = s.subrange(len as int, n as int);
            if len < n {
                assert(t[0] == '/');
            } else {
                assert(t.len() == 0);
            }
            assert(index_part_len(t) == 0);
        }
        let start: usize = if len > 0 && token.get_char(0) == '+' { 1 } else { 0 };
        let ghost p = s.subrange(start as int, len as int);
        proof {
            let whole = s.subrange(0, len as int);
            if start == 1 {
                assert(whole[0] == '+');
                assert(whole.drop_first() =~= p);
            } else {
                assert(whole =~= p);
            }
            assert(unsigned_digits(whole) == p);
        }
        if len == start {
            assert(p.len() == 0);
            return None;
        }
        let plen: usize = len - start;
        let mut value: usize = 0;
        let mut i: usize = 0;
        while i < plen
            invariant
                n == s.len(),
                s == token@,
                0 <= start <= 1,
                start + plen == len,
                0 <= i <= plen,
                len <= n,
                p == s.subrange(start as int, len as int),
                index_part_len(s) == len,
                unsigned_digits(s.subrange(0, len as int)) == p,
                all_digits(p.subrange(0, i as int)),
                value == digits_value(p.subrange(0, i as int)),
            decreases plen - i,
        {
            let ch = token.get_char(start + i);
            assert(p[i as int] == ch);
            if ch < '0' || ch > '9' {
                proof {
                    assert(!all_digits(p));
                }
                return None;
            }
            let d = (ch as u32 - '0' as u32) as usize;
            proof {
                assert(p.subrange(0, i + 1).drop_last() =~= p.subrange(0, i as int));
                assert(p.subrange(0, i + 1).last() == ch);
            }
            if value > (usize::MAX - d) / 10 {
                proof {
                    assert(digits_value(p.subrange(0, i + 1)) > usize::MAX) by (nonlinear_arith)
                        requires
                            value > (usize::MAX - d) / 10,
                            digits_value(p.subrange(0, i + 1)) == value * 10 + d,
                            0 <= d <= 9,
                    ;
                    assert(p.subrange(0, plen as int) =~= p);
                    if all_digits(p) {
                        lemma_digits_monotone(p, i as int + 1, plen as int);
                    }
                }
                return None;
            }
            value = value * 10 + d;
            i = i + 1;
        }
        proof {
            assert(p.subrange(0, plen as int) =~= p);
        }
        if value == 0 {
            None
        } else {
            Some(value - 1)
        }
    }

    /// The triangles of one face over `verts` (see `face_tris`).
    pub fn triangulate(verts: &Vec<Vector3>, ix: &Vec<usize>) -> (r: Vec<Triangle>)
        ensures
            r@ == face_tris(verts@, ix@),
    {
        let n = ix.len();
        if n != 3 && n != 4 {
            return Vec::new();
        }
        let mut k: usize = 0;
        while k < n
            invariant
                n == ix@.len(),
                0 <= k <= n,
                forall|q: int| 0 <= q < k ==> #[trigger] ix@[q] < verts@.len(),
            decreases n - k,
        {
            if ix[k] >= verts.len() {
                let r: Vec<Triangle> = Vec::new();
                assert(r@ =~= face_tris(verts@, ix@));
                return r;
            }
            k = k + 1;
        }
        let a = verts[ix[0]];
        let b = verts[ix[1]];
        let c = verts[ix[2]];
        let t1 = point_triangle(a, b, c);
        if n == 3 {
            let r = vec![t1];
            assert(r@ =~= face_tris(verts@, ix@));
            r
        } else {
            let d = verts[ix[3]];
            let t2 = point_triangle(a, c, d);
            let r = vec![t1, t2];
            assert(r@ =~= face_tris(verts@, ix@));
            r
        }
    }

    /// The mesh the records give, at the origin and not rotated.
    pub fn from_records(records: &Vec<ObjRecord>) -> (r: Mesh)
        ensures
            r.tris@ == assemble(records@).1,
            r.obj == Object3D::zero_spec(),
    {
        let mut verts: Vec<Vector3> = Vec::new();
        let mut tris: Vec<Triangle> = Vec::new();
        let mut i: usize = 0;
        while i < records.len()
            invariant
                0 <= i <= records@.len(),
                (verts@, tris@) == assemble(records@.subrange(0, i as int)),
            decreases records@.len() - i,
        {
            proof {
                let s = records@.subrange(0, i + 1);
                assert(s.drop_last() =~= records@.subrange(0, i as int));
            }
            match &records[i] {
                ObjRecord::Vertex(p) => {
                    verts.push(*p);
                },
                ObjRecord::Face(ix) => {
                    let mut part = ObjLoader::triangulate(&verts, ix);
                    tris.append(&mut part);
                },
            }
            i = i + 1;
        }
        assert(records@.subrange(0, records@.len() as int) =~= records@);
        Mesh { obj: Object3D::zero(), tris }
    }
}

/// A triangle over three positions, as points.
fn point_triangle(a: Vector3, b: Vector3, c: Vector3) -> (r: Triangle)
    ensures
        r == tri_of_points(a, b, c),
{
    Triangle {
        v1: Vector4 { x: a.x, y: a.y, z: a.z, w: 65536 },
        v2: Vector4 { x: b.x, y: b.y, z: b.z, w: 65536 },
        v3: Vector4 { x: c.x, y: c.y, z: c.z, w: 65536 },
        light_color: 0,
        uv: [Vector3::zero(), Vector3::zero(), Vector3::zero()],
    }
}

/// The value of a digit string is at least that of any of its prefixes.
proof fn lemma_digits_monotone(p: Seq<char>, i: int, j: int)
    requires
        0 <= i <= j <= p.len(),
        all_digits(p.subrange(0, j)),
    ensures
        digits_value(p.subrange(0, i)) <= digits_value(p.subrange(0, j)),
    decreases j - i,
{
    if i < j {
        lemma_digits_monotone(p, i, j - 1);
        let s = p.subrange(0, j);
        assert(s.drop_last() =~= p.subrange(0, j - 1));
        assert(all_digits(p.subrange(0, j - 1))) by {
            assert forall|q: int| 0 <= q < j - 1 implies '0' <= #[trigger] p.subrange(0, j - 1)[q] <= '9' by {
                assert(p.subrange(0, j - 1)[q] == s[q]);
            }
        }
        lemma_digits_nonneg(p.subrange(0, j - 1));
        assert(s.last() == s[j - 1]);
    }
}

/// The value of a digit string is not negative.
proof fn lemma_digits_nonneg(s: Seq<char>)
    requires
        all_digits(s),
    ensures
        digits_value(s) >= 0,
    decreases s.len(),
{
    if s.len() > 0 {
        assert(all_digits(s.drop_last())) by {
            assert forall|q: int| 0 <= q < s.len() - 1 implies '0' <= #[trigger] s.drop_last()[q] <= '9' by {
                assert(s.drop_last()[q] == s[q]);
            }
        }
        lemma_digits_nonneg(s.drop_last());
        assert(s.last() == s[s.len() - 1]);
    }
}

} // verus!
