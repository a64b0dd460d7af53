//! Geometry primitives (cubes and meshes) and their triangulation.

use vstd::prelude::*;

use crate::keyed::KeyedList;
use crate::{Uuid, UvRect, Vec2, Vec3};

verus! {

/// A geometric primitive: either a cube or a freeform mesh.
#[derive(Clone, Debug)]
pub enum Element {
    Cube(Cube),
    Mesh(Mesh),
}

/// An axis-aligned box primitive with six optionally-textured faces.
#[derive(Clone, Debug)]
pub struct Cube {
    pub name: Option<String>,
    pub uuid: Uuid,
    /// Near corner `[x, y, z]`.
    pub from: Vec3,
    /// Far corner `[x, y, z]`.
    pub to: Vec3,
    /// Pivot point for rotation.
    pub origin: Vec3,
    /// Euler rotation in degrees `[x, y, z]`.
    pub rotation: Vec3,
    /// Colour palette index.
    pub color: u32,
    pub export: bool,
    pub visibility: bool,
    pub locked: bool,
    pub box_uv: bool,
    pub rescale: bool,
    pub autouv: u32,
    pub mirror_uv: bool,
    pub faces: CubeFaces,
}

/// Named faces of a cube; a face set to `None` is absent.
#[derive(Clone, Debug)]
pub struct CubeFaces {
    pub north: Option<CubeFace>,
    pub east: Option<CubeFace>,
    pub south: Option<CubeFace>,
    pub west: Option<CubeFace>,
    pub up: Option<CubeFace>,
    pub down: Option<CubeFace>,
}

/// A single cube face with its UV rectangle and an optional texture index.
#[derive(Clone, Debug)]
pub struct CubeFace {
    pub uv: UvRect,
    pub texture: Option<u32>,
}

/// A freeform mesh with vertices and faces keyed by string identifiers.
///
/// The keyed collections hold each key at most once.
#[derive(Clone, Debug)]
pub struct Mesh {
    pub name: Option<String>,
    pub uuid: Uuid,
    pub origin: Vec3,
    pub rotation: Vec3,
    pub color: u32,
    pub export: bool,
    pub visibility: bool,
    pub locked: bool,
    pub render_order: Option<String>,
    pub allow_mirror_modeling: bool,
    pub mirror_uv: bool,
    /// Vertex positions keyed by vertex ID.
    pub vertices: KeyedList<Vec3>,
    /// Mesh faces keyed by face ID.
    pub faces: KeyedList<MeshFace>,
}

/// A single mesh face with per-vertex UVs.
#[derive(Clone, Debug)]
pub struct MeshFace {
    /// Per-vertex UV coordinates keyed by vertex ID.
    pub uv: KeyedList<Vec2>,
    /// Ordered vertex IDs.
    pub vertices: Vec<String>,
    pub texture: Option<u32>,
}

impl Default for CubeFaces {
    /// No face present.
    fn default() -> (r: Self)
        ensures
            r.north is None && r.east is None && r.south is None && r.west is None && r.up is None
                && r.down is None,
    {
        CubeFaces { north: None, east: None, south: None, west: None, up: None, down: None }
    }
}

impl Default for CubeFace {
    /// An all-zero UV rectangle and no texture.
    fn default() -> (r: Self)
        ensures
            r.uv == [0u32, 0u32, 0u32, 0u32] && r.texture is None,
    {
        CubeFace { uv: [0, 0, 0, 0], texture: None }
    }
}

/// A mesh with every field zero, empty, absent or off.
pub open spec fn is_empty_mesh(m: Mesh) -> bool {
    &&& m.name is None && m.uuid == Uuid(0)
    &&& m.origin == [0u32, 0u32, 0u32] && m.rotation == [0u32, 0u32, 0u32] && m.color == 0
    &&& !m.export && !m.visibility && !m.locked && m.render_order is None
    &&& !m.allow_mirror_modeling && !m.mirror_uv
    &&& m.vertices@.len() == 0 && m.faces@.len() == 0
}

impl Default for Mesh {
    /// Every field zero, empty, absent or off.
    fn default() -> (r: Self)
        ensures
            is_empty_mesh(r),
    {
        Mesh {
            name: None,
            uuid: Uuid(0),
            origin: [0, 0, 0],
            rotation: [0, 0, 0],
            color: 0,
            export: false,
            visibility: false,
            locked: false,
            render_order: None,
            allow_mirror_modeling: false,
            mirror_uv: false,
            vertices: KeyedList::new(),
            faces: KeyedList::new(),
        }
    }
}

impl Default for MeshFace {
    /// No UVs, no vertices, no texture.
    fn default() -> (r: Self)
        ensures
            r.uv@.len() == 0 && r.vertices@.len() == 0 && r.texture is None,
    {
        MeshFace { uv: KeyedList::new(), vertices: Vec::new(), texture: None }
    }
}

// ---------------------------------------------------------------------------
// Keyed look-up
// ---------------------------------------------------------------------------

/// `i` is the first position of `entries` whose key is `key`.
pub open spec fn is_first_key<V>(entries: Seq<(String, V)>, key: Seq<char>, i: int) -> bool {
    &&& 0 <= i < entries.len()
    &&& entries[i].0@ == key
    &&& forall|j: int| 0 <= j < i ==> entries[j].0@ != key
}

/// The value of the first entry whose key is `key`, if any.
pub open spec fn lookup<V>(entries: Seq<(String, V)>, key: Seq<char>) -> Option<V> {
    if exists|i: int| is_first_key(entries, key, i) {
        Some(entries[choose|i: int| is_first_key(entries, key, i)].1)
    } else {
        None
    }
}

/// Finds the value of the first entry whose key equals `key`.
pub fn lookup_entry<'a, V>(entries: &'a Vec<(String, V)>, key: &String) -> (r: Option<&'a V>)
    ensures
        match r {
            Some(v) => lookup(entries@, key@) == Some(*v),
            None => lookup(entries@, key@).is_none(),
        },
{
    let mut i: usize = 0;
    while i < entries.len()
        invariant
            i <= entries.len(),
            forall|j: int| 0 <= j < i ==> entries@[j].0@ != key@,
        decreases entries.len() - i,
    {
        if entries[i].0 == *key {
            proof {
                assert(is_first_key(entries@, key@, i as int));
                let k = choose|k: int| is_first_key(entries@, key@, k);
                assert(k == i as int) by {
                    if k < i {
                        assert(entries@[k].0@ != key@);
                    } else if k > i {
                        assert(entries@[i as int].0@ != key@);
                    }
                }
            }
            return Some(&entries[i].1);
        }
        i += 1;
    }
    proof {
        assert forall|k: int| !is_first_key(entries@, key@, k) by {
            if 0 <= k < entries@.len() {
                assert(entries@[k].0@ != key@);
            }
        }
    }
    None
}


// ---------------------------------------------------------------------------
// Cube triangulation
// ---------------------------------------------------------------------------

/// Bit pattern of the `f32` value `1.0`.
pub const F32_ONE: u32 = 0x3f80_0000u32;

/// Bit pattern of the `f32` value `-1.0`.
pub const F32_NEG_ONE: u32 = 0xbf80_0000u32;

/// One triangle of a cube, before any floating-point work: the face it
/// belongs to, the unit-cube corners of its three vertices (see
/// [`cube_corner`]), its three UV coordinates, its face normal and texture.
///
/// A vertex with corner `[cx, cy, cz]` lies at
/// `from + c * (to - from)` on each axis.
#[derive(Clone, Copy, Debug)]
pub struct CubeTri {
    pub face: usize,
    pub corners: [usize; 3],
    pub uvs: [Vec2; 3],
    pub normal: Vec3,
    pub texture: Option<u32>,
}

/// The corner of the unit cube with index `c` (each axis 0 or 1).
pub open spec fn spec_cube_corner(c: int) -> [u8; 3] {
    if c == 0 {
        [0, 0, 0]
    } else if c == 1 {
        [1, 0, 0]
    } else if c == 2 {
        [1, 1, 0]
    } else if c == 3 {
        [0, 1, 0]
    } else if c == 4 {
        [0, 0, 1]
    } else if c == 5 {
        [1, 0, 1]
    } else if c == 6 {
        [1, 1, 1]
    } else {
        [0, 1, 1]
    }
}

/// The corner of the unit cube with index `c`: `[x, y, z]`, each 0 or 1.
pub fn cube_corner(c: usize) -> (r: [u8; 3])
    requires
        c < 8,
    ensures
        r == spec_cube_corner(c as int),
{
    if c == 0 {
        [0, 0, 0]
    } else if c == 1 {
        [1, 0, 0]
    } else if c == 2 {
        [1, 1, 0]
    } else if c == 3 {
        [0, 1, 0]
    } else if c == 4 {
        [0, 0, 1]
    } else if c == 5 {
        [1, 0, 1]
    } else if c == 6 {
        [1, 1, 1]
    } else {
        [0, 1, 1]
    }
}

/// The face of a cube at position `i` of the order north, east, south,
/// west, up, down.
pub open spec fn spec_face_at(faces: CubeFaces, i: int) -> Option<CubeFace> {
    if i == 0 {
        faces.north
    } else if i == 1 {
        faces.east
    } else if i == 2 {
        faces.south
    } else if i == 3 {
        faces.west
    } else if i == 4 {
        faces.up
    } else if i == 5 {
        faces.down
    } else {
        None
    }
}

/// The corners of face `i`'s quad, counter-clockwise seen from outside.
pub open spec fn spec_face_quad(i: int) -> [usize; 4] {
    if i == 0 {
        [3, 2, 1, 0]
    } else if i == 1 {
        [2, 6, 5, 1]
    } else if i == 2 {
        [4, 5, 6, 7]
    } else if i == 3 {
        [0, 4, 7, 3]
    } else if i == 4 {
        [3, 7, 6, 2]
    } else {
        [0, 1, 5, 4]
    }
}

/// The integer coordinates of unit-cube corner `c`.
pub open spec fn corner_xyz(c: usize) -> (int, int, int) {
    let a = spec_cube_corner(c as int);
    (a[0] as int, a[1] as int, a[2] as int)
}

/// The outward axis of face `i`: north -Z, east +X, south +Z, west -X,
/// up +Y, down -Y.
pub open spec fn face_axis(i: int) -> (int, int, int) {
    if i == 0 {
        (0, 0, -1)
    } else if i == 1 {
        (1, 0, 0)
    } else if i == 2 {
        (0, 0, 1)
    } else if i == 3 {
        (-1, 0, 0)
    } else if i == 4 {
        (0, 1, 0)
    } else {
        (0, -1, 0)
    }
}

/// Corner `c` lies on the plane of face `i` of the unit cube.
pub open spec fn on_face_plane(i: int, c: usize) -> bool {
    let p = corner_xyz(c);
    if i == 0 {
        p.2 == 0
    } else if i == 1 {
        p.0 == 1
    } else if i == 2 {
        p.2 == 1
    } else if i == 3 {
        p.0 == 0
    } else if i == 4 {
        p.1 == 1
    } else {
        p.1 == 0
    }
}

/// The product `a * b` of two values, exact when `b` is -1, 0 or 1.
pub open spec fn unit_mul(a: int, b: int) -> int {
    if b == 0 {
        0
    } else if b == 1 {
        a
    } else if b == -1 {
        -a
    } else {
        a * b
    }
}

/// How far triangle `tri` of face `i` turns towards the face's outward
/// axis: the dot product of `(b - a) x (c - a)` with that axis, for its
/// corners `a`, `b`, `c`.
pub open spec fn face_tri_facing(i: int, tri: int) -> int {
    let q = spec_face_quad(i);
    let (ia, ib, ic) = spec_quad_tri(tri);
    let a = corner_xyz(q[ia]);
    let b = corner_xyz(q[ib]);
    let c = corner_xyz(q[ic]);
    let u = (b.0 - a.0, b.1 - a.1, b.2 - a.2);
    let v = (c.0 - a.0, c.1 - a.1, c.2 - a.2);
    let n = face_axis(i);
    unit_mul(unit_mul(u.1, v.2) - unit_mul(u.2, v.1), n.0) + unit_mul(
        unit_mul(u.2, v.0) - unit_mul(u.0, v.2),
        n.1,
    ) + unit_mul(unit_mul(u.0, v.1) - unit_mul(u.1, v.0), n.2)
}

/// Each face's quad lies on that face's plane (north -Z, east +X,
/// south +Z, west -X, up +Y, down -Y), and both of its triangles wind
/// counter-clockwise seen from outside the cube.
pub proof fn lemma_cube_face_geometry(i: int, tri: int)
    requires
        0 <= i < 6,
        0 <= tri < 2,
    ensures
        on_face_plane(i, spec_face_quad(i)[0]),
        on_face_plane(i, spec_face_quad(i)[1]),
        on_face_plane(i, spec_face_quad(i)[2]),
        on_face_plane(i, spec_face_quad(i)[3]),
        face_tri_facing(i, tri) > 0,
{
    let q = spec_face_quad(i);
    if i == 0 {
        assert(q[0] == 3 && q[1] == 2 && q[2] == 1 && q[3] == 0);
    } else if i == 1 {
        assert(q[0] == 2 && q[1] == 6 && q[2] == 5 && q[3] == 1);
    } else if i == 2 {
        assert(q[0] == 4 && q[1] == 5 && q[2] == 6 && q[3] == 7);
    } else if i == 3 {
        assert(q[0] == 0 && q[1] == 4 && q[2] == 7 && q[3] == 3);
    } else if i == 4 {
        assert(q[0] == 3 && q[1] == 7 && q[2] == 6 && q[3] == 2);
    } else {
        assert(q[0] == 0 && q[1] == 1 && q[2] == 5 && q[3] == 4);
    }
}

/// The axis component an `f32` bit pattern stands for: `1.0` is 1,
/// `-1.0` is -1, `0.0` is 0; any other pattern is 2 (no unit component).
pub open spec fn unit_component(bits: u32) -> int {
    if bits == 0x3f80_0000u32 {
        1
    } else if bits == 0xbf80_0000u32 {
        -1
    } else if bits == 0u32 {
        0
    } else {
        2
    }
}

/// The axis a normal given as `f32` bit patterns stands for.
pub open spec fn normal_axis(n: Vec3) -> (int, int, int) {
    (unit_component(n[0]), unit_component(n[1]), unit_component(n[2]))
}

/// The dot product with `n` of `(b - a) x (c - a)`, for unit-cube corners
/// `a`, `b`, `c`, where `n` is an axis.
pub open spec fn corners_facing(a: usize, b: usize, c: usize, n: (int, int, int)) -> int {
    let pa = corner_xyz(a);
    let pb = corner_xyz(b);
    let pc = corner_xyz(c);
    let u = (pb.0 - pa.0, pb.1 - pa.1, pb.2 - pa.2);
    let v = (pc.0 - pa.0, pc.1 - pa.1, pc.2 - pa.2);
    unit_mul(unit_mul(u.1, v.2) - unit_mul(u.2, v.1), n.0) + unit_mul(
        unit_mul(u.2, v.0) - unit_mul(u.0, v.2),
        n.1,
    ) + unit_mul(unit_mul(u.0, v.1) - unit_mul(u.1, v.0), n.2)
}

/// Unit-cube corner `c` lies on the cube's side that faces along axis `n`:
/// its coordinate along `n` is 1 on a positive axis and 0 on a negative one.
pub open spec fn corner_on_side(c: usize, n: (int, int, int)) -> bool {
    let p = corner_xyz(c);
    if n == (1int, 0int, 0int) {
        p.0 == 1
    } else if n == (-1int, 0int, 0int) {
        p.0 == 0
    } else if n == (0int, 1int, 0int) {
        p.1 == 1
    } else if n == (0int, -1int, 0int) {
        p.1 == 0
    } else if n == (0int, 0int, 1int) {
        p.2 == 1
    } else if n == (0int, 0int, -1int) {
        p.2 == 0
    } else {
        false
    }
}

/// A cube triangle is where its face is: its normal is the outward axis of
/// its face (north -Z, east +X, south +Z, west -X, up +Y, down -Y), its
/// three corners lie on the cube's side facing that way, and they wind
/// counter-clockwise about the normal.
pub open spec fn cube_tri_placed(t: CubeTri) -> bool {
    let n = normal_axis(t.normal);
    &&& t.face < 6
    &&& n == face_axis(t.face as int)
    &&& corner_on_side(t.corners[0], n)
    &&& corner_on_side(t.corners[1], n)
    &&& corner_on_side(t.corners[2], n)
    &&& corners_facing(t.corners[0], t.corners[1], t.corners[2], n) > 0
}

/// The outward unit normal of face `i`, as `f32` bit patterns.
pub open spec fn spec_face_normal(i: int) -> Vec3 {
    if i == 0 {
        [0, 0, F32_NEG_ONE]
    } else if i == 1 {
        [F32_ONE, 0, 0]
    } else if i == 2 {
        [0, 0, F32_ONE]
    } else if i == 3 {
        [F32_NEG_ONE, 0, 0]
    } else if i == 4 {
        [0, F32_ONE, 0]
    } else {
        [0, F32_NEG_ONE, 0]
    }
}

/// Corner `k` of a UV rectangle, in the order
/// `(u_min, v_min), (u_max, v_min), (u_max, v_max), (u_min, v_max)`.
pub open spec fn spec_uv_corner(uv: UvRect, k: int) -> Vec2 {
    if k == 0 {
        [uv[0], uv[1]]
    } else if k == 1 {
        [uv[2], uv[1]]
    } else if k == 2 {
        [uv[2], uv[3]]
    } else {
        [uv[0], uv[3]]
    }
}

/// The quad positions that triangle `tri` of a face uses: `(0, 1, 2)` for
/// the first triangle and `(0, 2, 3)` for the second.
pub open spec fn spec_quad_tri(tri: int) -> (int, int, int) {
    if tri == 0 {
        (0, 1, 2)
    } else {
        (0, 2, 3)
    }
}

/// Triangle `tri` (0 or 1) of face `face` of a cube, or `None` when the
/// face is absent.
pub open spec fn spec_tri_for_face(cube: Cube, face: int, tri: int) -> Option<CubeTri> {
    match spec_face_at(cube.faces, face) {
        None => None,
        Some(f) => {
            let q = spec_face_quad(face);
            let (a, b, c) = spec_quad_tri(tri);
            Some(
                CubeTri {
                    face: face as usize,
                    corners: [q[a], q[b], q[c]],
                    uvs: [spec_uv_corner(f.uv, a), spec_uv_corner(f.uv, b), spec_uv_corner(f.uv, c)],
                    normal: spec_face_normal(face),
                    texture: f.texture,
                },
            )
        },
    }
}

/// The triangles of a cube from face `face`, triangle `tri` onwards, in
/// face order north, east, south, west, up, down, two per present face.
pub open spec fn cube_tris_from(cube: Cube, face: int, tri: int) -> Seq<CubeTri>
    decreases 6 - face, 2 - tri,
{
    if face >= 6 {
        Seq::empty()
    } else if tri >= 2 {
        cube_tris_from(cube, face + 1, 0)
    } else {
        let rest = cube_tris_from(cube, face, tri + 1);
        match spec_tri_for_face(cube, face, tri) {
            Some(t) => seq![t] + rest,
            None => rest,
        }
    }
}

/// All triangles of a cube.
pub open spec fn cube_tris(cube: Cube) -> Seq<CubeTri> {
    cube_tris_from(cube, 0, 0)
}

/// The number of faces of a cube that are present.
pub open spec fn present_faces_from(faces: CubeFaces, i: int) -> nat
    decreases 6 - i,
{
    if i >= 6 {
        0
    } else {
        (if spec_face_at(faces, i) is Some { 1nat } else { 0nat }) + present_faces_from(faces, i + 1)
    }
}

proof fn lemma_cube_tris_from_len(cube: Cube, face: int, tri: int)
    requires
        0 <= tri <= 2,
    ensures
        cube_tris_from(cube, face, tri).len() == (if face < 6 && spec_face_at(cube.faces, face) is Some {
            (2 - tri) as nat
        } else {
            0nat
        }) + 2 * present_faces_from(cube.faces, face + 1),
    decreases 6 - face, 2 - tri,
{
    if face >= 6 {
    } else if tri >= 2 {
        lemma_cube_tris_from_len(cube, face + 1, 0);
    } else {
        lemma_cube_tris_from_len(cube, face, tri + 1);
    }
}

proof fn lemma_present_faces_bound(faces: CubeFaces, i: int)
    requires
        0 <= i <= 6,
    ensures
        present_faces_from(faces, i) <= 6 - i,
    decreases 6 - i,
{
    if i < 6 {
        lemma_present_faces_bound(faces, i + 1);
    }
}

/// A cube yields exactly two triangles per present face, so at most twelve.
pub proof fn lemma_cube_tri_count(cube: Cube)
    ensures
        cube_tris(cube).len() == 2 * present_faces_from(cube.faces, 0),
        cube_tris(cube).len() <= 12,
{
    lemma_cube_tris_from_len(cube, 0, 0);
    lemma_present_faces_bound(cube.faces, 0);
}

/// The faces present from position `i` on, in the order north, east,
/// south, west, up, down, by their positions.
pub open spec fn present_faces_seq(faces: CubeFaces, i: int) -> Seq<int>
    decreases 6 - i,
{
    if i >= 6 {
        Seq::empty()
    } else {
        let rest = present_faces_seq(faces, i + 1);
        if spec_face_at(faces, i) is Some {
            seq![i] + rest
        } else {
            rest
        }
    }
}

proof fn lemma_cube_tris_from_indexed(cube: Cube, f: int)
    requires
        0 <= f <= 6,
    ensures
        cube_tris_from(cube, f, 0).len() == 2 * present_faces_seq(cube.faces, f).len(),
        forall|k: int|
            0 <= k < 2 * present_faces_seq(cube.faces, f).len() ==> #[trigger] cube_tris_from(
                cube,
                f,
                0,
            )[k] == spec_tri_for_face(cube, present_faces_seq(cube.faces, f)[k / 2], k % 2).unwrap(),
    decreases 6 - f,
{
    if f < 6 {
        lemma_cube_tris_from_indexed(cube, f + 1);
        let rest = cube_tris_from(cube, f + 1, 0);
        let rp = present_faces_seq(cube.faces, f + 1);
        assert(cube_tris_from(cube, f, 2) == rest);
        let all = cube_tris_from(cube, f, 0);
        let p = present_faces_seq(cube.faces, f);
        if spec_face_at(cube.faces, f) is Some {
            let t0 = spec_tri_for_face(cube, f, 0).unwrap();
            let t1 = spec_tri_for_face(cube, f, 1).unwrap();
            assert(cube_tris_from(cube, f, 1) == seq![t1] + rest);
            assert(all == seq![t0] + (seq![t1] + rest));
            assert(p == seq![f] + rp);
            assert forall|k: int| 0 <= k < 2 * p.len() implies #[trigger] all[k] == spec_tri_for_face(
                cube,
                p[k / 2],
                k % 2,
            ).unwrap() by {
                if k >= 2 {
                    assert(all[k] == rest[k - 2]);
                    assert((k - 2) / 2 == k / 2 - 1);
                    assert((k - 2) % 2 == k % 2);
                    assert(p[k / 2] == rp[k / 2 - 1]);
                }
            }
        } else {
            assert(cube_tris_from(cube, f, 1) == rest);
            assert(all == rest);
            assert(p == rp);
        }
    }
}

/// A cube yields, for each present face in the order north, east, south,
/// west, up, down, that face's first and then its second triangle: the
/// `k`-th triangle is triangle `k % 2` of the `(k / 2)`-th present face.
pub proof fn lemma_cube_tri_order(cube: Cube)
    ensures
        cube_tris(cube).len() == 2 * present_faces_seq(cube.faces, 0).len(),
        forall|k: int|
            0 <= k < cube_tris(cube).len() ==> #[trigger] cube_tris(cube)[k] == spec_tri_for_face(
                cube,
                present_faces_seq(cube.faces, 0)[k / 2],
                k % 2,
            ).unwrap(),
{
    lemma_cube_tris_from_indexed(cube, 0);
}

/// Every triangle of a face sits on that face: its normal is the face's
/// outward axis, its corners lie on that side of the cube and wind
/// counter-clockwise about the normal; it carries the face's texture.
pub proof fn lemma_tri_for_face_placed(cube: Cube, face: int, tri: int)
    requires
        0 <= face < 6,
        0 <= tri < 2,
        spec_face_at(cube.faces, face) is Some,
    ensures
        spec_tri_for_face(cube, face, tri) is Some,
        spec_tri_for_face(cube, face, tri).unwrap().face == face,
        spec_tri_for_face(cube, face, tri).unwrap().texture == spec_face_at(cube.faces, face).unwrap().texture,
        cube_tri_placed(spec_tri_for_face(cube, face, tri).unwrap()),
{
    let t = spec_tri_for_face(cube, face, tri).unwrap();
    lemma_cube_face_geometry(face, tri);
    let q = spec_face_quad(face);
    let (a, b, c) = spec_quad_tri(tri);
    assert(t.corners[0] == q[a] && t.corners[1] == q[b] && t.corners[2] == q[c]);
    assert(normal_axis(t.normal) == face_axis(face));
    assert(corners_facing(t.corners[0], t.corners[1], t.corners[2], face_axis(face)) == face_tri_facing(
        face,
        tri,
    ));
    assert(on_face_plane(face, q[a]) && on_face_plane(face, q[b]) && on_face_plane(face, q[c])) by {
        if tri == 0 {
        } else {
        }
    }
}

/// The two triangles of a face split its quad along one diagonal and map
/// its UV rectangle `[u_min, v_min, u_max, v_max]` onto it: the first runs
/// `(u_min, v_min)`, `(u_max, v_min)`, `(u_max, v_max)`, the second
/// `(u_min, v_min)`, `(u_max, v_max)`, `(u_min, v_max)`; they share the
/// corners that carry `(u_min, v_min)` and `(u_max, v_max)`, and between
/// them use four distinct corners.
pub proof fn lemma_tri_for_face_uvs(cube: Cube, face: int)
    requires
        0 <= face < 6,
        spec_face_at(cube.faces, face) is Some,
    ensures
        ({
            let r = spec_face_at(cube.faces, face).unwrap().uv;
            let t0 = spec_tri_for_face(cube, face, 0).unwrap();
            let t1 = spec_tri_for_face(cube, face, 1).unwrap();
            &&& t0.uvs[0] == [r[0], r[1]]
            &&& t0.uvs[1] == [r[2], r[1]]
            &&& t0.uvs[2] == [r[2], r[3]]
            &&& t1.uvs[0] == [r[0], r[1]]
            &&& t1.uvs[1] == [r[2], r[3]]
            &&& t1.uvs[2] == [r[0], r[3]]
            &&& t1.corners[0] == t0.corners[0]
            &&& t1.corners[1] == t0.corners[2]
            &&& t0.corners[0] != t0.corners[1]
            &&& t0.corners[0] != t0.corners[2]
            &&& t0.corners[1] != t0.corners[2]
            &&& t1.corners[2] != t0.corners[0]
            &&& t1.corners[2] != t0.corners[1]
            &&& t1.corners[2] != t0.corners[2]
        }),
{
    let q = spec_face_quad(face);
    if face == 0 {
        assert(q[0] == 3 && q[1] == 2 && q[2] == 1 && q[3] == 0);
    } else if face == 1 {
        assert(q[0] == 2 && q[1] == 6 && q[2] == 5 && q[3] == 1);
    } else if face == 2 {
        assert(q[0] == 4 && q[1] == 5 && q[2] == 6 && q[3] == 7);
    } else if face == 3 {
        assert(q[0] == 0 && q[1] == 4 && q[2] == 7 && q[3] == 3);
    } else if face == 4 {
        assert(q[0] == 3 && q[1] == 7 && q[2] == 6 && q[3] == 2);
    } else {
        assert(q[0] == 0 && q[1] == 1 && q[2] == 5 && q[3] == 4);
    }
}

/// Every triangle a cube yields sits on its face (see
/// [`lemma_tri_for_face_placed`]), and its face is present.
pub proof fn lemma_cube_tris_placed(cube: Cube)
    ensures
        forall|k: int|
            0 <= k < cube_tris(cube).len() ==> {
                &&& cube_tri_placed(#[trigger] cube_tris(cube)[k])
                &&& spec_face_at(cube.faces, cube_tris(cube)[k].face as int) is Some
            },
{
    lemma_cube_tri_order(cube);
    lemma_present_faces_members(cube.faces, 0);
    assert forall|k: int| 0 <= k < cube_tris(cube).len() implies {
        &&& cube_tri_placed(#[trigger] cube_tris(cube)[k])
        &&& spec_face_at(cube.faces, cube_tris(cube)[k].face as int) is Some
    } by {
        let p = present_faces_seq(cube.faces, 0);
        let f = p[k / 2];
        lemma_tri_for_face_placed(cube, f, k % 2);
    }
}

proof fn lemma_present_faces_members(faces: CubeFaces, i: int)
    requires
        0 <= i <= 6,
    ensures
        forall|k: int|
            0 <= k < present_faces_seq(faces, i).len() ==> {
                let f = #[trigger] present_faces_seq(faces, i)[k];
                &&& i <= f < 6
                &&& spec_face_at(faces, f) is Some
            },
    decreases 6 - i,
{
    if i < 6 {
        lemma_present_faces_members(faces, i + 1);
    }
}

impl Cube {
    fn face_at(&self, face_idx: usize) -> (r: Option<&CubeFace>)
        ensures
            match r {
                Some(f) => spec_face_at(self.faces, face_idx as int) == Some(*f),
                None => spec_face_at(self.faces, face_idx as int) is None,
            },
    {
        match face_idx {
            0 => self.faces.north.as_ref(),
            1 => self.faces.east.as_ref(),
            2 => self.faces.south.as_ref(),
            3 => self.faces.west.as_ref(),
            4 => self.faces.up.as_ref(),
            5 => self.faces.down.as_ref(),
            _ => None,
        }
    }

    /// Triangle `tri_idx` of face `face_idx` (north, east, south, west, up,
    /// down), or `None` when that face is absent or the index is out of range.
    pub fn tri_for_face(&self, face_idx: usize, tri_idx: usize) -> (r: Option<CubeTri>)
        ensures
            r == spec_tri_for_face(*self, face_idx as int, tri_idx as int),
    {
        let face = match self.face_at(face_idx) {
            Some(f) => f,
            None => return None,
        };
        let quad: [usize; 4] = if face_idx == 0 {
            [3, 2, 1, 0]
        } else if face_idx == 1 {
            [2, 6, 5, 1]
        } else if face_idx == 2 {
            [4, 5, 6, 7]
        } else if face_idx == 3 {
            [0, 4, 7, 3]
        } else if face_idx == 4 {
            [3, 7, 6, 2]
        } else {
            [0, 1, 5, 4]
        };
        let normal: Vec3 = if face_idx == 0 {
            [0, 0, F32_NEG_ONE]
        } else if face_idx == 1 {
            [F32_ONE, 0, 0]
        } else if face_idx == 2 {
            [0, 0, F32_ONE]
        } else if face_idx == 3 {
            [F32_NEG_ONE, 0, 0]
        } else if face_idx == 4 {
            [0, F32_ONE, 0]
        } else {
            [0, F32_NEG_ONE, 0]
        };
        let u_min = face.uv[0];
        let v_min = face.uv[1];
        let u_max = face.uv[2];
        let v_max = face.uv[3];
        let uv_corners: [Vec2; 4] = [[u_min, v_min], [u_max, v_min], [u_max, v_max], [u_min, v_max]];
        let texture = face.texture;
        if tri_idx == 0 {
            Some(
                CubeTri {
                    face: face_idx,
                    corners: [quad[0], quad[1], quad[2]],
                    uvs: [uv_corners[0], uv_corners[1], uv_corners[2]],
                    normal,
                    texture,
                },
            )
        } else {
            Some(
                CubeTri {
                    face: face_idx,
                    corners: [quad[0], quad[2], quad[3]],
                    uvs: [uv_corners[0], uv_corners[2], uv_corners[3]],
                    normal,
                    texture,
                },
            )
        }
    }

    /// Lazy iterator over the triangles of this cube.
    pub fn iter_tris(&self) -> (r: CubeTriIter<'_>)
        ensures
            r.remaining() == cube_tris(*self),
    {
        CubeTriIter { cube: self, face_idx: 0, tri_idx: 0 }
    }
}

/// Iterator over the triangles of a [`Cube`]: two per present face.
pub struct CubeTriIter<'a> {
    cube: &'a Cube,
    face_idx: usize,
    tri_idx: usize,
}

impl<'a> CubeTriIter<'a> {
    #[verifier::type_invariant]
    spec fn inv(self) -> bool {
        self.face_idx <= 6 && self.tri_idx < 2
    }

    /// The triangles this iterator has yet to yield.
    pub closed spec fn remaining(self) -> Seq<CubeTri> {
        cube_tris_from(*self.cube, self.face_idx as int, self.tri_idx as int)
    }

    /// Yields the next triangle, or `None` when all have been yielded.
    pub fn next(&mut self) -> (r: Option<CubeTri>)
        ensures
            match r {
                Some(t) => {
                    &&& old(self).remaining().len() > 0
                    &&& t == old(self).remaining()[0]
                    &&& final(self).remaining() == old(self).remaining().drop_first()
                },
                None => old(self).remaining().len() == 0 && final(self).remaining().len() == 0,
            },
    {
        proof {
            use_type_invariant(&*self);
        }
        let cube = self.cube;
        let mut f = self.face_idx;
        let mut t = self.tri_idx;
        let ghost start = cube_tris_from(*cube, f as int, t as int);
        while f < 6
            invariant
                f <= 6,
                t < 2,
                cube_tris_from(*cube, f as int, t as int) == start,
                start == old(self).remaining(),
            decreases 6 - f, 2 - t,
        {
            let tri = cube.tri_for_face(f, t);
            let ghost prev_f = f;
            let ghost prev_t = t;
            t += 1;
            if t >= 2 {
                t = 0;
                f += 1;
            }
            assert(cube_tris_from(*cube, prev_f as int, (prev_t + 1) as int) == cube_tris_from(
                *cube,
                f as int,
                t as int,
            ));
            if tri.is_some() {
                let ghost rest = cube_tris_from(*cube, f as int, t as int);
                assert(start == seq![tri.unwrap()] + rest);
                assert((seq![tri.unwrap()] + rest).drop_first() =~= rest);
                *self = CubeTriIter { cube, face_idx: f, tri_idx: t };
                return tri;
            }
        }
        *self = CubeTriIter { cube, face_idx: f, tri_idx: t };
        None
    }
}


// ---------------------------------------------------------------------------
// Mesh triangulation
// ---------------------------------------------------------------------------

/// One triangle of a mesh face, before any floating-point work: its three
/// vertex positions and UVs, the face's first three vertex positions (from
/// which the face normal is computed), and the face's texture.
#[derive(Clone, Copy, Debug)]
pub struct MeshTri {
    pub positions: [Vec3; 3],
    pub uvs: [Vec2; 3],
    pub normal_basis: [Vec3; 3],
    pub texture: Option<u32>,
}

/// Every vertex ID of `face` names a vertex of `mesh`.
pub open spec fn face_resolved(mesh: Mesh, face: MeshFace) -> bool {
    forall|k: int|
        0 <= k < face.vertices@.len() ==> (#[trigger] lookup(mesh.vertices@, face.vertices@[k]@)) is Some
}

/// The position of the `k`-th vertex of `face`.
pub open spec fn vertex_pos(mesh: Mesh, face: MeshFace, k: int) -> Vec3 {
    lookup(mesh.vertices@, face.vertices@[k]@).unwrap()
}

/// The UV of the `k`-th vertex of `face`, `(0.0, 0.0)` when the face has
/// none for it.
pub open spec fn vertex_uv(face: MeshFace, k: int) -> Vec2 {
    match lookup(face.uv@, face.vertices@[k]@) {
        Some(uv) => uv,
        None => [0u32, 0u32],
    }
}

/// The triangle through the face's vertices `a`, `b`, `c`.
pub open spec fn spec_mesh_tri(mesh: Mesh, face: MeshFace, a: int, b: int, c: int) -> MeshTri {
    MeshTri {
        positions: [vertex_pos(mesh, face, a), vertex_pos(mesh, face, b), vertex_pos(mesh, face, c)],
        uvs: [vertex_uv(face, a), vertex_uv(face, b), vertex_uv(face, c)],
        normal_basis: [vertex_pos(mesh, face, 0), vertex_pos(mesh, face, 1), vertex_pos(mesh, face, 2)],
        texture: face.texture,
    }
}

/// The triangles of one face: a triangle as it is, a quad fanned into
/// `(0, 1, 2)` and `(0, 2, 3)`; a face of another size, or one naming a
/// vertex the mesh lacks, gives none.
pub open spec fn face_tris(mesh: Mesh, face: MeshFace) -> Seq<MeshTri> {
    let n = face.vertices@.len();
    if (n == 3 || n == 4) && face_resolved(mesh, face) {
        if n == 3 {
            seq![spec_mesh_tri(mesh, face, 0, 1, 2)]
        } else {
            seq![spec_mesh_tri(mesh, face, 0, 1, 2), spec_mesh_tri(mesh, face, 0, 2, 3)]
        }
    } else {
        Seq::empty()
    }
}

/// A triangle face yields one triangle and a quad two; a face naming a
/// vertex the mesh lacks, or with fewer than three or more than four
/// vertices, yields none.
pub proof fn lemma_face_tri_count(mesh: Mesh, face: MeshFace)
    ensures
        face_tris(mesh, face).len() == if face_resolved(mesh, face) && (face.vertices@.len() == 3
            || face.vertices@.len() == 4) {
            face.vertices@.len() - 2
        } else {
            0
        },
{
}

/// A face is fanned from its first vertex: its `j`-th triangle runs through
/// the face's vertices `0`, `j + 1` and `j + 2` in face order, with their
/// positions and UVs, and carries the face's texture. Every triangle of the
/// face takes its normal basis from the face's first three vertices in face
/// order, so the normal follows the face's own winding; for a triangle face
/// the basis is the triangle itself.
pub proof fn lemma_face_tris_fan(mesh: Mesh, face: MeshFace)
    requires
        face_resolved(mesh, face),
        face.vertices@.len() == 3 || face.vertices@.len() == 4,
    ensures
        face_tris(mesh, face).len() == face.vertices@.len() - 2,
        forall|j: int|
            #![trigger face_tris(mesh, face)[j]]
            0 <= j < face.vertices@.len() - 2 ==> {
                let t = face_tris(mesh, face)[j];
                &&& t.positions[0] == lookup(mesh.vertices@, face.vertices@[0]@).unwrap()
                &&& t.positions[1] == lookup(mesh.vertices@, face.vertices@[j + 1]@).unwrap()
                &&& t.positions[2] == lookup(mesh.vertices@, face.vertices@[j + 2]@).unwrap()
                &&& t.uvs[0] == vertex_uv(face, 0)
                &&& t.uvs[1] == vertex_uv(face, j + 1)
                &&& t.uvs[2] == vertex_uv(face, j + 2)
                &&& t.normal_basis[0] == lookup(mesh.vertices@, face.vertices@[0]@).unwrap()
                &&& t.normal_basis[1] == lookup(mesh.vertices@, face.vertices@[1]@).unwrap()
                &&& t.normal_basis[2] == lookup(mesh.vertices@, face.vertices@[2]@).unwrap()
                &&& t.texture == face.texture
            },
        face.vertices@.len() == 3 ==> {
            let t = face_tris(mesh, face)[0];
            &&& t.normal_basis[0] == t.positions[0]
            &&& t.normal_basis[1] == t.positions[1]
            &&& t.normal_basis[2] == t.positions[2]
        },
{
}

/// The triangles of the faces of `mesh` from position `k` onwards, face by
/// face in the order the faces are held.
pub open spec fn mesh_tris_from(mesh: Mesh, k: int) -> Seq<MeshTri>
    decreases mesh.faces@.len() - k,
{
    if 0 <= k < mesh.faces@.len() {
        face_tris(mesh, mesh.faces@[k].1) + mesh_tris_from(mesh, k + 1)
    } else {
        Seq::empty()
    }
}

/// All triangles of a mesh.
pub open spec fn mesh_tris(mesh: Mesh) -> Seq<MeshTri> {
    mesh_tris_from(mesh, 0)
}

impl Mesh {
    /// The positions of the face's vertices, or `None` when one of its
    /// vertex IDs names no vertex of this mesh.
    pub fn face_positions(&self, face: &MeshFace) -> (r: Option<Vec<Vec3>>)
        ensures
            match r {
                Some(p) => {
                    &&& face_resolved(*self, *face)
                    &&& p@.len() == face.vertices@.len()
                    &&& forall|k: int| 0 <= k < p@.len() ==> p@[k] == vertex_pos(*self, *face, k)
                },
                None => !face_resolved(*self, *face),
            },
    {
        let mut out: Vec<Vec3> = Vec::new();
        let n = face.vertices.len();
        for i in 0..n
            invariant
                n == face.vertices@.len(),
                out@.len() == i,
                forall|k: int| 0 <= k < i ==> (#[trigger] lookup(self.vertices@, face.vertices@[k]@)) is Some,
                forall|k: int| 0 <= k < i ==> out@[k] == vertex_pos(*self, *face, k),
        {
            match self.vertices.get(&face.vertices[i]) {
                Some(v) => out.push(*v),
                None => {
                    assert(lookup(self.vertices@, face.vertices@[i as int]@) is None);
                    return None;
                },
            }
        }
        Some(out)
    }

    /// The UVs of the face's vertices, `(0.0, 0.0)` for a vertex the face
    /// gives none for.
    pub fn face_uvs(face: &MeshFace) -> (r: Vec<Vec2>)
        ensures
            r@.len() == face.vertices@.len(),
            forall|k: int| 0 <= k < r@.len() ==> r@[k] == vertex_uv(*face, k),
    {
        let mut out: Vec<Vec2> = Vec::new();
        let n = face.vertices.len();
        for i in 0..n
            invariant
                n == face.vertices@.len(),
                out@.len() == i,
                forall|k: int| 0 <= k < i ==> out@[k] == vertex_uv(*face, k),
        {
            match face.uv.get(&face.vertices[i]) {
                Some(uv) => out.push(*uv),
                None => out.push([0u32, 0u32]),
            }
        }
        out
    }

    /// Lazy iterator over the triangles of this mesh.
    pub fn iter_tris(&self) -> (r: MeshTriIter<'_>)
        ensures
            r.remaining() == mesh_tris(*self),
    {
        let r = MeshTriIter { mesh: self, key_idx: 0, tri_rem: 0 };
        assert(r.remaining() =~= mesh_tris(*self));
        r
    }
}

/// The triangles of the face before position `key_idx` that are still to
/// come when `tri_rem` of them remain.
pub open spec fn pending_tris(mesh: Mesh, key_idx: int, tri_rem: int) -> Seq<MeshTri> {
    let ft = face_tris(mesh, mesh.faces@[key_idx - 1].1);
    if tri_rem == 0 || ft.len() == 0 {
        Seq::empty()
    } else {
        ft.skip(ft.len() - tri_rem)
    }
}

/// The state of a mesh iterator is consistent: `tri_rem` triangles are
/// left of the face before `key_idx`, as many as its size allows.
pub open spec fn mesh_iter_state(mesh: Mesh, key_idx: int, tri_rem: int) -> bool {
    &&& 0 <= key_idx <= mesh.faces@.len()
    &&& 0 <= tri_rem <= 2
    &&& tri_rem > 0 ==> key_idx > 0 && {
        let n = mesh.faces@[key_idx - 1].1.vertices@.len();
        (n == 3 && tri_rem == 1) || n == 4
    }
}

/// Iterator over the triangles of a [`Mesh`], face by face.
pub struct MeshTriIter<'a> {
    mesh: &'a Mesh,
    key_idx: usize,
    tri_rem: usize,
}

impl<'a> MeshTriIter<'a> {
    #[verifier::type_invariant]
    spec fn inv(self) -> bool {
        mesh_iter_state(*self.mesh, self.key_idx as int, self.tri_rem as int)
    }

    /// The triangles this iterator has yet to yield.
    pub closed spec fn remaining(self) -> Seq<MeshTri> {
        pending_tris(*self.mesh, self.key_idx as int, self.tri_rem as int) + mesh_tris_from(
            *self.mesh,
            self.key_idx as int,
        )
    }

    /// Yields the next triangle, or `None` when all have been yielded.
    #[verifier::rlimit(40)]
    pub fn next(&mut self) -> (r: Option<MeshTri>)
        ensures
            match r {
                Some(t) => {
                    &&& old(self).remaining().len() > 0
                    &&& t == old(self).remaining()[0]
                    &&& final(self).remaining() == old(self).remaining().drop_first()
                },
                None => old(self).remaining().len() == 0 && final(self).remaining().len() == 0,
            },
    {
        proof {
            use_type_invariant(&*self);
        }
        let mesh = self.mesh;
        let mut key_idx = self.key_idx;
        let mut tri_rem = self.tri_rem;
        let ghost start = old(self).remaining();
        loop
            invariant
                mesh_iter_state(*mesh, key_idx as int, tri_rem as int),
                pending_tris(*mesh, key_idx as int, tri_rem as int) + mesh_tris_from(*mesh, key_idx as int)
                    == start,
                start == old(self).remaining(),
                mesh == old(self).mesh,
            decreases mesh.faces@.len() - key_idx, tri_rem,
        {
            if tri_rem > 0 {
                let face = &mesh.faces.entry(key_idx - 1).1;
                let vcount = face.vertices.len();
                let ghost ft = face_tris(*mesh, *face);
                if vcount < 3 {
                    tri_rem = 0;
                    continue;
                }
                match mesh.face_positions(face) {
                    None => {
                        tri_rem = 0;
                        continue;
                    },
                    Some(pos) => {
                        let uvs = Mesh::face_uvs(face);
                        let (i0, i1, i2) = if vcount == 3 {
                            (0usize, 1usize, 2usize)
                        } else if tri_rem == 2 {
                            (0usize, 1usize, 2usize)
                        } else {
                            (0usize, 2usize, 3usize)
                        };
                        let ghost old_pending = pending_tris(*mesh, key_idx as int, tri_rem as int);
                        let ghost rest = mesh_tris_from(*mesh, key_idx as int);
                        tri_rem -= 1;
                        let tri = MeshTri {
                            positions: [pos[i0], pos[i1], pos[i2]],
                            uvs: [uvs[i0], uvs[i1], uvs[i2]],
                            normal_basis: [pos[0], pos[1], pos[2]],
                            texture: face.texture,
                        };
                        proof {
                            assert(tri == old_pending[0]);
                            assert(pending_tris(*mesh, key_idx as int, tri_rem as int)
                                =~= old_pending.drop_first());
                            assert((old_pending + rest).drop_first() =~= old_pending.drop_first()
                                + rest);
                        }
                        *self = MeshTriIter { mesh, key_idx, tri_rem };
                        return Some(tri);
                    },
                }
            }
            if key_idx >= mesh.faces.len() {
                *self = MeshTriIter { mesh, key_idx, tri_rem };
                return None;
            }
            let vcount = mesh.faces.entry(key_idx).1.vertices.len();
            key_idx += 1;
            tri_rem = if vcount == 3 {
                1
            } else if vcount == 4 {
                2
            } else {
                0
            };
            proof {
                let ft = face_tris(*mesh, mesh.faces@[key_idx - 1].1);
                assert(pending_tris(*mesh, key_idx as int, tri_rem as int) =~= ft);
            }
        }
    }
}


// ---------------------------------------------------------------------------
// Element triangulation
// ---------------------------------------------------------------------------

/// A triangle of an element, before any floating-point work.
#[derive(Clone, Copy, Debug)]
pub enum TriPlan {
    Cube(CubeTri),
    Mesh(MeshTri),
}

/// The UUID of an element.
pub open spec fn spec_element_uuid(e: Element) -> Uuid {
    match e {
        Element::Cube(c) => c.uuid,
        Element::Mesh(m) => m.uuid,
    }
}

/// The triangles of an element, in the order its iterator yields them.
pub open spec fn element_tris(e: Element) -> Seq<TriPlan> {
    match e {
        Element::Cube(c) => cube_tris(c).map_values(|t: CubeTri| TriPlan::Cube(t)),
        Element::Mesh(m) => mesh_tris(m).map_values(|t: MeshTri| TriPlan::Mesh(t)),
    }
}

impl Element {
    /// The element's UUID.
    pub fn uuid(&self) -> (r: &Uuid)
        ensures
            *r == spec_element_uuid(*self),
    {
        match self {
            Element::Cube(c) => &c.uuid,
            Element::Mesh(m) => &m.uuid,
        }
    }

    /// Triangulates this element lazily.
    pub fn triangulate(&self) -> (r: TriIter<'_>)
        ensures
            r.remaining() == element_tris(*self),
    {
        match self {
            Element::Cube(c) => TriIter::Cube(c.iter_tris()),
            Element::Mesh(m) => TriIter::Mesh(m.iter_tris()),
        }
    }
}

/// An iterator over the triangles of an [`Element`].
pub enum TriIter<'a> {
    Cube(CubeTriIter<'a>),
    Mesh(MeshTriIter<'a>),
}

impl<'a> TriIter<'a> {
    /// The triangles this iterator has yet to yield.
    pub open spec fn remaining(self) -> Seq<TriPlan> {
        match self {
            TriIter::Cube(i) => i.remaining().map_values(|t: CubeTri| TriPlan::Cube(t)),
            TriIter::Mesh(i) => i.remaining().map_values(|t: MeshTri| TriPlan::Mesh(t)),
        }
    }

    /// Yields the next triangle, or `None` when all have been yielded.
    pub fn next(&mut self) -> (r: Option<TriPlan>)
        ensures
            match r {
                Some(t) => {
                    &&& old(self).remaining().len() > 0
                    &&& t == old(self).remaining()[0]
                    &&& final(self).remaining() == old(self).remaining().drop_first()
                },
                None => old(self).remaining().len() == 0 && final(self).remaining().len() == 0,
            },
    {
        match self {
            TriIter::Cube(inner) => {
                let ghost before = inner.remaining();
                match inner.next() {
                    Some(t) => {
                        assert(before.drop_first().map_values(|t: CubeTri| TriPlan::Cube(t))
                            =~= before.map_values(|t: CubeTri| TriPlan::Cube(t)).drop_first());
                        Some(TriPlan::Cube(t))
                    },
                    None => None,
                }
            },
            TriIter::Mesh(inner) => {
                let ghost before = inner.remaining();
                match inner.next() {
                    Some(t) => {
                        assert(before.drop_first().map_values(|t: MeshTri| TriPlan::Mesh(t))
                            =~= before.map_values(|t: MeshTri| TriPlan::Mesh(t)).drop_first());
                        Some(TriPlan::Mesh(t))
                    },
                    None => None,
                }
            },
        }
    }
}

} // verus!
