use bbmodel::prelude::{
    cube_corner, lookup_entry, BBModel, Cube, CubeFace, CubeFaces, Element, KeyedList, Mesh, MeshFace,
    TriPlan, Uuid, F32_NEG_ONE, F32_ONE,
};

fn face(uv: [u32; 4], texture: Option<u32>) -> Option<CubeFace> {
    Some(CubeFace { uv, texture })
}

fn cube_with(faces: CubeFaces) -> Cube {
    Cube {
        name: None,
        uuid: Uuid(1),
        from: [0; 3],
        to: [0; 3],
        origin: [0; 3],
        rotation: [0; 3],
        color: 0,
        export: true,
        visibility: true,
        locked: false,
        box_uv: false,
        rescale: false,
        autouv: 0,
        mirror_uv: false,
        faces,
    }
}

fn all_faces() -> CubeFaces {
    CubeFaces {
        north: face([1, 2, 3, 4], Some(0)),
        east: face([5, 6, 7, 8], Some(0)),
        south: face([9, 10, 11, 12], Some(1)),
        west: face([13, 14, 15, 16], None),
        up: face([17, 18, 19, 20], Some(2)),
        down: face([21, 22, 23, 24], Some(3)),
    }
}

fn key(s: &str) -> String {
    s.to_string()
}

#[test]
fn full_cube_yields_twelve_triangles() {
    let c = cube_with(all_faces());
    let mut it = c.iter_tris();
    let mut tris = Vec::new();
    while let Some(t) = it.next() {
        tris.push(t);
    }
    assert_eq!(tris.len(), 12);
    assert!(it.next().is_none());
    let faces: Vec<usize> = tris.iter().map(|t| t.face).collect();
    assert_eq!(faces, vec![0, 0, 1, 1, 2, 2, 3, 3, 4, 4, 5, 5]);
}

#[test]
fn cube_face_triangles_follow_quad_and_uv_corners() {
    let mut faces = CubeFaces::default();
    faces.north = face([1, 2, 3, 4], Some(7));
    let c = cube_with(faces);
    let first = c.tri_for_face(0, 0).unwrap();
    let second = c.tri_for_face(0, 1).unwrap();
    // north quad is corners [3, 2, 1, 0]
    assert_eq!(first.corners, [3, 2, 1]);
    assert_eq!(second.corners, [3, 1, 0]);
    // uv corners: (u_min, v_min), (u_max, v_min), (u_max, v_max), (u_min, v_max)
    assert_eq!(first.uvs, [[1, 2], [3, 2], [3, 4]]);
    assert_eq!(second.uvs, [[1, 2], [3, 4], [1, 4]]);
    assert_eq!(first.normal, [0, 0, F32_NEG_ONE]);
    assert_eq!(first.normal, [0.0f32.to_bits(), 0.0f32.to_bits(), (-1.0f32).to_bits()]);
    assert_eq!(first.texture, Some(7));
    assert!(c.tri_for_face(1, 0).is_none());
    assert!(c.tri_for_face(6, 0).is_none());
}

#[test]
fn cube_skips_absent_faces() {
    let mut faces = CubeFaces::default();
    faces.up = face([0, 0, 16, 16], None);
    faces.east = face([0, 0, 8, 8], Some(1));
    let c = cube_with(faces);
    let mut it = c.iter_tris();
    let mut got = Vec::new();
    while let Some(t) = it.next() {
        got.push((t.face, t.corners, t.normal));
    }
    assert_eq!(
        got,
        vec![
            (1, [2, 6, 5], [F32_ONE, 0, 0]),
            (1, [2, 5, 1], [F32_ONE, 0, 0]),
            (4, [3, 7, 6], [0, F32_ONE, 0]),
            (4, [3, 6, 2], [0, F32_ONE, 0]),
        ]
    );
}

#[test]
fn empty_cube_yields_nothing() {
    let c = cube_with(CubeFaces::default());
    assert!(c.iter_tris().next().is_none());
}

#[test]
fn unit_cube_corners() {
    assert_eq!(cube_corner(0), [0, 0, 0]);
    assert_eq!(cube_corner(2), [1, 1, 0]);
    assert_eq!(cube_corner(6), [1, 1, 1]);
    assert_eq!(cube_corner(7), [0, 1, 1]);
}

fn keyed<V>(pairs: Vec<(&str, V)>) -> KeyedList<V> {
    let mut k = KeyedList::new();
    for (name, v) in pairs {
        k.insert(name.to_string(), v);
    }
    k
}

fn quad_face() -> MeshFace {
    MeshFace {
        uv: keyed(vec![("a", [10, 11]), ("c", [30, 31])]),
        vertices: vec![key("a"), key("b"), key("c"), key("d")],
        texture: Some(2),
    }
}

fn quad_mesh() -> Mesh {
    let mut m = Mesh::default();
    m.vertices = keyed(vec![
        ("a", [1, 0, 0]),
        ("b", [2, 0, 0]),
        ("c", [3, 0, 0]),
        ("d", [4, 0, 0]),
    ]);
    m.faces = keyed(vec![("f0", quad_face())]);
    m
}

#[test]
fn quad_is_fanned_into_two_triangles() {
    let m = quad_mesh();
    let mut it = m.iter_tris();
    let t0 = it.next().unwrap();
    let t1 = it.next().unwrap();
    assert!(it.next().is_none());
    assert_eq!(t0.positions, [[1, 0, 0], [2, 0, 0], [3, 0, 0]]);
    assert_eq!(t1.positions, [[1, 0, 0], [3, 0, 0], [4, 0, 0]]);
    // a vertex without a UV gets (0, 0)
    assert_eq!(t0.uvs, [[10, 11], [0, 0], [30, 31]]);
    assert_eq!(t1.uvs, [[10, 11], [30, 31], [0, 0]]);
    assert_eq!(t0.normal_basis, [[1, 0, 0], [2, 0, 0], [3, 0, 0]]);
    assert_eq!(t1.normal_basis, t0.normal_basis);
    assert_eq!(t1.texture, Some(2));
}

#[test]
fn faces_of_other_sizes_or_with_missing_vertices_are_skipped() {
    let mut m = quad_mesh();
    let no_uv = || KeyedList::new();
    m.faces = keyed(vec![
        (
            "pentagon",
            MeshFace {
                uv: no_uv(),
                vertices: vec![key("a"), key("b"), key("c"), key("d"), key("a")],
                texture: None,
            },
        ),
        (
            "missing",
            MeshFace { uv: no_uv(), vertices: vec![key("a"), key("b"), key("z")], texture: None },
        ),
        ("line", MeshFace { uv: no_uv(), vertices: vec![key("a"), key("b")], texture: None }),
        ("f0", quad_face()),
        (
            "tri",
            MeshFace { uv: no_uv(), vertices: vec![key("d"), key("c"), key("b")], texture: Some(5) },
        ),
    ]);
    let mut it = m.iter_tris();
    let mut got = Vec::new();
    while let Some(t) = it.next() {
        got.push((t.positions, t.texture));
    }
    assert_eq!(
        got,
        vec![
            ([[1, 0, 0], [2, 0, 0], [3, 0, 0]], Some(2)),
            ([[1, 0, 0], [3, 0, 0], [4, 0, 0]], Some(2)),
            ([[4, 0, 0], [3, 0, 0], [2, 0, 0]], Some(5)),
        ]
    );
}

#[test]
fn keyed_list_holds_each_key_once() {
    let mut k = KeyedList::new();
    k.insert(key("x"), 1u32);
    k.insert(key("y"), 2u32);
    k.insert(key("x"), 3u32);
    assert_eq!(k.len(), 2);
    assert_eq!(k.get(&key("x")), Some(&3));
    assert_eq!(k.get(&key("y")), Some(&2));
    assert_eq!(k.get(&key("w")), None);
    // a replaced value keeps its key's place
    assert_eq!(k.entry(0), &(key("x"), 3));
    assert_eq!(k.entries(), &vec![(key("x"), 3), (key("y"), 2)]);
    let copy = k.clone();
    assert_eq!(copy.entries(), k.entries());
}

#[test]
fn lookup_finds_first_entry() {
    let entries = vec![(key("x"), 1u32), (key("y"), 2u32), (key("x"), 3u32)];
    assert_eq!(lookup_entry(&entries, &key("x")), Some(&1));
    assert_eq!(lookup_entry(&entries, &key("y")), Some(&2));
    assert_eq!(lookup_entry(&entries, &key("w")), None);
}

#[test]
fn model_triangles_concatenate_elements() {
    let mut faces = CubeFaces::default();
    faces.south = face([0, 0, 1, 1], Some(4));
    let mut model = BBModel::new();
    model.elements.push(Element::Mesh(quad_mesh()));
    model.elements.push(Element::Cube(cube_with(faces)));
    let tris = model.triangles();
    assert_eq!(tris.len(), 4);
    assert!(matches!(tris[0], TriPlan::Mesh(_)));
    assert!(matches!(tris[1], TriPlan::Mesh(_)));
    match tris[2] {
        TriPlan::Cube(t) => assert_eq!((t.face, t.corners), (2, [4, 5, 6])),
        _ => panic!("expected a cube triangle"),
    }
    let mut per_element = 0;
    for e in &model.elements {
        let mut it = e.triangulate();
        while it.next().is_some() {
            per_element += 1;
        }
    }
    assert_eq!(per_element, tris.len());
}

#[test]
fn every_face_lies_on_its_plane_and_faces_outward() {
    let c = cube_with(all_faces());
    // axis and side of each face: north -Z, east +X, south +Z, west -X, up +Y, down -Y
    let planes: [(usize, u8); 6] = [(2, 0), (0, 1), (2, 1), (0, 0), (1, 1), (1, 0)];
    let axes: [[i32; 3]; 6] = [[0, 0, -1], [1, 0, 0], [0, 0, 1], [-1, 0, 0], [0, 1, 0], [0, -1, 0]];
    for face in 0..6 {
        for tri in 0..2 {
            let t = c.tri_for_face(face, tri).unwrap();
            let p: Vec<[i32; 3]> = t
                .corners
                .iter()
                .map(|&k| {
                    let v = cube_corner(k);
                    [v[0] as i32, v[1] as i32, v[2] as i32]
                })
                .collect();
            for v in &p {
                assert_eq!(v[planes[face].0], planes[face].1 as i32, "face {} tri {}", face, tri);
            }
            let u = [p[1][0] - p[0][0], p[1][1] - p[0][1], p[1][2] - p[0][2]];
            let w = [p[2][0] - p[0][0], p[2][1] - p[0][1], p[2][2] - p[0][2]];
            let cross = [u[1] * w[2] - u[2] * w[1], u[2] * w[0] - u[0] * w[2], u[0] * w[1] - u[1] * w[0]];
            let n = axes[face];
            assert!(cross[0] * n[0] + cross[1] * n[1] + cross[2] * n[2] > 0, "face {} tri {}", face, tri);
        }
    }
    let south = c.tri_for_face(2, 0).unwrap();
    assert_eq!(south.corners, [4, 5, 6]);
    assert_eq!(c.tri_for_face(2, 1).unwrap().corners, [4, 6, 7]);
}
