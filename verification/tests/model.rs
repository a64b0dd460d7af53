use bbmodel::prelude::{
    default_interpolation, default_loop_mode, default_one, default_true, BBModel, Collection,
    Cube, CubeFace, CubeFaces, DisplaySlot, Element, Group, Interpolation, KeyedList, LoopMode, Mesh, MeshFace,
    Metadata, ModelFormat, Texture, Uuid,
};

fn bits3(v: [f32; 3]) -> [u32; 3] {
    [v[0].to_bits(), v[1].to_bits(), v[2].to_bits()]
}

fn cube(uuid: u128, export: bool, visibility: bool) -> Cube {
    Cube {
        name: None,
        uuid: Uuid(uuid),
        from: bits3([0.0, 0.0, 0.0]),
        to: bits3([1.0, 1.0, 1.0]),
        origin: bits3([0.0, 0.0, 0.0]),
        rotation: bits3([0.0, 0.0, 0.0]),
        color: 0,
        export,
        visibility,
        locked: false,
        box_uv: false,
        rescale: false,
        autouv: 0,
        mirror_uv: false,
        faces: CubeFaces::default(),
    }
}

fn mesh(uuid: u128, export: bool, visibility: bool) -> Mesh {
    let mut m = Mesh::default();
    m.uuid = Uuid(uuid);
    m.export = export;
    m.visibility = visibility;
    m
}

fn group(uuid: u128, name: &str) -> Group {
    Group {
        name: Some(name.to_string()),
        uuid: Uuid(uuid),
        origin: [0; 3],
        rotation: [0; 3],
        color: 0,
        export: true,
        mirror_uv: false,
        is_open: false,
        locked: false,
        visibility: true,
        autouv: 0,
        nbt: None,
    }
}

#[test]
fn defaults_of_absent_fields() {
    assert!(default_true());
    assert!(matches!(default_loop_mode(), LoopMode::Loop));
    assert_eq!(default_one(), 1.0f32.to_bits());
    assert!(matches!(default_interpolation(), Interpolation::Linear));
}

#[test]
fn metadata_default_is_version_five() {
    let m = Metadata::default();
    assert_eq!(m.format_version, "5.0");
    assert!(matches!(m.model_format, ModelFormat::Free));
    assert!(!m.box_uv);
    assert!(m.backup.is_none());
}

#[test]
fn new_model_is_empty() {
    let m = BBModel::new();
    assert_eq!(m.meta.format_version, "5.0");
    assert!(m.name.is_none());
    assert!(m.resolution.is_none());
    assert!(m.elements.is_empty());
    assert!(m.groups.is_empty());
    assert!(m.outliner.is_empty());
    assert!(m.textures.is_empty());
    assert!(m.animations.is_empty());
    assert!(m.animation_controllers.is_empty());
    assert!(m.display.is_none());
    assert!(m.collections.is_empty());
}

#[test]
fn texture_default_is_empty() {
    let t = Texture::default();
    assert!(t.uuid.is_none() && t.id.is_none() && t.source.is_none());
    assert!(!t.visible && !t.internal && !t.saved && !t.particle);
}

#[test]
fn add_mesh_appends_and_chains() {
    let mut m = BBModel::new();
    m.add_mesh(mesh(1, true, true)).add_mesh(mesh(2, true, true));
    assert_eq!(m.elements.len(), 2);
    assert_eq!(*m.elements[0].uuid(), Uuid(1));
    assert_eq!(*m.elements[1].uuid(), Uuid(2));
}

#[test]
fn display_slot_and_mesh_defaults() {
    let d = DisplaySlot::default();
    assert_eq!(d.rotation, [0, 0, 0]);
    assert_eq!(d.translation, [0, 0, 0]);
    assert_eq!(d.scale, [0, 0, 0]);
    let m = Mesh::default();
    assert_eq!(m.uuid, Uuid(0));
    assert!(!m.export && !m.visibility);
    assert!(m.vertices.len() == 0 && m.faces.len() == 0);
}

#[test]
fn add_mesh_appends_its_triangles() {
    let mut quad = Mesh::default();
    for (name, p) in [("a", [0, 0, 0]), ("b", [1, 0, 0]), ("c", [1, 1, 0]), ("d", [0, 1, 0])] {
        quad.vertices.insert(name.to_string(), p);
    }
    quad.faces.insert(
        "f".to_string(),
        MeshFace {
            uv: KeyedList::new(),
            vertices: vec!["a".to_string(), "b".to_string(), "c".to_string(), "d".to_string()],
            texture: None,
        },
    );
    let mut m = BBModel::new();
    m.elements.push(Element::Cube(cube(1, true, true)));
    let before = m.triangles().len();
    m.add_mesh(quad);
    assert_eq!(m.triangles().len(), before + 2);
}

#[test]
fn cubes_meshes_and_visible_elements() {
    let mut m = BBModel::new();
    m.elements.push(Element::Cube(cube(1, true, true)));
    m.elements.push(Element::Mesh(mesh(2, true, false)));
    m.elements.push(Element::Cube(cube(3, false, true)));
    m.elements.push(Element::Mesh(mesh(4, true, true)));
    let cubes: Vec<u128> = m.cubes().iter().map(|c| c.uuid.0).collect();
    let meshes: Vec<u128> = m.meshes().iter().map(|x| x.uuid.0).collect();
    let visible: Vec<u128> = m.visible_elements().iter().map(|e| e.uuid().0).collect();
    assert_eq!(cubes, vec![1, 3]);
    assert_eq!(meshes, vec![2, 4]);
    assert_eq!(visible, vec![1, 4]);
    assert_eq!(cubes.len() + meshes.len(), m.elements.len());
}

#[test]
fn find_element_returns_first_match() {
    let mut m = BBModel::new();
    m.elements.push(Element::Cube(cube(7, true, true)));
    let mut second = mesh(9, true, true);
    second.name = Some("first nine".to_string());
    m.elements.push(Element::Mesh(second));
    let mut third = mesh(9, true, true);
    third.name = Some("second nine".to_string());
    m.elements.push(Element::Mesh(third));
    match m.find_element(&Uuid(9)) {
        Some(Element::Mesh(found)) => assert_eq!(found.name.as_deref(), Some("first nine")),
        _ => panic!("expected the first mesh with that UUID"),
    }
    assert!(m.find_element(&Uuid(8)).is_none());
}

#[test]
fn find_group_texture_collection() {
    let mut m = BBModel::new();
    m.groups.push(group(1, "a"));
    m.groups.push(group(2, "b"));
    m.groups.push(group(2, "c"));
    assert_eq!(m.find_group(&Uuid(2)).unwrap().name.as_deref(), Some("b"));
    assert!(m.find_group(&Uuid(3)).is_none());

    let mut t0 = Texture::default();
    t0.name = Some("no uuid".to_string());
    let mut t1 = Texture::default();
    t1.uuid = Some(Uuid(5));
    t1.name = Some("five".to_string());
    m.textures.push(t0);
    m.textures.push(t1);
    assert_eq!(m.find_texture(&Uuid(5)).unwrap().name.as_deref(), Some("five"));
    assert!(m.find_texture(&Uuid(0)).is_none());

    m.collections.push(Collection {
        uuid: Uuid(11),
        name: Some("lod".to_string()),
        children: vec![Uuid(1)],
        export_path: None,
    });
    assert_eq!(m.find_collection(&Uuid(11)).unwrap().children, vec![Uuid(1)]);
    assert!(m.find_collection(&Uuid(12)).is_none());
}

#[test]
fn cube_face_and_mesh_face_defaults() {
    let f = CubeFace::default();
    assert_eq!(f.uv, [0, 0, 0, 0]);
    assert!(f.texture.is_none());
    let mf = MeshFace::default();
    assert!(mf.uv.len() == 0 && mf.vertices.is_empty() && mf.texture.is_none());
    let faces = CubeFaces::default();
    assert!(faces.north.is_none() && faces.down.is_none());
}
