use bbmodel::prelude::{
    all_textures_loaded,
    build_sections, contains_subslice, decode_data_uri, default_resolution, plan_texture_load,
    resolution_table, section_resolution, texture_index, texture_keys_of, texture_resolution,
    BBModel, Resolution, Texture, Tri,
};

fn tex_with_id(id: Option<&str>) -> Texture {
    let mut t = Texture::default();
    t.id = id.map(|s| s.to_string());
    t
}

#[test]
fn data_uri_is_decoded() {
    assert_eq!(decode_data_uri("data:image/png;base64,aGVsbG8="), Some(b"hello".to_vec()));
    assert_eq!(decode_data_uri("data:image/png;base64,"), Some(Vec::new()));
    assert_eq!(decode_data_uri(";base64,aGVs"), Some(b"hel".to_vec()));
}

#[test]
fn data_uri_without_comma_or_base64_is_rejected() {
    assert_eq!(decode_data_uri("data:image/png;base64"), None);
    assert_eq!(decode_data_uri("data:image/png,aGVsbG8="), None);
    assert_eq!(decode_data_uri(""), None);
}

#[test]
fn data_uri_with_bad_payload_is_rejected() {
    assert_eq!(decode_data_uri("data:image/png;base64,aGVsbG8"), None);
    assert_eq!(decode_data_uri("data:image/png;base64,aGVs*G8="), None);
    // only the first comma separates the payload
    assert_eq!(decode_data_uri("data:base64,aGVs,bG8="), None);
}

#[test]
fn subslice_search() {
    assert!(contains_subslice(b"image/png;base64", b"base64"));
    assert!(!contains_subslice(b"image/png;base6", b"base64"));
    assert!(contains_subslice(b"abc", b""));
    assert!(!contains_subslice(b"", b"a"));
}

#[test]
fn texture_index_reads_id_or_position() {
    assert_eq!(texture_index(&tex_with_id(Some("3")), 0), 3);
    assert_eq!(texture_index(&tex_with_id(Some("+7")), 0), 7);
    assert_eq!(texture_index(&tex_with_id(Some("007")), 1), 7);
    assert_eq!(texture_index(&tex_with_id(Some("-0")), 4), 4);
    assert_eq!(texture_index(&tex_with_id(Some("x1")), 5), 5);
    assert_eq!(texture_index(&tex_with_id(Some(" 1")), 6), 6);
    assert_eq!(texture_index(&tex_with_id(Some("")), 8), 8);
    assert_eq!(texture_index(&tex_with_id(Some("4294967295")), 0), 4294967295);
    assert_eq!(texture_index(&tex_with_id(Some("4294967296")), 9), 9);
    assert_eq!(texture_index(&tex_with_id(None), 2), 2);
}

#[test]
fn texture_load_prefers_embedded_then_relative_path() {
    let mut t = tex_with_id(Some("1"));
    t.source = Some("data:image/png;base64,aGk=".to_string());
    t.path = Some("/abs/skin.png".to_string());
    t.relative_path = Some("skin.png".to_string());
    let plan = plan_texture_load(&t, 0);
    assert_eq!(plan.index, 1);
    assert_eq!(plan.embedded, Some(b"hi".to_vec()));
    assert_eq!(plan.file.as_deref(), Some("skin.png"));

    let mut u = tex_with_id(None);
    u.source = Some("not a data uri".to_string());
    u.path = Some("/abs/other.png".to_string());
    let plan = plan_texture_load(&u, 3);
    assert_eq!(plan.index, 3);
    assert_eq!(plan.embedded, None);
    assert_eq!(plan.file.as_deref(), Some("/abs/other.png"));

    let plan = plan_texture_load(&tex_with_id(None), 1);
    assert!(plan.embedded.is_none() && plan.file.is_none());
}

#[test]
fn resolutions_fall_back_in_order() {
    let mut m = BBModel::new();
    assert_eq!(default_resolution(&m), (16, 16));
    m.resolution = Some(Resolution { width: 64, height: 32 });
    assert_eq!(default_resolution(&m), (64, 32));

    let mut t = Texture::default();
    assert_eq!(texture_resolution(&t, None, (16, 16)), (16, 16));
    t.width = Some(128);
    assert_eq!(texture_resolution(&t, None, (16, 16)), (16, 16));
    t.height = Some(64);
    assert_eq!(texture_resolution(&t, None, (16, 16)), (128, 64));
    t.uv_width = Some(32);
    t.uv_height = Some(16);
    assert_eq!(texture_resolution(&t, None, (16, 16)), (32, 16));
    assert_eq!(texture_resolution(&t, Some((256, 256)), (16, 16)), (256, 256));
}

#[test]
fn resolution_table_and_lookup() {
    let mut a = tex_with_id(Some("0"));
    a.uv_width = Some(32);
    a.uv_height = Some(0);
    let b = tex_with_id(Some("1"));
    let c = tex_with_id(Some("0"));
    let table = resolution_table(&vec![a, b, c], &vec![None, Some((8, 8))], (16, 16));
    assert_eq!(table, vec![(0, (32, 0)), (1, (8, 8)), (0, (16, 16))]);
    // the last entry for an index wins
    assert_eq!(section_resolution(Some(0), &table, (16, 16)), (16, 16));
    assert_eq!(section_resolution(Some(1), &table, (16, 16)), (8, 8));
    assert_eq!(section_resolution(Some(9), &table, (20, 10)), (20, 10));
    assert_eq!(section_resolution(None, &table, (20, 10)), (20, 10));
    // a zero dimension falls back to the default's
    let t2 = vec![(4u32, (0u32, 5u32))];
    assert_eq!(section_resolution(Some(4), &t2, (20, 10)), (20, 5));
}

fn tri(n: u32, texture: Option<u32>) -> Tri {
    Tri {
        positions: [[n, 0, 0], [n, 1, 0], [n, 2, 0]],
        uvs: [[n, 10], [n, 11], [n, 12]],
        normals: [[0, n, 0]; 3],
        texture,
    }
}

#[test]
fn sections_group_triangles_by_texture() {
    let tris = vec![tri(0, Some(1)), tri(1, None), tri(2, Some(1)), tri(3, Some(2))];
    assert_eq!(texture_keys_of(&tris), vec![Some(1), None, Some(2)]);
    let table = vec![(1u32, (64u32, 32u32))];
    let sections = build_sections(&tris, &table, (16, 16));
    assert_eq!(sections.len(), 3);
    assert_eq!(sections[0].texture, Some(1));
    assert_eq!(sections[0].indices, vec![0, 1, 2, 3, 4, 5]);
    assert_eq!(
        sections[0].positions,
        vec![[0, 0, 0], [0, 1, 0], [0, 2, 0], [2, 0, 0], [2, 1, 0], [2, 2, 0]]
    );
    assert_eq!(sections[0].uvs[3], [2, 10]);
    assert_eq!(sections[0].normals[5], [0, 2, 0]);
    assert_eq!(sections[0].resolution, (64, 32));
    assert_eq!(sections[1].texture, None);
    assert_eq!(sections[1].indices, vec![0, 1, 2]);
    assert_eq!(sections[1].resolution, (16, 16));
    assert_eq!(sections[2].indices, vec![0, 1, 2]);
    let total: usize = sections.iter().map(|s| s.positions.len()).sum();
    assert_eq!(total, 3 * tris.len());
    for s in &sections {
        assert!(!s.positions.is_empty());
        assert_eq!(s.uvs.len(), s.positions.len());
        assert_eq!(s.normals.len(), s.positions.len());
        assert_eq!(s.indices.len(), s.positions.len());
        // each section numbers its own vertices
        let own: Vec<u32> = (0..s.positions.len() as u32).collect();
        assert_eq!(s.indices, own);
    }
}

#[test]
fn no_triangles_no_sections() {
    assert!(build_sections(&Vec::new(), &Vec::new(), (16, 16)).is_empty());
}

#[test]
fn model_is_ready_when_every_texture_loaded() {
    assert!(all_textures_loaded(&vec![]));
    assert!(all_textures_loaded(&vec![true, true]));
    assert!(!all_textures_loaded(&vec![true, false, true]));
}
