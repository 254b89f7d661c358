use voxl::voxel::face::VoxelFace;
use voxl::voxel::model::{
    BlockModel, ElementFace, ModelElement, ModelLoader, default_element_face_enabled, lookup_texture_id,
};

fn model_with(textures: Vec<(&str, &str)>, faces: Vec<(VoxelFace, ElementFace)>) -> BlockModel {
    BlockModel {
        name: "m".to_string(),
        textures: textures.into_iter().map(|(k, v)| (k.to_string(), v.to_string())).collect(),
        elements: vec![ModelElement { faces }],
        render_type: "opaque".to_string(),
        collidable: true,
    }
}

#[test]
fn element_faces() {
    assert!(default_element_face_enabled());
    let f = ElementFace::new("stone");
    assert_eq!(f.texture, "stone");
    assert!(f.enabled);
    assert_eq!(f.cull_face, None);
    let d = ElementFace::disabled();
    assert_eq!(d.texture, "");
    assert!(!d.enabled);
    let c = ElementFace::new("#side").with_cull_face(VoxelFace::North);
    assert_eq!(c.cull_face, Some(VoxelFace::North));
    assert_eq!(c.texture, "#side");
}

#[test]
fn cube_uses_the_texture_variable_on_every_face() {
    let m = BlockModel::cube("stone_block", "stone");
    assert_eq!(m.name, "stone_block");
    assert_eq!(m.textures, vec![("texture".to_string(), "stone".to_string())]);
    assert_eq!(m.elements.len(), 1);
    assert_eq!(m.elements[0].faces.len(), 6);
    for (i, (f, ef)) in m.elements[0].faces.iter().enumerate() {
        assert_eq!(*f, VoxelFace::ALL[i]);
        assert_eq!(ef.texture, "#texture");
        assert!(ef.enabled);
    }
    assert_eq!(m.render_type, "opaque");
    assert!(m.collidable);
    assert!(!m.is_empty());
    assert_eq!(m.get_used_textures(), vec!["stone".to_string()]);
}

#[test]
fn resolve_texture_references() {
    let m = model_with(vec![("side", "log_side"), ("top", "log_top"), ("side", "ignored")], vec![]);
    assert_eq!(m.resolve_texture("#side"), Some("log_side".to_string()));
    assert_eq!(m.resolve_texture("#top"), Some("log_top".to_string()));
    assert_eq!(m.resolve_texture("#missing"), None);
    assert_eq!(m.resolve_texture("dirt"), Some("dirt".to_string()));
    assert_eq!(m.resolve_texture("#"), None);
}

#[test]
fn used_textures_are_unique_in_order_of_first_use() {
    let m = model_with(
        vec![("side", "log_side"), ("top", "log_top")],
        vec![
            (VoxelFace::North, ElementFace::new("#side")),
            (VoxelFace::Top, ElementFace::new("#top")),
            (VoxelFace::South, ElementFace::new("#side")),
            (VoxelFace::East, ElementFace::new("#unknown")),
            (VoxelFace::West, ElementFace { texture: "glass".to_string(), enabled: false, cull_face: None }),
            (VoxelFace::Bottom, ElementFace::new("dirt")),
        ],
    );
    assert_eq!(m.get_used_textures(), vec!["log_side".to_string(), "log_top".to_string(), "dirt".to_string()]);
}

#[test]
fn has_face_and_get_face_use_the_first_entry() {
    let e = ModelElement {
        faces: vec![
            (VoxelFace::Top, ElementFace::disabled()),
            (VoxelFace::Top, ElementFace::new("x")),
            (VoxelFace::North, ElementFace::new("n")),
        ],
    };
    assert!(!e.has_face(VoxelFace::Top));
    assert!(e.get_face(VoxelFace::Top).is_none());
    assert!(e.has_face(VoxelFace::North));
    assert_eq!(e.get_face(VoxelFace::North).unwrap().texture, "n");
    assert!(!e.has_face(VoxelFace::South));
}

#[test]
fn resolve_maps_textures_to_ids() {
    let m = model_with(
        vec![("side", "log_side")],
        vec![
            (VoxelFace::North, ElementFace::new("#side").with_cull_face(VoxelFace::North)),
            (VoxelFace::Top, ElementFace::new("#nope")),
            (VoxelFace::South, ElementFace::new("unknown_texture")),
            (VoxelFace::East, ElementFace::disabled()),
        ],
    );
    let map = vec![("log_side".to_string(), 4usize), ("stone".to_string(), 9usize)];
    assert_eq!(lookup_texture_id(&map, "stone"), Some(9));
    assert_eq!(lookup_texture_id(&map, "x"), None);
    let r = m.resolve(&map);
    assert_eq!(r.name, "m");
    assert_eq!(r.elements.len(), 1);
    let north = r.elements[0].get(VoxelFace::North).unwrap();
    assert_eq!(north.texture_id, 4);
    assert_eq!(north.cull_face, Some(VoxelFace::North));
    // An unresolvable variable falls back to "stone".
    assert_eq!(r.elements[0].get(VoxelFace::Top).unwrap().texture_id, 9);
    // A texture missing from the map gets id 0.
    assert_eq!(r.elements[0].get(VoxelFace::South).unwrap().texture_id, 0);
    assert!(r.elements[0].get(VoxelFace::East).is_none());
    assert!(r.elements[0].get(VoxelFace::West).is_none());
}

#[test]
fn loader_returns_the_last_model_of_a_name() {
    let mut l = ModelLoader::new();
    l.insert(BlockModel::cube("a", "one"));
    l.insert(BlockModel::cube("b", "two"));
    l.insert(BlockModel::cube("a", "three"));
    assert_eq!(l.get("a").unwrap().textures[0].1, "three");
    assert_eq!(l.get("b").unwrap().textures[0].1, "two");
    assert!(l.get("c").is_none());
    assert_eq!(l.all_models().len(), 3);
}
