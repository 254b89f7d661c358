use voxl::voxel::model::{BlockModel, ModelLoader};
use voxl::voxel::registry::{
    BlockConfig, RenderType, VoxelRegistry, default_collidable, parse_render_type, render_type_from_lowercase,
    static_atlas_cell,
};
use voxl::renderer::culling::{VoxelRef, should_render_face};

fn config(name: &str, model: Option<&str>, texture: Option<&str>, render_type: RenderType, collidable: bool) -> BlockConfig {
    BlockConfig {
        name: name.to_string(),
        model: model.map(|m| m.to_string()),
        texture: texture.map(|t| t.to_string()),
        texture_side: None,
        texture_bottom: None,
        render_type,
        collidable,
    }
}

#[test]
fn render_types() {
    assert_eq!(RenderType::default(), RenderType::Opaque);
    assert!(RenderType::Opaque.culls_adjacent_faces());
    assert!(!RenderType::Cutout.culls_adjacent_faces());
    assert!(!RenderType::Invisible.is_visible());
    assert!(RenderType::Translucent.is_visible());
    assert!(default_collidable());
}

#[test]
fn render_type_names_ignore_case() {
    assert_eq!(parse_render_type("Opaque"), Ok(RenderType::Opaque));
    assert_eq!(parse_render_type("CUTOUT"), Ok(RenderType::Cutout));
    assert_eq!(parse_render_type("translucent"), Ok(RenderType::Translucent));
    assert_eq!(parse_render_type("Transparent"), Ok(RenderType::Transparent));
    assert_eq!(parse_render_type("invisible"), Ok(RenderType::Invisible));
    assert_eq!(parse_render_type("Glowing"), Err("unknown render type: glowing".to_string()));
    assert_eq!(render_type_from_lowercase("Opaque"), Err("unknown render type: Opaque".to_string()));
}

#[test]
fn a_new_registry_holds_only_air() {
    let r = VoxelRegistry::new();
    assert_eq!(r.len(), 1);
    assert!(r.is_empty());
    let air = r.get(0).unwrap();
    assert_eq!(air.string_id, "air");
    assert_eq!(air.name, "Air");
    assert_eq!(air.render_type, RenderType::Invisible);
    assert!(!air.collidable);
    assert!(r.is_air(0));
    assert!(!r.is_solid(0));
    assert_eq!(r.get_render_type(99), RenderType::Invisible);
    assert_eq!(r.get_id_by_string("air"), Some(0));
}

#[test]
fn registering_assigns_sequential_ids() {
    let mut r = VoxelRegistry::default();
    assert_eq!(r.register_voxel("stone", "Stone"), 1);
    assert_eq!(r.register_voxel("dirt", "Dirt"), 2);
    assert_eq!(r.len(), 3);
    assert!(!r.is_empty());
    assert_eq!(r.get_id_by_string("dirt"), Some(2));
    assert_eq!(r.get_by_string("stone").unwrap().name, "Stone");
    assert!(r.is_solid(1));
    assert!(r.is_opaque(1));
    assert!(r.is_collidable(2));
    assert!(r.get(3).is_none());
    // A string id registered again points at the newest definition.
    assert_eq!(r.register_voxel("stone", "Stone again"), 3);
    assert_eq!(r.get_id_by_string("stone"), Some(3));
    assert_eq!(r.get(1).unwrap().name, "Stone");
}

#[test]
fn register_blocks_uses_their_configs() {
    let mut r = VoxelRegistry::new();
    r.register_blocks(vec![
        ("glass".to_string(), config("Glass", None, Some("glass"), RenderType::Transparent, true)),
        ("water".to_string(), config("Water", None, Some("water"), RenderType::Translucent, false)),
    ]);
    let g = r.get(1).unwrap();
    assert_eq!(g.global_id, 1);
    assert_eq!(g.string_id, "glass");
    assert_eq!(g.render_type, RenderType::Transparent);
    assert!(!r.is_opaque(1));
    assert!(!r.is_solid(2));
    assert_eq!(r.get_render_type(2), RenderType::Translucent);
}

#[test]
fn static_atlas_cells_form_a_two_by_two_grid() {
    assert_eq!(static_atlas_cell(0), (0, 0));
    assert_eq!(static_atlas_cell(1), (1, 0));
    assert_eq!(static_atlas_cell(2), (0, 1));
    assert_eq!(static_atlas_cell(3), (1, 1));
}

#[test]
fn models_and_block_textures() {
    let mut r = VoxelRegistry::new();
    assert!(!r.has_models());
    let mut loader = ModelLoader::new();
    loader.insert(BlockModel::cube("cube", "stone"));
    r.set_models(loader);
    assert!(r.has_models());
    assert!(r.get_model("cube").is_some());
    let blocks = vec![
        ("air".to_string(), config("Air", None, Some("ignored"), RenderType::Invisible, false)),
        ("stone".to_string(), config("Stone", Some("cube"), None, RenderType::Opaque, true)),
        ("granite".to_string(), config("Granite", Some("cube"), None, RenderType::Opaque, true)),
        ("ghost".to_string(), config("Ghost", Some("nowhere"), None, RenderType::Opaque, true)),
        ("grass".to_string(), BlockConfig {
            name: "Grass".to_string(),
            model: None,
            texture: Some("grass_top".to_string()),
            texture_side: Some("grass_side".to_string()),
            texture_bottom: Some("dirt".to_string()),
            render_type: RenderType::Opaque,
            collidable: true,
        }),
    ];
    assert!(blocks[1].1.uses_model());
    assert!(!blocks[4].1.uses_model());
    assert_eq!(
        r.block_textures(&blocks),
        vec!["stone".to_string(), "grass_top".to_string(), "grass_side".to_string(), "dirt".to_string()]
    );
}

#[test]
fn resolved_models_are_found_by_name() {
    let mut r = VoxelRegistry::new();
    let mut loader = ModelLoader::new();
    loader.insert(BlockModel::cube("cube", "stone"));
    r.set_models(loader);
    r.register_texture_ids(vec![("stone".to_string(), 5)]);
    r.resolve_models();
    let m = r.get_resolved_model("cube").unwrap();
    assert_eq!(m.elements.len(), 1);
    assert_eq!(m.elements[0].get(voxl::voxel::face::VoxelFace::Top).unwrap().texture_id, 5);
    assert!(r.get_resolved_model("other").is_none());
}

#[test]
fn face_culling() {
    let air = VoxelRef::air();
    let stone = VoxelRef::from_id_unchecked(1);
    assert!(air.is_air());
    assert!(stone.is_opaque());
    assert!(stone.is_solid());
    assert!(should_render_face(stone, air));
    assert!(!should_render_face(air, stone));
    assert!(!should_render_face(stone, stone));
    let glass = VoxelRef { id: 2, render_type: RenderType::Transparent, collidable: true };
    assert!(should_render_face(glass, glass));
    assert!(should_render_face(stone, glass));
    let mut r = VoxelRegistry::new();
    r.register_voxel("stone", "Stone");
    let v = VoxelRef::from_id(1, &r);
    assert_eq!(v.render_type, RenderType::Opaque);
    assert!(v.collidable);
    let u = VoxelRef::from_id(7, &r);
    assert_eq!(u.render_type, RenderType::Invisible);
    assert!(!u.is_visible());
}
