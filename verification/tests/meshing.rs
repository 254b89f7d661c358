use voxl::renderer::culling::VoxelRef;
use voxl::renderer::meshing::{block_model, fallback_cube_model, faces_to_draw, FaceDraw};
use voxl::voxel::face::VoxelFace;
use voxl::voxel::model::{ResolvedBlockModel, ResolvedModelElement};
use voxl::voxel::registry::{RenderType, VoxelRegistry};

fn cube(texture: usize) -> ResolvedBlockModel {
    ResolvedBlockModel {
        name: "cube".to_string(),
        elements: vec![ResolvedModelElement::cube_faces(texture)],
        render_type: "opaque".to_string(),
        collidable: true,
    }
}

fn stone() -> VoxelRef {
    VoxelRef { id: 1, render_type: RenderType::Opaque, collidable: true }
}

#[test]
fn a_block_in_the_air_draws_all_faces() {
    let air = VoxelRef::air();
    let draws = faces_to_draw(&cube(4), stone(), &[air; 6]);
    let faces: Vec<VoxelFace> = draws.iter().map(|d| d.face).collect();
    assert_eq!(faces, VoxelFace::ALL.to_vec());
    assert!(draws.iter().all(|d| d.element == 0 && d.texture_id == 4));
}

#[test]
fn covered_faces_are_culled() {
    let air = VoxelRef::air();
    let mut around = [air; 6];
    around[VoxelFace::Top.index()] = stone();
    around[VoxelFace::West.index()] = stone();
    let draws = faces_to_draw(&cube(0), stone(), &around);
    assert_eq!(
        draws,
        vec![
            FaceDraw { element: 0, face: VoxelFace::Bottom, texture_id: 0 },
            FaceDraw { element: 0, face: VoxelFace::North, texture_id: 0 },
            FaceDraw { element: 0, face: VoxelFace::South, texture_id: 0 },
            FaceDraw { element: 0, face: VoxelFace::East, texture_id: 0 },
        ]
    );
    assert!(faces_to_draw(&cube(0), stone(), &[stone(); 6]).is_empty());
}

#[test]
fn blocks_without_models_use_a_fallback_cube() {
    let mut reg = VoxelRegistry::new();
    let id = reg.register_voxel("granite", "Granite");
    assert!(block_model(&reg, id).is_none());
    let m = fallback_cube_model(&reg, id);
    assert_eq!(m.name, "fallback_granite");
    assert_eq!(m.render_type, "opaque");
    assert!(m.collidable);
    assert_eq!(m.elements.len(), 1);
    let f = m.elements[0].get(VoxelFace::North).unwrap();
    assert_eq!(f.texture_id, 0);
    assert_eq!(f.cull_face, Some(VoxelFace::North));
    assert_eq!(fallback_cube_model(&reg, 99).name, "fallback_stone");
}
