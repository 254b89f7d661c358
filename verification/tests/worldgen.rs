use noise::Seedable;
use voxl::renderer::atlas::{atlas_texture_order, atlas_cell_origin, str_lt};
use voxl::voxel::chunk::VoxelChunk;
use voxl::voxel::registry::VoxelRegistry;
use voxl::worldgen::config::{
    SurfaceRule, WorldGenConfig, default_biome_source_path, default_biomes_path, default_density_functions_path,
    default_depth, default_height, default_noise_router_path, default_sea_level, default_true,
};
use voxl::worldgen::noise::{PerlinNoiseGenerator, SimplePerlinGenerator};
use voxl::worldgen::plan::{VoxelWrite, apply_plan};
use voxl::worldgen::terrain::{
    Ore, TerrainBiome, TerrainColumn, TerrainGenerator, cave_height_allowed, fill_solid, generate_tree, pick_ore,
    plan_terrain_chunk, tree_sites,
};
use voxl::worldgen::world::{
    BlockIds, ColumnGround, WorldIds, plan_world_chunk, world_cave_height_allowed, world_voxel_write,
};

#[test]
fn config_defaults() {
    let c = WorldGenConfig::default();
    assert_eq!(c.seed, 12345);
    assert_eq!(c.height, 256);
    assert_eq!(c.sea_level, 62);
    assert_eq!(c.noise_router_path, "data/noise_settings/overworld_router.ron");
    assert_eq!(c.biome_source_path, "data/biome_source.ron");
    assert_eq!(c.biomes_path, "data/biomes");
    assert_eq!(c.density_functions_path, "data/density_functions/noise.ron");
    assert_eq!(default_height(), 256);
    assert_eq!(default_sea_level(), 62);
    assert_eq!(default_noise_router_path(), "data/noise_settings/overworld_router.ron");
    assert_eq!(default_biome_source_path(), "data/biome_source.ron");
    assert_eq!(default_biomes_path(), "data/biomes");
    assert_eq!(default_density_functions_path(), "data/density_functions/noise.ron");
    assert_eq!(default_depth(), 4);
    assert!(default_true());
    let r = SurfaceRule::default();
    assert_eq!(r.depth, 0);
    assert!(r.under_material.is_none());
}

#[test]
fn noise_seeds() {
    let g = PerlinNoiseGenerator::new(10);
    assert_eq!(g.base_seed, 10);
    assert_eq!(g.fbm_seed(5), 15);
    let big = PerlinNoiseGenerator::new(u32::MAX as u64 + 3);
    assert_eq!(big.fbm_seed(0), 2);
    let s = SimplePerlinGenerator::new(7);
    assert_eq!(s.perlin().seed(), 7);
}

fn ids() -> WorldIds {
    WorldIds { bedrock: Some(1), water: Some(2), air: Some(0), grass: Some(3), dirt: Some(4), stone: Some(5) }
}

#[test]
fn world_column_decisions() {
    let g = Some(ColumnGround { top: Some(7), under: Some(8), depth: 3 });
    assert_eq!(world_voxel_write(0, 70, 62, true, ids(), g), VoxelWrite::Place(Some(1)));
    assert_eq!(world_voxel_write(80, 70, 62, false, ids(), g), VoxelWrite::Skip);
    assert_eq!(world_voxel_write(60, 50, 62, false, ids(), g), VoxelWrite::Place(Some(2)));
    assert_eq!(world_voxel_write(60, 50, 62, true, ids(), g), VoxelWrite::Skip);
    assert_eq!(world_voxel_write(70, 70, 62, false, ids(), g), VoxelWrite::Place(Some(7)));
    assert_eq!(world_voxel_write(68, 70, 62, false, ids(), g), VoxelWrite::Place(Some(8)));
    assert_eq!(world_voxel_write(67, 70, 62, false, ids(), g), VoxelWrite::Place(Some(5)));
    assert_eq!(world_voxel_write(70, 70, 62, false, ids(), None), VoxelWrite::Place(Some(3)));
    assert_eq!(world_voxel_write(67, 70, 62, false, ids(), None), VoxelWrite::Place(Some(4)));
    assert_eq!(world_voxel_write(66, 70, 62, false, ids(), None), VoxelWrite::Place(Some(5)));
    let unknown = WorldIds { stone: None, ..ids() };
    assert_eq!(world_voxel_write(10, 70, 62, false, unknown, None), VoxelWrite::Skip);
}

#[test]
fn world_chunk_plan_and_apply() {
    let heights = vec![3i32; 256];
    let grounds = vec![None; 256];
    let caves = vec![false; 4096];
    let plan = plan_world_chunk(0, &heights, &grounds, &caves, ids(), 5);
    assert_eq!(plan.len(), 4096);
    let mut c = VoxelChunk::new();
    apply_plan(&mut c, &plan);
    assert_eq!(c.get(0, 0, 0), Some(1));
    assert_eq!(c.get(2, 1, 9), Some(4));
    assert_eq!(c.get(2, 3, 9), Some(3));
    assert_eq!(c.get(2, 4, 9), Some(2));
    assert_eq!(c.get(2, 5, 9), Some(2));
    assert_eq!(c.get(2, 6, 9), Some(0));
    assert_eq!(c.palette(), &[0, 1, 4, 3, 2]);
}

#[test]
fn block_ids_from_the_registry() {
    let mut r = VoxelRegistry::new();
    r.register_voxel("stone", "Stone");
    r.register_voxel("grass_block", "Grass");
    let mut b = BlockIds::new();
    let rules = vec![SurfaceRule { top_material: "grass_block".to_string(), under_material: Some("missing".to_string()), depth: 3 }];
    b.init_block_ids(&r, &rules);
    assert_eq!(b.get_block_id("air"), Some(0));
    assert_eq!(b.get_block_id("stone"), Some(1));
    assert_eq!(b.get_block_id("grass_block"), Some(2));
    assert_eq!(b.get_block_id("missing"), None);
    assert_eq!(b.get_block_id("dirt"), None);
}

#[test]
fn terrain_chunk_with_trees() {
    let col = TerrainColumn { height: 8, surface: Some(3), subsurface: Some(4), tree_roll: false, tree_height: 5 };
    let mut columns = vec![col; 256];
    columns[0].tree_roll = true;
    columns[1].tree_roll = true;
    columns[5 * 16 + 5].tree_roll = true;
    let caves = vec![false; 4096];
    let mut ores = vec![None; 4096];
    ores[2] = Some(9);
    let plan = plan_terrain_chunk(0, 16, &columns, &caves, &ores, 5, 1);
    let mut c = VoxelChunk::new();
    apply_plan(&mut c, &plan);
    assert_eq!(c.get(3, 0, 3), Some(1));
    assert_eq!(c.get(0, 2, 0), Some(9));
    assert_eq!(c.get(3, 3, 3), Some(5));
    assert_eq!(c.get(3, 4, 3), Some(4));
    assert_eq!(c.get(3, 7, 3), Some(3));
    assert_eq!(c.get(3, 8, 3), Some(0));
    let sites = tree_sites(&c, &columns, 0, 16);
    // Columns 0 and 1 share a 4x4 cell: only the first grows a tree.
    assert_eq!(sites, vec![(0, 8, 0), (5, 8, 5)]);
    generate_tree(&mut c, 5, 9, 5, 5, 20, 21);
    assert_eq!(c.get(5, 9, 5), Some(20));
    assert_eq!(c.get(5, 13, 5), Some(20));
    assert_eq!(c.get(5, 14, 5), Some(21));
    assert_eq!(c.get(5, 15, 5), Some(21));
    assert_eq!(c.get(6, 12, 5), Some(21));
    assert_eq!(c.get(8, 12, 5), Some(21));
    assert_eq!(c.get(9, 12, 5), Some(0));
    assert_eq!(c.get(7, 15, 5), Some(0));
    assert_eq!(c.get(6, 15, 5), Some(21));
}

#[test]
fn terrain_biome_blocks() {
    let mut r = VoxelRegistry::new();
    r.register_voxel("grass", "Grass");
    r.register_voxel("dirt", "Dirt");
    r.register_voxel("sand", "Sand");
    assert_eq!(TerrainBiome::Plains.surface_block(&r), Some(1));
    assert_eq!(TerrainBiome::Snow.subsurface_block(&r), Some(2));
    assert_eq!(TerrainBiome::Desert.surface_block(&r), Some(3));
    assert_eq!(TerrainBiome::Mountains.surface_block(&r), None);
}

#[test]
fn fill_solid_up_to_a_height() {
    let mut c = VoxelChunk::new();
    fill_solid(&mut c, 3, 5);
    assert_eq!(c.get(0, 2, 0), Some(5));
    assert_eq!(c.get(15, 3, 15), Some(0));
    let mut d = VoxelChunk::new();
    fill_solid(&mut d, 40, 5);
    assert_eq!(d.get(0, 15, 0), Some(5));
}

#[test]
fn atlas_textures_are_unique_and_sorted() {
    let names = vec!["stone".to_string(), "dirt".to_string(), "stone".to_string(), "Zinc".to_string(), "grass".to_string()];
    assert_eq!(
        atlas_texture_order(&names),
        Ok(vec!["Zinc".to_string(), "dirt".to_string(), "grass".to_string(), "stone".to_string()])
    );
    assert_eq!(atlas_texture_order(&Vec::new()), Err("No textures to load".to_string()));
    assert!(str_lt("ab", "abc"));
    assert!(!str_lt("b", "abc"));
    assert_eq!(atlas_cell_origin(5, 3, 16), (32, 16));
}

#[test]
fn terrain_generator_seeds() {
    let g = TerrainGenerator::new();
    assert_eq!(g.seed(), 12345);
    assert_eq!(g.height_noise_seed(), 12346);
    assert_eq!(g.temperature_noise_seed(), 12355);
    assert_eq!(g.humidity_noise_seed(), 12365);
    assert_eq!(g.cave_noise_seed(), 12445);
    assert_eq!(g.structure_noise_seed(), 12545);
    let d = TerrainGenerator::default();
    assert_eq!(d.seed(), 12345);
    let s = TerrainGenerator::with_seed(7);
    assert_eq!(s.height_noise_seed(), 8);
    assert_eq!(s.structure_noise_seed(), 207);
}

#[test]
fn generate_test_world_builds_each_chunk_at_its_coordinates() {
    let world = TerrainGenerator::new().generate_test_world(|_x, y, _z| {
        let mut chunk = VoxelChunk::new();
        chunk.set(0, 0, 0, Some(y as usize + 1));
        chunk
    });
    assert_eq!(world.len(), 800);
    assert_eq!(world[0].0, (-5, 0, -5));
    assert_eq!(world[3].0, (-5, 3, -5));
    assert_eq!(world[3].1.get(0, 0, 0), Some(4));
    assert_eq!(world[799].0, (4, 7, 4));
    assert_eq!(world[799].1.get(0, 0, 0), Some(8));
}

#[test]
fn test_world_is_ten_by_ten_columns() {
    let chunks = TerrainGenerator::new().test_world_chunks();
    assert_eq!(chunks.len(), 800);
    assert_eq!(chunks[0], (-5, 0, -5));
    assert_eq!(chunks[1], (-5, 1, -5));
    assert_eq!(chunks[8], (-5, 0, -4));
    assert_eq!(chunks[799], (4, 7, 4));
}

#[test]
fn generator_fills_with_registry_stone() {
    let mut reg = VoxelRegistry::new();
    let mut c = VoxelChunk::new();
    TerrainGenerator::new().fill_solid(&mut c, 2, &reg);
    assert_eq!(c.get(0, 1, 0), Some(0));
    reg.register_voxel("stone", "Stone");
    let mut d = VoxelChunk::new();
    TerrainGenerator::new().fill_solid(&mut d, 2, &reg);
    assert_eq!(d.get(3, 1, 3), Some(1));
    assert_eq!(d.get(3, 2, 3), Some(0));
}

#[test]
fn caves_stay_inside_their_height_bands() {
    assert!(!cave_height_allowed(4));
    assert!(cave_height_allowed(5));
    assert!(cave_height_allowed(50));
    assert!(!cave_height_allowed(51));
    assert!(!world_cave_height_allowed(14));
    assert!(world_cave_height_allowed(15));
    assert!(world_cave_height_allowed(55));
    assert!(!world_cave_height_allowed(56));
}

#[test]
fn ores_by_depth_and_roll() {
    assert_eq!(pick_ore(10, [true, true, true, true]), Some(Ore::Coal));
    assert_eq!(pick_ore(10, [false, true, true, true]), Some(Ore::Iron));
    assert_eq!(pick_ore(50, [false, true, true, true]), None);
    assert_eq!(pick_ore(25, [false, false, true, true]), Some(Ore::Gold));
    assert_eq!(pick_ore(7, [false, false, true, true]), Some(Ore::Diamond));
    assert_eq!(pick_ore(4, [true, true, true, true]), None);
    assert_eq!(pick_ore(60, [true, false, false, false]), Some(Ore::Coal));
    assert_eq!(Ore::Diamond.block_name(), "diamond_ore");
}
