use voxl::renderer::ao::{AoCalculator, AoLevel, NeighborData, ao_probe_positions, corner_levels};
use voxl::voxel::face::VoxelFace;

#[test]
fn test_ao_level() {
    // Both sides blocked: darkest.
    let ao = AoLevel::from_neighbors(true, true, true);
    assert_eq!(ao.thirds() as f32 / 3.0, 0.0);

    // Nothing around: fully lit.
    let ao = AoLevel::from_neighbors(false, false, false);
    assert_eq!(ao.thirds() as f32 / 3.0, 1.0);

    // One side blocked: one third darker.
    let ao = AoLevel::from_neighbors(true, false, false);
    assert_eq!(ao.thirds() as f32 / 3.0, 2.0 / 3.0);
}

#[test]
fn ao_levels_count_blocked_neighbours() {
    assert_eq!(AoLevel::from_neighbors(false, false, true).level, 2);
    assert_eq!(AoLevel::from_neighbors(true, false, true).level, 1);
    assert_eq!(AoLevel::from_neighbors(false, true, true).level, 1);
    assert_eq!(AoLevel::from_neighbors(true, true, false).level, 0);
    assert_eq!(AoLevel::max().level, 3);
    assert_eq!(AoLevel::min().level, 0);
}

#[test]
fn neighbor_table_of_top_face() {
    let n = NeighborData::get_for_face(VoxelFace::Top);
    assert_eq!(n.side_directions[0], [VoxelFace::South, VoxelFace::West]);
    assert_eq!(n.side_directions[1], [VoxelFace::South, VoxelFace::East]);
    assert_eq!(n.side_directions[2], [VoxelFace::North, VoxelFace::East]);
    assert_eq!(n.side_directions[3], [VoxelFace::North, VoxelFace::West]);
}

#[test]
fn neighbor_table_of_east_face() {
    let n = NeighborData::get_for_face(VoxelFace::East);
    assert_eq!(n.side_directions[0], [VoxelFace::South, VoxelFace::Bottom]);
    assert_eq!(n.side_directions[3], [VoxelFace::South, VoxelFace::Top]);
}

#[test]
fn side_directions_are_perpendicular_to_the_face() {
    for face in VoxelFace::ALL {
        let n = NeighborData::get_for_face(face);
        for c in 0..4 {
            for s in n.side_directions[c] {
                assert_ne!(s, face);
                assert_ne!(s, face.opposite());
            }
            assert_ne!(n.side_directions[c][0], n.side_directions[c][1]);
            assert_ne!(n.side_directions[c][0], n.side_directions[c][1].opposite());
        }
    }
}

#[test]
fn probes_are_seen_from_the_cell_in_front() {
    let p = ao_probe_positions((10, 20, 30), VoxelFace::Top);
    // Corner 0 of the top face: south (z-1) and west (x-1) of the cell above.
    assert_eq!(p[0], [(10, 21, 29), (9, 21, 30), (9, 21, 29)]);
    assert_eq!(p[2], [(10, 21, 31), (11, 21, 30), (11, 21, 31)]);
}

#[test]
fn corner_levels_follow_the_probes() {
    let levels = corner_levels([[false; 3], [true, true, false], [true, false, false], [false, false, true]]);
    assert_eq!(levels.map(|l| l.level), [3, 0, 2, 2]);
}

#[test]
fn flat_ground_is_fully_lit() {
    let ground = |_x: i32, y: i32, _z: i32| if y <= 0 { Some(3usize) } else { None };
    let levels = AoCalculator::face_levels((0, 0, 0), VoxelFace::Top, ground);
    assert_eq!(levels.map(|l| l.level), [3, 3, 3, 3]);
}

#[test]
fn walls_darken_the_corners_they_touch() {
    let world = |x: i32, y: i32, z: i32| {
        if y <= 0 || (x, y, z) == (0, 1, -1) || (x, y, z) == (-1, 1, 0) {
            Some(7usize)
        } else if y == 1 {
            Some(0usize)
        } else {
            None
        }
    };
    let levels = AoCalculator::face_levels((0, 0, 0), VoxelFace::Top, world);
    assert_eq!(levels.map(|l| l.level), [0, 2, 3, 2]);
}

#[test]
fn air_does_not_block_light() {
    assert!(!AoCalculator::is_opaque(Some(0)));
    assert!(!AoCalculator::is_opaque(None));
    assert!(AoCalculator::is_opaque(Some(1)));
}
