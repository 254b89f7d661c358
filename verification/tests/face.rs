use voxl::voxel::face::{VoxelFace, TriangleDiagonal};

#[test]
fn normals_point_outwards() {
    assert_eq!(VoxelFace::Top.normal(), (0, 1, 0));
    assert_eq!(VoxelFace::Bottom.normal(), (0, -1, 0));
    assert_eq!(VoxelFace::North.normal(), (0, 0, 1));
    assert_eq!(VoxelFace::South.normal(), (0, 0, -1));
    assert_eq!(VoxelFace::East.normal(), (1, 0, 0));
    assert_eq!(VoxelFace::West.normal(), (-1, 0, 0));
}

#[test]
fn opposite_is_an_involution() {
    for f in VoxelFace::ALL {
        assert_eq!(f.opposite().opposite(), f);
        assert_ne!(f.opposite(), f);
        let (a, b, c) = f.normal();
        assert_eq!(f.opposite().normal(), (-a, -b, -c));
    }
}

#[test]
fn face_indices_follow_the_canonical_order() {
    for (i, f) in VoxelFace::ALL.iter().enumerate() {
        assert_eq!(f.index(), i);
    }
}

#[test]
fn default_diagonal_is_primary() {
    assert_eq!(TriangleDiagonal::default(), TriangleDiagonal::Primary);
}

#[test]
fn quad_corners_of_each_face() {
    assert_eq!(VoxelFace::Top.quad_corners(), [[0, 1, 0], [1, 1, 0], [1, 1, 1], [0, 1, 1]]);
    assert_eq!(VoxelFace::North.quad_corners(), [[1, 0, 1], [0, 0, 1], [0, 1, 1], [1, 1, 1]]);
    assert_eq!(VoxelFace::West.quad_corners(), [[0, 0, 1], [0, 0, 0], [0, 1, 0], [0, 1, 1]]);
    assert_eq!(VoxelFace::East.quad_uv_corners(), [[1, 1], [0, 1], [0, 0], [1, 0]]);
}

#[test]
fn triangles_split_the_quad_along_the_diagonal() {
    assert_eq!(TriangleDiagonal::Primary.corner_indices(), [0, 1, 2, 0, 2, 3]);
    assert_eq!(TriangleDiagonal::Secondary.corner_indices(), [0, 1, 3, 1, 2, 3]);
    assert_eq!(
        VoxelFace::South.triangle_corners(TriangleDiagonal::Primary),
        [[0, 0, 0], [1, 0, 0], [1, 1, 0], [0, 0, 0], [1, 1, 0], [0, 1, 0]]
    );
    assert_eq!(
        VoxelFace::South.triangle_corners(TriangleDiagonal::Secondary),
        [[0, 0, 0], [1, 0, 0], [0, 1, 0], [1, 0, 0], [1, 1, 0], [0, 1, 0]]
    );
    assert_eq!(
        VoxelFace::Top.triangle_uv_corners(TriangleDiagonal::Secondary),
        [[1, 1], [0, 1], [1, 0], [0, 1], [0, 0], [1, 0]]
    );
}

#[test]
fn every_triangle_winds_against_the_normal() {
    for face in VoxelFace::ALL {
        for d in [TriangleDiagonal::Primary, TriangleDiagonal::Secondary] {
            let t = face.triangle_corners(d);
            let n = face.normal();
            for k in 0..2 {
                let p = |i: usize| (t[3 * k + i][0] as i32, t[3 * k + i][1] as i32, t[3 * k + i][2] as i32);
                let (a, b, c) = (p(0), p(1), p(2));
                let u = (b.0 - a.0, b.1 - a.1, b.2 - a.2);
                let v = (c.0 - a.0, c.1 - a.1, c.2 - a.2);
                let cross = (u.1 * v.2 - u.2 * v.1, u.2 * v.0 - u.0 * v.2, u.0 * v.1 - u.1 * v.0);
                assert_eq!(cross, (-n.0, -n.1, -n.2));
            }
        }
    }
}

#[test]
fn texture_axes_of_faces() {
    assert_eq!(VoxelFace::Top.uv_axes(), (0, 2));
    assert_eq!(VoxelFace::Bottom.uv_axes(), (0, 2));
    assert_eq!(VoxelFace::South.uv_axes(), (0, 1));
    assert_eq!(VoxelFace::West.uv_axes(), (2, 1));
}
