use vstd::prelude::*;
use crate::voxel::face::{VoxelFace, face_normal};

verus! {

/// A coordinate axis.
#[derive(Clone, Copy, PartialEq, Eq, Debug, Hash, Structural)]
pub enum Axis {
    X,
    Y,
    Z,
}

impl Axis {
    /// The three axes: X, Y, Z.
    pub const ALL: [Axis; 3] = [Axis::X, Axis::Y, Axis::Z];
}

/// The cell on the other side of `face` from the block at `block_pos`:
/// where a block placed against that face goes.
pub fn adjacent_position(block_pos: (i32, i32, i32), face: VoxelFace) -> (p: (i32, i32, i32))
    requires
        i32::MIN < block_pos.0 < i32::MAX,
        i32::MIN < block_pos.1 < i32::MAX,
        i32::MIN < block_pos.2 < i32::MAX,
    ensures
        p.0 == block_pos.0 + face_normal(face).0,
        p.1 == block_pos.1 + face_normal(face).1,
        p.2 == block_pos.2 + face_normal(face).2,
{
    let n = face.normal();
    (block_pos.0 + n.0, block_pos.1 + n.1, block_pos.2 + n.2)
}

/// Stepping across a face and back across the opposite face returns to
/// the starting block.
pub proof fn law_adjacent_round_trip(p: (int, int, int), face: VoxelFace)
    ensures
        ({
            let n = face_normal(face);
            let m = face_normal(crate::voxel::face::face_opposite(face));
            (p.0 + n.0 + m.0, p.1 + n.1 + m.1, p.2 + n.2 + m.2) == p
        }),
{
}

} // verus!
