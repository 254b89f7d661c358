use vstd::prelude::*;
use crate::voxel::chunk::{LocalVoxelId, GlobalVoxelId};

verus! {

/// A request to generate a chunk.
#[derive(Clone, Copy, PartialEq, Eq, Debug, Structural)]
pub struct ChunkGenRequest {
    pub cx: i32,
    pub cy: i32,
    pub cz: i32,
    /// Lower is more urgent.
    pub priority: u32,
}

/// How urgent a mesh is: a chunk whose blocks changed comes before a newly
/// generated one.
#[derive(Clone, Copy, PartialEq, Eq, Debug, Structural)]
pub enum MeshPriority {
    /// A block was broken or placed.
    Modified,
    /// The chunk was just generated.
    New,
}

/// The rank of a priority: lower is more urgent.
pub open spec fn priority_rank(p: MeshPriority) -> int {
    match p {
        MeshPriority::Modified => 0,
        MeshPriority::New => 1,
    }
}

impl MeshPriority {
    /// Whether this priority comes strictly before the other.
    pub fn is_more_urgent_than(self, other: MeshPriority) -> (b: bool)
        ensures
            b == (priority_rank(self) < priority_rank(other)),
    {
        match (self, other) {
            (MeshPriority::Modified, MeshPriority::New) => true,
            _ => false,
        }
    }
}

/// A request to mesh a chunk.
#[derive(Clone, Copy, PartialEq, Eq, Debug, Structural)]
pub struct MeshRequest {
    pub cx: i32,
    pub cy: i32,
    pub cz: i32,
    pub priority: MeshPriority,
}

/// What a generation worker sends back for a request.
pub struct ChunkGenResult {
    pub cx: i32,
    pub cy: i32,
    pub cz: i32,
    /// The generated voxels, unless the chunk already existed.
    pub voxels: Option<Box<[LocalVoxelId; 4096]>>,
    /// The generated palette, unless the chunk already existed.
    pub palette: Option<Vec<GlobalVoxelId>>,
    /// Whether the chunk existed already (before generation, or because
    /// another worker stored it first).
    pub already_exists: bool,
}

/// The result a worker sends: the generated data when the chunk existed
/// neither before nor after generating it, else a note that it exists.
pub fn generation_result(
    request: ChunkGenRequest,
    existed_before: bool,
    generated: Option<(Box<[LocalVoxelId; 4096]>, Vec<GlobalVoxelId>)>,
    exists_after: bool,
) -> (r: ChunkGenResult)
    requires
        existed_before <==> generated is None,
    ensures
        r.cx == request.cx && r.cy == request.cy && r.cz == request.cz,
        r.already_exists == (existed_before || exists_after),
        r.already_exists ==> r.voxels is None && r.palette is None,
        !r.already_exists ==> (generated matches Some(g) && r.voxels == Some(g.0) && r.palette == Some(g.1)),
{
    match generated {
        Some((voxels, palette)) => {
            if !exists_after {
                ChunkGenResult {
                    cx: request.cx,
                    cy: request.cy,
                    cz: request.cz,
                    voxels: Some(voxels),
                    palette: Some(palette),
                    already_exists: false,
                }
            } else {
                ChunkGenResult { cx: request.cx, cy: request.cy, cz: request.cz, voxels: None, palette: None, already_exists: true }
            }
        },
        None => ChunkGenResult { cx: request.cx, cy: request.cy, cz: request.cz, voxels: None, palette: None, already_exists: true },
    }
}

} // verus!
