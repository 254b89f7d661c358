use vstd::prelude::*;
use crate::renderer::dirty::{ChunkCoord, chunk_coord_of, local_coord_of, no_duplicates};
use crate::renderer::queue::MeshPriority;
use crate::tracking::chunk_set::ChunkSet;
use crate::tracking::local_tracker::{LocalChunkTracker, accepts_generation_request};
use crate::voxel::face::{VoxelFace, face_normal};

verus! {

/// Number of chunk rows of the world, as a chunk coordinate.
pub const CHUNK_ROWS: i32 = 8;

/// Whether the chunk lies within the world's height.
pub open spec fn within_height(pos: ChunkCoord) -> bool {
    0 <= pos.1 && pos.1 < CHUNK_ROWS
}

/// The `i`-th chunk sharing a face with `pos`, in the order x+1, x-1, y+1,
/// y-1, z+1, z-1.
pub open spec fn neighbor_at(pos: ChunkCoord, i: int) -> (int, int, int) {
    if i == 0 {
        (pos.0 + 1, pos.1 as int, pos.2 as int)
    } else if i == 1 {
        (pos.0 - 1, pos.1 as int, pos.2 as int)
    } else if i == 2 {
        (pos.0 as int, pos.1 + 1, pos.2 as int)
    } else if i == 3 {
        (pos.0 as int, pos.1 - 1, pos.2 as int)
    } else if i == 4 {
        (pos.0 as int, pos.1 as int, pos.2 + 1)
    } else {
        (pos.0 as int, pos.1 as int, pos.2 - 1)
    }
}

/// The `i`-th neighbour as a chunk position (see `neighbor_at`).
pub open spec fn neighbor_coord(pos: ChunkCoord, i: int) -> ChunkCoord {
    let n = neighbor_at(pos, i);
    (n.0 as i32, n.1 as i32, n.2 as i32)
}

/// Whether no coordinate is at an end of `i32`.
pub open spec fn inner_coord(pos: ChunkCoord) -> bool {
    i32::MIN < pos.0 < i32::MAX && i32::MIN < pos.1 < i32::MAX && i32::MIN < pos.2 < i32::MAX
}

/// The six chunks sharing a face with `pos` (see `neighbor_at`).
pub fn chunk_neighbors(pos: ChunkCoord) -> (r: [ChunkCoord; 6])
    requires
        inner_coord(pos),
    ensures
        forall|i: int| 0 <= i < 6 ==> {
            let n = #[trigger] r@[i];
            &&& (n.0 as int, n.1 as int, n.2 as int) == neighbor_at(pos, i)
            &&& n == neighbor_coord(pos, i)
        },
{
    let (x, y, z) = pos;
    [(x + 1, y, z), (x - 1, y, z), (x, y + 1, z), (x, y - 1, z), (x, y, z + 1), (x, y, z - 1)]
}

/// Queues a mesh for one chunk. Nothing happens when the chunk does not
/// exist. A modified chunk first loses its mesh states, so that it is
/// meshed again; then the chunk joins the mesh queue unless it is already
/// waiting or being meshed. Returns whether a mesh request is to be sent.
pub fn request_mesh_single(tracker: &mut LocalChunkTracker, pos: ChunkCoord, priority: MeshPriority, chunk_exists: bool) -> (send: bool)
    requires
        old(tracker).wf(),
    ensures
        final(tracker).wf(),
        LocalChunkTracker::same_generation_sets(*old(tracker), *final(tracker)),
        !chunk_exists ==> !send && LocalChunkTracker::same_mesh_sets(*old(tracker), *final(tracker)),
        chunk_exists && priority == MeshPriority::Modified ==> send,
        chunk_exists ==> {
            let cleared = priority == MeshPriority::Modified;
            let waiting = if cleared { old(tracker).pending_mesh_view().remove(pos) } else { old(tracker).pending_mesh_view() };
            let meshing = if cleared { old(tracker).meshing_view().remove(pos) } else { old(tracker).meshing_view() };
            let meshed = if cleared { old(tracker).meshed_view().remove(pos) } else { old(tracker).meshed_view() };
            &&& send == !(waiting.contains(pos) || meshing.contains(pos))
            &&& final(tracker).pending_mesh_view() == if send { waiting.insert(pos) } else { waiting }
            &&& final(tracker).meshing_view() == meshing
            &&& final(tracker).meshed_view() == meshed
        },
{
    if !chunk_exists {
        return false;
    }
    if priority == MeshPriority::Modified {
        tracker.clear_mesh_state(pos);
    }
    if tracker.is_meshing_or_pending(&pos) {
        false
    } else {
        tracker.mark_pending_mesh_direct(pos);
        true
    }
}

/// What to do with a finished chunk mesh.
#[derive(Clone, Copy, PartialEq, Eq, Debug, Structural)]
pub enum MeshResultAction {
    /// The mesh is empty: drop the chunk's cached mesh.
    DropMesh,
    /// Upload the mesh, replacing the chunk's cached one.
    Upload,
    /// The mesh is too large to upload: keep the cached one.
    Skip,
}

/// Meshes of this many vertices or more are not uploaded.
pub const MAX_MESH_VERTICES: usize = 200000;

/// Records that the chunk's mesh is done, and says what to do with a mesh of
/// `vertex_count` vertices: drop it when empty, upload it when under
/// `MAX_MESH_VERTICES`, skip it otherwise.
pub fn finish_mesh(tracker: &mut LocalChunkTracker, pos: ChunkCoord, vertex_count: usize) -> (a: MeshResultAction)
    requires
        old(tracker).wf(),
    ensures
        final(tracker).wf(),
        final(tracker).pending_mesh_view() == old(tracker).pending_mesh_view().remove(pos),
        final(tracker).meshing_view() == old(tracker).meshing_view().remove(pos),
        final(tracker).meshed_view() == old(tracker).meshed_view().insert(pos),
        LocalChunkTracker::same_generation_sets(*old(tracker), *final(tracker)),
        a == if vertex_count == 0 {
            MeshResultAction::DropMesh
        } else if vertex_count < MAX_MESH_VERTICES {
            MeshResultAction::Upload
        } else {
            MeshResultAction::Skip
        },
{
    tracker.mark_meshed(pos);
    if vertex_count == 0 {
        MeshResultAction::DropMesh
    } else if vertex_count < MAX_MESH_VERTICES {
        MeshResultAction::Upload
    } else {
        MeshResultAction::Skip
    }
}

/// Adds a newly arrived chunk to the mesh requests of this tick, with those
/// of its six neighbours that lie within the world's height and exist (so
/// that their border faces are rebuilt).
pub fn queue_chunk_and_neighbors<F: Fn(ChunkCoord) -> bool>(pending: &mut ChunkSet, pos: ChunkCoord, chunk_exists: F)
    requires
        old(pending).wf(),
        inner_coord(pos),
        forall|p: ChunkCoord| call_requires(chunk_exists, (p,)),
    ensures
        final(pending).wf(),
        final(pending).view_set().contains(pos),
        forall|p: ChunkCoord| old(pending).view_set().contains(p) ==> #[trigger] final(pending).view_set().contains(p),
        forall|p: ChunkCoord| #[trigger] final(pending).view_set().contains(p) ==> {
            ||| old(pending).view_set().contains(p)
            ||| p == pos
            ||| exists|i: int| 0 <= i < 6 && #[trigger] neighbor_coord(pos, i) == p
                && within_height(p) && call_ensures(chunk_exists, (p,), true)
        },
        forall|i: int| 0 <= i < 6 && within_height(#[trigger] neighbor_coord(pos, i))
            && !final(pending).view_set().contains(neighbor_coord(pos, i))
            ==> call_ensures(chunk_exists, (neighbor_coord(pos, i),), false),
{
    pending.insert(pos);
    let ns = chunk_neighbors(pos);
    let mut i: usize = 0;
    while i < 6
        invariant
            i <= 6,
            pending.wf(),
            forall|q: ChunkCoord| call_requires(chunk_exists, (q,)),
            forall|k: int| 0 <= k < 6 ==> #[trigger] ns@[k] == neighbor_coord(pos, k),
            pending.view_set().contains(pos),
            forall|p: ChunkCoord| old(pending).view_set().contains(p) ==> #[trigger] pending.view_set().contains(p),
            forall|p: ChunkCoord| #[trigger] pending.view_set().contains(p) ==> {
                ||| old(pending).view_set().contains(p)
                ||| p == pos
                ||| exists|k: int| 0 <= k < 6 && #[trigger] neighbor_coord(pos, k) == p
                    && within_height(p) && call_ensures(chunk_exists, (p,), true)
            },
            forall|k: int| 0 <= k < i && within_height(#[trigger] ns@[k]) && !pending.view_set().contains(ns@[k])
                ==> call_ensures(chunk_exists, (ns@[k],), false),
        decreases 6 - i,
    {
        let n = ns[i];
        if 0 <= n.1 && n.1 < CHUNK_ROWS {
            let e = chunk_exists(n);
            if e {
                pending.insert(n);
                assert(neighbor_coord(pos, i as int) == n);
            }
        }
        i = i + 1;
    }
    assert forall|k: int| 0 <= k < 6 && within_height(#[trigger] neighbor_coord(pos, k))
        && !pending.view_set().contains(neighbor_coord(pos, k))
        implies call_ensures(chunk_exists, (neighbor_coord(pos, k),), false) by {
        assert(ns@[k] == neighbor_coord(pos, k));
    }
}

/// The chunk that holds a world voxel position.
pub open spec fn chunk_of_voxel(x: i32, y: i32, z: i32) -> ChunkCoord {
    ((x as int / 16) as i32, (y as int / 16) as i32, (z as int / 16) as i32)
}

/// The one-chunk list `[c]` when `cond` holds, else the empty list.
pub open spec fn listed_if(cond: bool, c: ChunkCoord) -> Seq<ChunkCoord> {
    if cond {
        seq![c]
    } else {
        Seq::empty()
    }
}

/// The neighbouring chunks whose meshes show a voxel: the chunk across
/// each face of its own chunk that the voxel touches, in the order -x, +x,
/// -y, +y, -z, +z.
pub open spec fn border_neighbors(x: i32, y: i32, z: i32) -> Seq<ChunkCoord> {
    let c = chunk_of_voxel(x, y, z);
    listed_if(x as int % 16 == 0, ((c.0 - 1) as i32, c.1, c.2))
        + listed_if(x as int % 16 == 15, ((c.0 + 1) as i32, c.1, c.2))
        + listed_if(y as int % 16 == 0, (c.0, (c.1 - 1) as i32, c.2))
        + listed_if(y as int % 16 == 15, (c.0, (c.1 + 1) as i32, c.2))
        + listed_if(z as int % 16 == 0, (c.0, c.1, (c.2 - 1) as i32))
        + listed_if(z as int % 16 == 15, (c.0, c.1, (c.2 + 1) as i32))
}

/// The chunks that an edit of the voxel at a world position touches: the
/// chunk that holds it, and the neighbours across the chunk faces it lies on.
pub fn voxel_edit_chunks(x: i32, y: i32, z: i32) -> (r: (ChunkCoord, Vec<ChunkCoord>))
    ensures
        r.0 == chunk_of_voxel(x, y, z),
        r.1@ == border_neighbors(x, y, z),
{
    let cx = chunk_coord_of(x);
    let cy = chunk_coord_of(y);
    let cz = chunk_coord_of(z);
    let lx = local_coord_of(x);
    let ly = local_coord_of(y);
    let lz = local_coord_of(z);
    proof {
        assert(-134217728 <= cx <= 134217727) by (nonlinear_arith)
            requires cx == x as int / 16, i32::MIN <= x <= i32::MAX;
        assert(-134217728 <= cy <= 134217727) by (nonlinear_arith)
            requires cy == y as int / 16, i32::MIN <= y <= i32::MAX;
        assert(-134217728 <= cz <= 134217727) by (nonlinear_arith)
            requires cz == z as int / 16, i32::MIN <= z <= i32::MAX;
    }
    let c = (cx, cy, cz);
    let mut n: Vec<ChunkCoord> = Vec::new();
    let ghost s0 = n@;
    if lx == 0 {
        n.push((cx - 1, cy, cz));
    }
    assert(n@ =~= s0 + listed_if(x as int % 16 == 0, ((c.0 - 1) as i32, c.1, c.2)));
    let ghost s1 = n@;
    if lx == 15 {
        n.push((cx + 1, cy, cz));
    }
    assert(n@ =~= s1 + listed_if(x as int % 16 == 15, ((c.0 + 1) as i32, c.1, c.2)));
    let ghost s2 = n@;
    if ly == 0 {
        n.push((cx, cy - 1, cz));
    }
    assert(n@ =~= s2 + listed_if(y as int % 16 == 0, (c.0, (c.1 - 1) as i32, c.2)));
    let ghost s3 = n@;
    if ly == 15 {
        n.push((cx, cy + 1, cz));
    }
    assert(n@ =~= s3 + listed_if(y as int % 16 == 15, (c.0, (c.1 + 1) as i32, c.2)));
    let ghost s4 = n@;
    if lz == 0 {
        n.push((cx, cy, cz - 1));
    }
    assert(n@ =~= s4 + listed_if(z as int % 16 == 0, (c.0, c.1, (c.2 - 1) as i32)));
    let ghost s5 = n@;
    if lz == 15 {
        n.push((cx, cy, cz + 1));
    }
    assert(n@ =~= s5 + listed_if(z as int % 16 == 15, (c.0, c.1, (c.2 + 1) as i32)));
    (c, n)
}

/// Whether two chunks share a face: they differ by one in exactly one
/// coordinate.
pub open spec fn shares_face(a: ChunkCoord, b: ChunkCoord) -> bool {
    let d0 = a.0 - b.0;
    let d1 = a.1 - b.1;
    let d2 = a.2 - b.2;
    ||| (d0 == 1 || d0 == -1) && d1 == 0 && d2 == 0
    ||| d0 == 0 && (d1 == 1 || d1 == -1) && d2 == 0
    ||| d0 == 0 && d1 == 0 && (d2 == 1 || d2 == -1)
}

/// A block edit reaches at most three other chunks, each sharing a face
/// with the edited chunk; an edit away from every chunk face reaches none.
pub proof fn law_edit_reaches_face_neighbors(x: i32, y: i32, z: i32)
    ensures
        border_neighbors(x, y, z).len() <= 3,
        forall|i: int| 0 <= i < border_neighbors(x, y, z).len()
            ==> shares_face(#[trigger] border_neighbors(x, y, z)[i], chunk_of_voxel(x, y, z)),
        (0 < x as int % 16 < 15 && 0 < y as int % 16 < 15 && 0 < z as int % 16 < 15)
            ==> border_neighbors(x, y, z).len() == 0,
{
    let c = chunk_of_voxel(x, y, z);
    assert(-134217728 <= c.0 <= 134217727) by (nonlinear_arith)
        requires c.0 == x as int / 16, i32::MIN <= x <= i32::MAX;
    assert(-134217728 <= c.1 <= 134217727) by (nonlinear_arith)
        requires c.1 == y as int / 16, i32::MIN <= y <= i32::MAX;
    assert(-134217728 <= c.2 <= 134217727) by (nonlinear_arith)
        requires c.2 == z as int / 16, i32::MIN <= z <= i32::MAX;
}

/// The chunk that holds a world point, in mathematical integers.
pub open spec fn chunk_of_point(p: (int, int, int)) -> (int, int, int) {
    (p.0 / 16, p.1 / 16, p.2 / 16)
}

/// A chunk position in mathematical integers.
pub open spec fn coord_int(c: ChunkCoord) -> (int, int, int) {
    (c.0 as int, c.1 as int, c.2 as int)
}

/// The voxel one step from `(x, y, z)` across face `f`.
pub open spec fn stepped(x: i32, y: i32, z: i32, f: VoxelFace) -> (int, int, int) {
    let n = face_normal(f);
    (x + n.0, y + n.1, z + n.2)
}

/// x, y and z step by one across chunk borders exactly at the ends of the
/// chunk.
proof fn lemma_step_chunk(v: int)
    ensures
        (v - 1) / 16 == if v % 16 == 0 { v / 16 - 1 } else { v / 16 },
        (v + 1) / 16 == if v % 16 == 15 { v / 16 + 1 } else { v / 16 },
{
}

/// The neighbours an edit reaches are exactly the other chunks that hold a
/// voxel next to the edited one: each listed chunk holds the voxel one step
/// across some face of it, and every such chunk other than the edited
/// voxel's own is listed. The edited chunk is the one holding the voxel.
pub proof fn law_edit_reaches_chunks_of_adjacent_voxels(x: i32, y: i32, z: i32)
    ensures
        coord_int(chunk_of_voxel(x, y, z)) == chunk_of_point((x as int, y as int, z as int)),
        forall|i: int| #![trigger border_neighbors(x, y, z)[i]] 0 <= i < border_neighbors(x, y, z).len() ==> exists|f: VoxelFace|
            #![trigger stepped(x, y, z, f)]
            coord_int(border_neighbors(x, y, z)[i]) == chunk_of_point(stepped(x, y, z, f))
                && chunk_of_point(stepped(x, y, z, f)) != chunk_of_point((x as int, y as int, z as int)),
        forall|f: VoxelFace| chunk_of_point(#[trigger] stepped(x, y, z, f)) != chunk_of_point((x as int, y as int, z as int))
            ==> exists|i: int| #![trigger border_neighbors(x, y, z)[i]] 0 <= i < border_neighbors(x, y, z).len()
                && coord_int(border_neighbors(x, y, z)[i]) == chunk_of_point(stepped(x, y, z, f)),
{
    let c = chunk_of_voxel(x, y, z);
    assert(-134217728 <= c.0 <= 134217727) by (nonlinear_arith)
        requires c.0 == x as int / 16, i32::MIN <= x <= i32::MAX;
    assert(-134217728 <= c.1 <= 134217727) by (nonlinear_arith)
        requires c.1 == y as int / 16, i32::MIN <= y <= i32::MAX;
    assert(-134217728 <= c.2 <= 134217727) by (nonlinear_arith)
        requires c.2 == z as int / 16, i32::MIN <= z <= i32::MAX;
    lemma_step_chunk(x as int);
    lemma_step_chunk(y as int);
    lemma_step_chunk(z as int);
    let p = (x as int, y as int, z as int);
    let b = border_neighbors(x, y, z);
    let e = stepped(x, y, z, VoxelFace::East);
    let w = stepped(x, y, z, VoxelFace::West);
    let t = stepped(x, y, z, VoxelFace::Top);
    let bo = stepped(x, y, z, VoxelFace::Bottom);
    let n = stepped(x, y, z, VoxelFace::North);
    let so = stepped(x, y, z, VoxelFace::South);
    assert forall|i: int| #![trigger b[i]] 0 <= i < b.len() implies exists|f: VoxelFace|
        #![trigger stepped(x, y, z, f)]
        coord_int(b[i]) == chunk_of_point(stepped(x, y, z, f))
            && chunk_of_point(stepped(x, y, z, f)) != chunk_of_point(p) by {
        let bi = coord_int(b[i]);
        assert(bi == chunk_of_point(w) || bi == chunk_of_point(e) || bi == chunk_of_point(bo)
            || bi == chunk_of_point(t) || bi == chunk_of_point(so) || bi == chunk_of_point(n));
    }
    assert forall|f: VoxelFace| chunk_of_point(#[trigger] stepped(x, y, z, f)) != chunk_of_point(p)
        implies exists|i: int| #![trigger b[i]] 0 <= i < b.len() && coord_int(b[i]) == chunk_of_point(stepped(x, y, z, f)) by {
        let l0 = listed_if(x as int % 16 == 0, ((c.0 - 1) as i32, c.1, c.2));
        let l1 = listed_if(x as int % 16 == 15, ((c.0 + 1) as i32, c.1, c.2));
        let l2 = listed_if(y as int % 16 == 0, (c.0, (c.1 - 1) as i32, c.2));
        let l3 = listed_if(y as int % 16 == 15, (c.0, (c.1 + 1) as i32, c.2));
        let l4 = listed_if(z as int % 16 == 0, (c.0, c.1, (c.2 - 1) as i32));
        let l5 = listed_if(z as int % 16 == 15, (c.0, c.1, (c.2 + 1) as i32));
        let k0 = l0.len() as int;
        let k1 = k0 + l1.len();
        let k2 = k1 + l2.len();
        let k3 = k2 + l3.len();
        let k4 = k3 + l4.len();
        assert(b == l0 + l1 + l2 + l3 + l4 + l5);
        match f {
            VoxelFace::West => { assert(b[0] == l0[0]); },
            VoxelFace::East => { assert(b[k0] == l1[0]); },
            VoxelFace::Bottom => { assert(b[k1] == l2[0]); },
            VoxelFace::Top => { assert(b[k2] == l3[0]); },
            VoxelFace::South => { assert(b[k3] == l4[0]); },
            VoxelFace::North => { assert(b[k4] == l5[0]); },
        }
    }
}

/// The chunks to mesh again after a block edit: the edited chunk and the
/// neighbours that the edit touches, each once, keeping those within the
/// world's height.
pub fn remesh_targets(modified: ChunkCoord, neighbors: &Vec<ChunkCoord>) -> (t: ChunkSet)
    ensures
        t.wf(),
        forall|p: ChunkCoord| #[trigger] t.view_set().contains(p)
            <==> within_height(p) && (p == modified || neighbors@.contains(p)),
{
    let mut t = ChunkSet::new();
    if 0 <= modified.1 && modified.1 < CHUNK_ROWS {
        t.insert(modified);
    }
    let mut i: usize = 0;
    while i < neighbors.len()
        invariant
            i <= neighbors.len(),
            t.wf(),
            forall|p: ChunkCoord| #[trigger] t.view_set().contains(p)
                <==> within_height(p) && (p == modified || neighbors@.take(i as int).contains(p)),
        decreases neighbors.len() - i,
    {
        let n = neighbors[i];
        if 0 <= n.1 && n.1 < CHUNK_ROWS {
            t.insert(n);
        }
        proof {
            assert(neighbors@.take(i as int + 1) =~= neighbors@.take(i as int).push(n));
            assert forall|p: ChunkCoord| neighbors@.take(i as int + 1).contains(p)
                <==> (neighbors@.take(i as int).contains(p) || p == n) by {
                if p == n {
                    assert(neighbors@.take(i as int + 1)[i as int] == n);
                }
                if neighbors@.take(i as int + 1).contains(p) && p != n {
                    let k = choose|k: int| 0 <= k < i + 1 && #[trigger] neighbors@.take(i as int + 1)[k] == p;
                    assert(neighbors@.take(i as int)[k] == p);
                }
                if neighbors@.take(i as int).contains(p) {
                    let k = choose|k: int| 0 <= k < i && #[trigger] neighbors@.take(i as int)[k] == p;
                    assert(neighbors@.take(i as int + 1)[k] == p);
                }
            }
        }
        i = i + 1;
    }
    assert(neighbors@.take(neighbors.len() as int) =~= neighbors@);
    t
}

/// Whether the chunk is neither waiting for nor undergoing meshing.
pub open spec fn idle_for_mesh(t: LocalChunkTracker, p: ChunkCoord) -> bool {
    !t.pending_mesh_view().contains(p) && !t.meshing_view().contains(p)
}

/// Sends this tick's mesh requests: each requested chunk that lies within
/// the world's height, exists, and is neither waiting for nor undergoing
/// meshing joins the mesh queue and is returned, in request order, to be
/// sent. The requests are emptied.
pub fn flush_mesh_requests<F: Fn(ChunkCoord) -> bool>(
    pending: &mut ChunkSet,
    tracker: &mut LocalChunkTracker,
    chunk_exists: F,
) -> (sent: Vec<ChunkCoord>)
    requires
        old(pending).wf(),
        old(tracker).wf(),
        forall|p: ChunkCoord| call_requires(chunk_exists, (p,)),
    ensures
        final(pending).wf(),
        final(pending).view_set() == Set::<ChunkCoord>::empty(),
        final(tracker).wf(),
        no_duplicates(sent@),
        forall|i: int| 0 <= i < sent.len() ==> {
            let p = #[trigger] sent@[i];
            &&& old(pending).view_set().contains(p)
            &&& within_height(p)
            &&& call_ensures(chunk_exists, (p,), true)
            &&& idle_for_mesh(*old(tracker), p)
        },
        forall|p: ChunkCoord| #[trigger] old(pending).view_set().contains(p) && within_height(p)
            && idle_for_mesh(*old(tracker), p) && !sent@.contains(p) ==> call_ensures(chunk_exists, (p,), false),
        final(tracker).pending_mesh_view() == old(tracker).pending_mesh_view().union(sent@.to_set()),
        final(tracker).meshing_view() == old(tracker).meshing_view(),
        final(tracker).meshed_view() == old(tracker).meshed_view(),
        LocalChunkTracker::same_generation_sets(*old(tracker), *final(tracker)),
{
    let entries = pending.to_vec();
    proof {
        old(pending).lemma_entries();
    }
    pending.clear();
    let ghost t0 = *tracker;
    let mut sent: Vec<ChunkCoord> = Vec::new();
    let mut i: usize = 0;
    while i < entries.len()
        invariant
            i <= entries.len(),
            entries@ == old(pending).entries(),
            no_duplicates(entries@),
            entries@.to_set() == old(pending).view_set(),
            t0 == *old(tracker),
            tracker.wf(),
            forall|q: ChunkCoord| call_requires(chunk_exists, (q,)),
            no_duplicates(sent@),
            forall|k: int| 0 <= k < sent.len() ==> {
                let p = #[trigger] sent@[k];
                &&& entries@.take(i as int).contains(p)
                &&& within_height(p)
                &&& call_ensures(chunk_exists, (p,), true)
                &&& idle_for_mesh(t0, p)
            },
            forall|k: int| 0 <= k < i && within_height(#[trigger] entries@[k]) && idle_for_mesh(t0, entries@[k])
                && !sent@.contains(entries@[k]) ==> call_ensures(chunk_exists, (entries@[k],), false),
            tracker.pending_mesh_view() == t0.pending_mesh_view().union(sent@.to_set()),
            tracker.meshing_view() == t0.meshing_view(),
            tracker.meshed_view() == t0.meshed_view(),
            LocalChunkTracker::same_generation_sets(t0, *tracker),
        decreases entries.len() - i,
    {
        let p = entries[i];
        proof {
            assert(entries@.take(i as int + 1) =~= entries@.take(i as int).push(p));
            assert(!entries@.take(i as int).contains(p)) by {
                if entries@.take(i as int).contains(p) {
                    let k = choose|k: int| 0 <= k < i && #[trigger] entries@.take(i as int)[k] == p;
                    assert(entries@[k] == entries@[i as int]);
                }
            }
            assert(!sent@.contains(p)) by {
                if sent@.contains(p) {
                    let k = choose|k: int| 0 <= k < sent.len() && #[trigger] sent@[k] == p;
                    assert(entries@.take(i as int).contains(sent@[k]));
                }
            }
            assert forall|k: int| 0 <= k < sent.len() implies entries@.take(i as int + 1).contains(#[trigger] sent@[k]) by {
                let q = sent@[k];
                assert(entries@.take(i as int).contains(q));
                let j = choose|j: int| 0 <= j < i && #[trigger] entries@.take(i as int)[j] == q;
                assert(entries@.take(i as int + 1)[j] == q);
            }
        }
        let in_height = 0 <= p.1 && p.1 < CHUNK_ROWS;
        let e = if in_height { chunk_exists(p) } else { false };
        let busy = tracker.is_meshing_or_pending(&p);
        proof {
            assert(busy == !idle_for_mesh(t0, p)) by {
                assert(!sent@.to_set().contains(p));
            }
        }
        if in_height && e && !busy {
            tracker.mark_pending_mesh_direct(p);
            let ghost before = sent@;
            sent.push(p);
            proof {
                assert forall|x: ChunkCoord| sent@.to_set().contains(x) <==> before.to_set().insert(p).contains(x) by {
                    if sent@.contains(x) {
                        let k = choose|k: int| 0 <= k < sent@.len() && #[trigger] sent@[k] == x;
                        if k < before.len() {
                            assert(before[k] == x);
                        }
                    }
                    if before.contains(x) {
                        let k = choose|k: int| 0 <= k < before.len() && #[trigger] before[k] == x;
                        assert(sent@[k] == x);
                    }
                    if x == p {
                        assert(sent@[before.len() as int] == p);
                    }
                }
                assert(sent@.to_set() =~= before.to_set().insert(p));
                assert(entries@.take(i as int + 1)[i as int] == p);
                assert forall|a: int, b: int| 0 <= a < b < sent@.len() implies sent@[a] != sent@[b] by {
                    if b == sent@.len() - 1 {
                        assert(sent@[a] == before[a]);
                        if before[a] == p {
                            assert(before.contains(p));
                        }
                    }
                }
                assert forall|k: int| 0 <= k < i + 1 && within_height(#[trigger] entries@[k]) && idle_for_mesh(t0, entries@[k])
                    && !sent@.contains(entries@[k]) implies call_ensures(chunk_exists, (entries@[k],), false) by {
                    if k == i {
                        assert(sent@[sent@.len() - 1] == p);
                    } else {
                        if before.contains(entries@[k]) {
                            let j = choose|j: int| 0 <= j < before.len() && #[trigger] before[j] == entries@[k];
                            assert(sent@[j] == entries@[k]);
                        }
                    }
                }
            }
        }
        i = i + 1;
    }
    proof {
        assert(entries@.take(entries.len() as int) =~= entries@);
        assert forall|p: ChunkCoord| #[trigger] old(pending).view_set().contains(p) && within_height(p)
            && idle_for_mesh(*old(tracker), p) && !sent@.contains(p) implies call_ensures(chunk_exists, (p,), false) by {
            assert(entries@.contains(p));
            let k = choose|k: int| 0 <= k < entries@.len() && #[trigger] entries@[k] == p;
            assert(entries@[k] == p);
        }
    }
    sent
}

/// How far, in chunks, generation reaches around the player horizontally.
pub const LOAD_RADIUS: i32 = 4;

/// How far, in chunks, generation reaches around the player vertically.
pub const VERTICAL_LOAD_RADIUS: i32 = 2;

/// Whether `p` is within the generation reach of the player's chunk `c`.
pub open spec fn in_load_range(c: ChunkCoord, p: ChunkCoord) -> bool {
    -LOAD_RADIUS <= p.0 - c.0 <= LOAD_RADIUS && -LOAD_RADIUS <= p.2 - c.2 <= LOAD_RADIUS
        && -VERTICAL_LOAD_RADIUS <= p.1 - c.1 <= VERTICAL_LOAD_RADIUS
}

/// Whether the chunk still needs generating: within the world's height,
/// and neither generated nor waiting for or undergoing generation.
pub open spec fn wants_generation(t: LocalChunkTracker, p: ChunkCoord) -> bool {
    within_height(p) && !t.generated_view().contains(p) && !t.pending_generation_view().contains(p)
        && !t.generating_view().contains(p)
}

/// The visiting rank of `p` around `c`: by x offset, then z, then y.
pub open spec fn load_rank(c: ChunkCoord, p: ChunkCoord) -> int {
    ((p.0 - c.0 + LOAD_RADIUS) * 9 + (p.2 - c.2 + LOAD_RADIUS)) * 5 + (p.1 - c.1 + VERTICAL_LOAD_RADIUS)
}

/// Whether generation can reach all around `c` without leaving `i32`.
pub open spec fn load_center_ok(c: ChunkCoord) -> bool {
    i32::MIN + LOAD_RADIUS <= c.0 <= i32::MAX - LOAD_RADIUS && i32::MIN + LOAD_RADIUS <= c.2 <= i32::MAX - LOAD_RADIUS
        && i32::MIN + VERTICAL_LOAD_RADIUS <= c.1 <= i32::MAX - VERTICAL_LOAD_RADIUS
}

/// The chunks around the player's chunk `center` that still need
/// generating (see `wants_generation`), each once, by x offset, then z,
/// then y.
pub fn generation_candidates(tracker: &LocalChunkTracker, center: ChunkCoord) -> (r: Vec<ChunkCoord>)
    requires
        tracker.wf(),
        load_center_ok(center),
    ensures
        no_duplicates(r@),
        forall|p: ChunkCoord| r@.contains(p) <==> in_load_range(center, p) && wants_generation(*tracker, p),
{
    let mut r: Vec<ChunkCoord> = Vec::new();
    let mut dx: i32 = -LOAD_RADIUS;
    while dx <= LOAD_RADIUS
        invariant
            load_center_ok(center),
            -LOAD_RADIUS <= dx <= LOAD_RADIUS + 1,
            forall|a: int, b: int| 0 <= a < b < r.len() ==> load_rank(center, #[trigger] r@[a]) < load_rank(center, #[trigger] r@[b]),
            forall|k: int| 0 <= k < r.len() ==> in_load_range(center, #[trigger] r@[k]) && wants_generation(*tracker, r@[k])
                && load_rank(center, r@[k]) < (dx + LOAD_RADIUS) * 45,
            forall|p: ChunkCoord| in_load_range(center, p) && wants_generation(*tracker, p)
                && load_rank(center, p) < (dx + LOAD_RADIUS) * 45 ==> #[trigger] r@.contains(p),
        decreases LOAD_RADIUS + 1 - dx,
    {
        let mut dz: i32 = -LOAD_RADIUS;
        while dz <= LOAD_RADIUS
            invariant
                load_center_ok(center),
                -LOAD_RADIUS <= dx <= LOAD_RADIUS,
                -LOAD_RADIUS <= dz <= LOAD_RADIUS + 1,
                forall|a: int, b: int| 0 <= a < b < r.len() ==> load_rank(center, #[trigger] r@[a]) < load_rank(center, #[trigger] r@[b]),
                forall|k: int| 0 <= k < r.len() ==> in_load_range(center, #[trigger] r@[k]) && wants_generation(*tracker, r@[k])
                    && load_rank(center, r@[k]) < (dx + LOAD_RADIUS) * 45 + (dz + LOAD_RADIUS) * 5,
                forall|p: ChunkCoord| in_load_range(center, p) && wants_generation(*tracker, p)
                    && load_rank(center, p) < (dx + LOAD_RADIUS) * 45 + (dz + LOAD_RADIUS) * 5 ==> #[trigger] r@.contains(p),
            decreases LOAD_RADIUS + 1 - dz,
        {
            let mut dy: i32 = -VERTICAL_LOAD_RADIUS;
            while dy <= VERTICAL_LOAD_RADIUS
                invariant
                    load_center_ok(center),
                    -LOAD_RADIUS <= dx <= LOAD_RADIUS,
                    -LOAD_RADIUS <= dz <= LOAD_RADIUS,
                    -VERTICAL_LOAD_RADIUS <= dy <= VERTICAL_LOAD_RADIUS + 1,
                    forall|a: int, b: int| 0 <= a < b < r.len() ==> load_rank(center, #[trigger] r@[a]) < load_rank(center, #[trigger] r@[b]),
                    forall|k: int| 0 <= k < r.len() ==> in_load_range(center, #[trigger] r@[k]) && wants_generation(*tracker, r@[k])
                        && load_rank(center, r@[k]) < (dx + LOAD_RADIUS) * 45 + (dz + LOAD_RADIUS) * 5 + (dy + VERTICAL_LOAD_RADIUS),
                    forall|p: ChunkCoord| in_load_range(center, p) && wants_generation(*tracker, p)
                        && load_rank(center, p) < (dx + LOAD_RADIUS) * 45 + (dz + LOAD_RADIUS) * 5 + (dy + VERTICAL_LOAD_RADIUS)
                        ==> #[trigger] r@.contains(p),
                decreases VERTICAL_LOAD_RADIUS + 1 - dy,
            {
                let p: ChunkCoord = (center.0 + dx, center.1 + dy, center.2 + dz);
                let ghost cur = (dx + LOAD_RADIUS) * 45 + (dz + LOAD_RADIUS) * 5 + (dy + VERTICAL_LOAD_RADIUS);
                assert(load_rank(center, p) == cur);
                let ghost before = r@;
                if 0 <= p.1 && p.1 < CHUNK_ROWS && !tracker.is_generating(&p) && !tracker.is_generated(&p) {
                    r.push(p);
                    proof {
                        assert forall|a: int, b: int| 0 <= a < b < r.len() implies load_rank(center, #[trigger] r@[a]) < load_rank(center, #[trigger] r@[b]) by {
                            if b == r.len() - 1 {
                                assert(r@[a] == before[a]);
                            }
                        }
                        assert forall|q: ChunkCoord| in_load_range(center, q) && wants_generation(*tracker, q)
                            && load_rank(center, q) < cur + 1 implies #[trigger] r@.contains(q) by {
                            if load_rank(center, q) == cur {
                                assert(q == p);
                                assert(r@[r.len() - 1] == p);
                            } else {
                                assert(before.contains(q));
                                let k = choose|k: int| 0 <= k < before.len() && #[trigger] before[k] == q;
                                assert(r@[k] == q);
                            }
                        }
                    }
                } else {
                    proof {
                        assert forall|q: ChunkCoord| in_load_range(center, q) && wants_generation(*tracker, q)
                            && load_rank(center, q) < cur + 1 implies #[trigger] r@.contains(q) by {
                            if load_rank(center, q) == cur {
                                assert(q == p);
                            }
                        }
                    }
                }
                dy = dy + 1;
            }
            dz = dz + 1;
        }
        dx = dx + 1;
    }
    proof {
        assert forall|a: int, b: int| 0 <= a < b < r@.len() implies r@[a] != r@[b] by {
            assert(load_rank(center, r@[a]) < load_rank(center, r@[b]));
        }
        assert forall|p: ChunkCoord| r@.contains(p) implies in_load_range(center, p) && wants_generation(*tracker, p) by {
            let k = choose|k: int| 0 <= k < r@.len() && #[trigger] r@[k] == p;
            assert(in_load_range(center, r@[k]));
        }
        assert forall|p: ChunkCoord| in_load_range(center, p) && wants_generation(*tracker, p) implies r@.contains(p) by {
            assert(load_rank(center, p) < 405);
        }
    }
    r
}

/// The chunks of `s` that a tracker in state `t` accepts for generation, in
/// the order of `s`, each once (a repeat is no longer accepted once its
/// first occurrence is queued).
pub open spec fn accepted_in_order(t: LocalChunkTracker, s: Seq<ChunkCoord>) -> Seq<ChunkCoord>
    decreases s.len(),
{
    if s.len() == 0 {
        Seq::empty()
    } else {
        let r = accepted_in_order(t, s.drop_last());
        if accepts_generation_request(t, s.last()) && !r.contains(s.last()) {
            r.push(s.last())
        } else {
            r
        }
    }
}

/// Requests generation for the first `max_count` chunks of `ordered` (the
/// caller orders them, nearest first): each chunk that the tracker accepts
/// (see `accepts_generation_request`) joins the generation queue and is
/// returned, in order, to be sent.
pub fn request_generation(tracker: &mut LocalChunkTracker, ordered: &Vec<ChunkCoord>, max_count: usize) -> (sent: Vec<ChunkCoord>)
    requires
        old(tracker).wf(),
    ensures
        final(tracker).wf(),
        no_duplicates(sent@),
        sent@ == accepted_in_order(*old(tracker), ordered@.take(if max_count < ordered.len() { max_count as int } else { ordered.len() as int })),
        ({
            let firsts = ordered@.take(if max_count < ordered.len() { max_count as int } else { ordered.len() as int });
            &&& forall|i: int| 0 <= i < sent.len() ==> firsts.contains(#[trigger] sent@[i])
                && accepts_generation_request(*old(tracker), sent@[i])
            &&& forall|p: ChunkCoord| firsts.contains(p) && accepts_generation_request(*old(tracker), p) ==> #[trigger] sent@.contains(p)
        }),
        final(tracker).pending_generation_view() == old(tracker).pending_generation_view().union(sent@.to_set()),
        final(tracker).generating_view() == old(tracker).generating_view(),
        final(tracker).generated_view() == old(tracker).generated_view(),
        LocalChunkTracker::same_mesh_sets(*old(tracker), *final(tracker)),
{
    let n: usize = if max_count < ordered.len() { max_count } else { ordered.len() };
    let ghost t0 = *tracker;
    let mut sent: Vec<ChunkCoord> = Vec::new();
    let mut i: usize = 0;
    while i < n
        invariant
            i <= n,
            n <= ordered.len(),
            n == if max_count < ordered.len() { max_count as int } else { ordered.len() as int },
            t0 == *old(tracker),
            tracker.wf(),
            no_duplicates(sent@),
            sent@ == accepted_in_order(t0, ordered@.take(i as int)),
            forall|k: int| 0 <= k < sent.len() ==> ordered@.take(i as int).contains(#[trigger] sent@[k])
                && accepts_generation_request(t0, sent@[k]),
            forall|p: ChunkCoord| ordered@.take(i as int).contains(p) && accepts_generation_request(t0, p) ==> #[trigger] sent@.contains(p),
            tracker.pending_generation_view() == t0.pending_generation_view().union(sent@.to_set()),
            tracker.generating_view() == t0.generating_view(),
            tracker.generated_view() == t0.generated_view(),
            LocalChunkTracker::same_mesh_sets(t0, *tracker),
        decreases n - i,
    {
        let p = ordered[i];
        let ghost before = sent@;
        proof {
            assert(ordered@.take(i as int + 1) =~= ordered@.take(i as int).push(p));
        }
        let mut pushed = false;
        if !tracker.is_generated(&p) && !tracker.is_generating(&p) {
            if tracker.mark_pending_generation(p) {
                sent.push(p);
                pushed = true;
                proof {
                    assert(!before.contains(p)) by {
                        if before.contains(p) {
                            let k = choose|k: int| 0 <= k < before.len() && #[trigger] before[k] == p;
                            assert(before.to_set().contains(p));
                        }
                    }
                    assert forall|x: ChunkCoord| sent@.to_set().contains(x) <==> before.to_set().insert(p).contains(x) by {
                        if sent@.contains(x) {
                            let k = choose|k: int| 0 <= k < sent@.len() && #[trigger] sent@[k] == x;
                            if k < before.len() {
                                assert(before[k] == x);
                            }
                        }
                        if before.contains(x) {
                            let k = choose|k: int| 0 <= k < before.len() && #[trigger] before[k] == x;
                            assert(sent@[k] == x);
                        }
                        if x == p {
                            assert(sent@[before.len() as int] == p);
                        }
                    }
                    assert(sent@.to_set() =~= before.to_set().insert(p));
                    assert forall|a: int, b: int| 0 <= a < b < sent@.len() implies sent@[a] != sent@[b] by {
                        if b == sent@.len() - 1 {
                            assert(sent@[a] == before[a]);
                            if before[a] == p {
                                assert(before.contains(p));
                            }
                        }
                    }
                    assert(ordered@.take(i as int + 1)[i as int] == p);
                }
            }
        }
        proof {
            if !pushed {
                assert(sent@ == before);
                assert(!accepts_generation_request(t0, p) || before.to_set().contains(p));
            } else {
                assert(sent@ == before.push(p));
            }
            assert forall|k: int| 0 <= k < sent.len() implies ordered@.take(i as int + 1).contains(#[trigger] sent@[k])
                && accepts_generation_request(t0, sent@[k]) by {
                if k < before.len() {
                    assert(sent@[k] == before[k]);
                    assert(ordered@.take(i as int).contains(before[k]));
                    let j = choose|j: int| 0 <= j < i && #[trigger] ordered@.take(i as int)[j] == before[k];
                    assert(ordered@.take(i as int + 1)[j] == before[k]);
                } else {
                    assert(ordered@.take(i as int + 1)[i as int] == p);
                }
            }
            assert forall|q: ChunkCoord| ordered@.take(i as int + 1).contains(q) && accepts_generation_request(t0, q)
                implies #[trigger] sent@.contains(q) by {
                let j = choose|j: int| 0 <= j < i + 1 && #[trigger] ordered@.take(i as int + 1)[j] == q;
                if j < i {
                    assert(ordered@.take(i as int)[j] == q);
                    assert(before.contains(q));
                    let k = choose|k: int| 0 <= k < before.len() && #[trigger] before[k] == q;
                    assert(sent@[k] == q);
                } else {
                    assert(q == p);
                    if !before.contains(p) {
                        assert(!before.to_set().contains(p));
                        assert(pushed);
                        assert(sent@[before.len() as int] == p);
                    } else {
                        let k = choose|k: int| 0 <= k < before.len() && #[trigger] before[k] == q;
                        assert(sent@[k] == q);
                    }
                }
            }
            let s1 = ordered@.take(i as int + 1);
            assert(s1.drop_last() =~= ordered@.take(i as int));
            assert(s1.last() == p);
            if pushed {
                assert(accepts_generation_request(t0, sent@[before.len() as int]));
            } else {
                if before.to_set().contains(p) {
                    assert(before.contains(p));
                }
            }
            assert(sent@ == accepted_in_order(t0, s1));
        }
        i = i + 1;
    }
    proof {
        assert(ordered@.take(n as int) =~= ordered@.take(if max_count < ordered.len() { max_count as int } else { ordered.len() as int }));
    }
    sent
}

} // verus!
