use voxl::renderer::pipeline::{
    MeshResultAction, chunk_neighbors, finish_mesh, flush_mesh_requests, generation_candidates,
    queue_chunk_and_neighbors, remesh_targets, request_generation, request_mesh_single, voxel_edit_chunks,
};
use voxl::renderer::dirty::local_coord_of;
use voxl::renderer::queue::MeshPriority;
use voxl::tracking::chunk_set::ChunkSet;
use voxl::tracking::local_tracker::LocalChunkTracker;

#[test]
fn neighbours_in_axis_order() {
    assert_eq!(
        chunk_neighbors((0, 3, 0)),
        [(1, 3, 0), (-1, 3, 0), (0, 4, 0), (0, 2, 0), (0, 3, 1), (0, 3, -1)]
    );
}

#[test]
fn single_mesh_requests() {
    let mut t = LocalChunkTracker::new();
    assert!(!request_mesh_single(&mut t, (0, 0, 0), MeshPriority::New, false));
    assert_eq!(t.pending_mesh_count(), 0);
    assert!(request_mesh_single(&mut t, (0, 0, 0), MeshPriority::New, true));
    assert!(!request_mesh_single(&mut t, (0, 0, 0), MeshPriority::New, true));
    assert_eq!(t.pending_mesh_count(), 1);
    // A modified chunk is always queued again.
    assert!(request_mesh_single(&mut t, (0, 0, 0), MeshPriority::Modified, true));
    assert_eq!(t.pending_mesh_count(), 1);
}

#[test]
fn finished_meshes() {
    let mut t = LocalChunkTracker::new();
    t.mark_pending_mesh_direct((1, 1, 1));
    assert_eq!(finish_mesh(&mut t, (1, 1, 1), 0), MeshResultAction::DropMesh);
    assert_eq!(t.pending_mesh_count(), 0);
    assert_eq!(finish_mesh(&mut t, (1, 1, 1), 36), MeshResultAction::Upload);
    assert_eq!(finish_mesh(&mut t, (1, 1, 1), 199999), MeshResultAction::Upload);
    assert_eq!(finish_mesh(&mut t, (1, 1, 1), 200000), MeshResultAction::Skip);
    assert!(!t.is_meshing_or_pending(&(1, 1, 1)));
}

#[test]
fn new_chunk_brings_existing_neighbours() {
    let mut pending = ChunkSet::new();
    queue_chunk_and_neighbors(&mut pending, (0, 0, 0), |p: (i32, i32, i32)| p.0 >= 0);
    // (-1,0,0) does not exist and (0,-1,0) is below the world.
    assert_eq!(pending.to_vec(), vec![(0, 0, 0), (1, 0, 0), (0, 1, 0), (0, 0, 1), (0, 0, -1)]);
}

#[test]
fn flushing_sends_each_waiting_chunk_once() {
    let mut pending = ChunkSet::new();
    pending.insert((0, 0, 0));
    pending.insert((1, 0, 0));
    pending.insert((2, 9, 0));
    pending.insert((3, 0, 0));
    let mut t = LocalChunkTracker::new();
    t.mark_pending_mesh_direct((1, 0, 0));
    let sent = flush_mesh_requests(&mut pending, &mut t, |p: (i32, i32, i32)| p.0 != 3);
    assert_eq!(sent, vec![(0, 0, 0)]);
    assert!(pending.is_empty());
    assert!(t.is_meshing_or_pending(&(0, 0, 0)));
    assert_eq!(t.pending_mesh_count(), 2);
}

#[test]
fn block_edits_remesh_touched_chunks_once() {
    let t = remesh_targets((0, 0, 0), &vec![(1, 0, 0), (0, -1, 0), (1, 0, 0), (0, 0, 1)]);
    assert_eq!(t.to_vec(), vec![(0, 0, 0), (1, 0, 0), (0, 0, 1)]);
    let top = remesh_targets((0, 8, 0), &vec![(0, 7, 0)]);
    assert_eq!(top.to_vec(), vec![(0, 7, 0)]);
}

#[test]
fn candidates_surround_the_player() {
    let mut t = LocalChunkTracker::new();
    let all = generation_candidates(&t, (0, 3, 0));
    assert_eq!(all.len(), 9 * 9 * 5);
    assert_eq!(all[0], (-4, 1, -4));
    let low = generation_candidates(&t, (0, 0, 0));
    assert_eq!(low.len(), 9 * 9 * 3);
    t.mark_pending_generation((0, 0, 0));
    t.mark_generated((1, 0, 0));
    let fewer = generation_candidates(&t, (0, 0, 0));
    assert_eq!(fewer.len(), 9 * 9 * 3 - 2);
    assert!(!fewer.contains(&(0, 0, 0)));
    assert!(!fewer.contains(&(1, 0, 0)));
}

#[test]
fn generation_requests_are_capped() {
    let mut t = LocalChunkTracker::new();
    t.mark_generated((5, 0, 0));
    let ordered = vec![(5, 0, 0), (1, 0, 0), (1, 0, 0), (2, 0, 0), (3, 0, 0)];
    let sent = request_generation(&mut t, &ordered, 4);
    assert_eq!(sent, vec![(1, 0, 0), (2, 0, 0)]);
    assert_eq!(t.pending_generation_count(), 2);
    let again = request_generation(&mut t, &ordered, 10);
    assert_eq!(again, vec![(3, 0, 0)]);
}

#[test]
fn local_coordinates_wrap_below_zero() {
    assert_eq!(local_coord_of(0), 0);
    assert_eq!(local_coord_of(17), 1);
    assert_eq!(local_coord_of(-1), 15);
    assert_eq!(local_coord_of(-16), 0);
    assert_eq!(local_coord_of(-17), 15);
}

#[test]
fn edit_inside_a_chunk_reaches_no_neighbour() {
    assert_eq!(voxel_edit_chunks(5, 20, 7), ((0, 1, 0), vec![]));
}

#[test]
fn edit_on_chunk_faces_reaches_the_neighbours_across() {
    // x = 16 is the low x face of chunk 1; y = -1 is the high y face of chunk -1;
    // z = 31 is the high z face of chunk 1.
    assert_eq!(voxel_edit_chunks(16, -1, 31), ((1, -1, 1), vec![(0, -1, 1), (1, 0, 1), (1, -1, 2)]));
    assert_eq!(voxel_edit_chunks(-16, 3, 3), ((-1, 0, 0), vec![(-2, 0, 0)]));
}

#[test]
fn generation_requests_keep_the_given_order_once_each() {
    let mut t = LocalChunkTracker::new();
    let ordered = vec![(5, 1, 0), (2, 1, 0), (5, 1, 0), (9, 1, 0), (1, 1, 0)];
    let sent = request_generation(&mut t, &ordered, 4);
    assert_eq!(sent, vec![(5, 1, 0), (2, 1, 0), (9, 1, 0)]);
}
