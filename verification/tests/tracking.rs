use voxl::renderer::dirty::{DirtyChunkSet, chunk_coord_of};
use voxl::tracking::chunk_set::ChunkSet;
use voxl::tracking::chunk_tracker::{ChunkState, ChunkTracker};
use voxl::tracking::dirty_chunks::DirtyChunks;
use voxl::tracking::local_tracker::{ChunkTrackerCompat, LocalChunkTracker};

#[test]
fn chunk_coordinates_round_down() {
    assert_eq!(chunk_coord_of(0), 0);
    assert_eq!(chunk_coord_of(15), 0);
    assert_eq!(chunk_coord_of(16), 1);
    assert_eq!(chunk_coord_of(-1), -1);
    assert_eq!(chunk_coord_of(-16), -1);
    assert_eq!(chunk_coord_of(-17), -2);
}

#[test]
fn dirty_chunk_set() {
    let mut d = DirtyChunkSet::new();
    d.mark_dirty(1, 2, 3);
    d.mark_dirty(1, 2, 3);
    d.mark_voxel_dirty(-1, 20, 33);
    assert_eq!(d.len(), 2);
    assert!(d.is_dirty(1, 2, 3));
    assert!(d.is_dirty(-1, 1, 2));
    let taken = d.take_dirty();
    assert_eq!(taken, vec![(1, 2, 3), (-1, 1, 2)]);
    assert_eq!(d.len(), 0);
    d.mark_dirty(0, 0, 0);
    d.clear();
    assert!(!d.is_dirty(0, 0, 0));
    assert_eq!(DirtyChunkSet::default().len(), 0);
}

#[test]
fn chunk_set_keeps_insertion_order_without_repeats() {
    let mut s = ChunkSet::new();
    assert!(s.insert((1, 1, 1)));
    assert!(s.insert((2, 2, 2)));
    assert!(!s.insert((1, 1, 1)));
    assert_eq!(s.len(), 2);
    assert_eq!(s.to_vec(), vec![(1, 1, 1), (2, 2, 2)]);
    assert!(s.remove((1, 1, 1)));
    assert!(!s.remove((1, 1, 1)));
    assert!(!s.contains((1, 1, 1)));
    s.insert((3, 0, 0));
    let removed = s.retain_where(|p| p.0 > 2);
    assert_eq!(removed, vec![(2, 2, 2)]);
    assert_eq!(s.get(0), (3, 0, 0));
    s.clear();
    assert!(s.is_empty());
}

#[test]
fn dirty_chunks_put_urgent_first() {
    let mut d = DirtyChunks::new();
    d.mark_dirty((1, 0, 0));
    d.mark_dirty((2, 0, 0));
    d.mark_priority((2, 0, 0));
    d.mark_priority((3, 0, 0));
    assert_eq!(d.get_dirty_chunks(), vec![(2, 0, 0), (3, 0, 0), (1, 0, 0)]);
    assert!(!d.is_dirty((3, 0, 0)));
    assert!(d.is_dirty((2, 0, 0)));
    d.mark_clean((2, 0, 0));
    assert_eq!(d.get_dirty_chunks(), vec![(3, 0, 0), (1, 0, 0)]);
    assert!(d.remove((1, 0, 0)));
    assert!(!d.remove((9, 0, 0)));
    d.mark_range_dirty(&[(5, 5, 5), (6, 6, 6)]);
    assert!(d.is_dirty((6, 6, 6)));
    d.clear_all();
    assert!(d.get_dirty_chunks().is_empty());
}

#[test]
fn server_chunk_tracker_hands_out_urgent_chunks_first() {
    let mut t = ChunkTracker::new();
    t.on_chunk_loaded((0, 0, 0));
    t.on_chunk_loaded((1, 0, 0));
    t.on_block_modified((1, 0, 0));
    assert_eq!(t.get_state((1, 0, 0)), ChunkState::NeedsMesh);
    assert_eq!(t.get_state((0, 0, 0)), ChunkState::Loaded);
    assert_eq!(t.get_state((9, 9, 9)), ChunkState::Unloaded);
    assert!(t.is_loaded((0, 0, 0)));
    let first = t.get_chunks_to_mesh(1);
    assert_eq!(first, vec![(1, 0, 0)]);
    let rest = t.get_chunks_to_mesh(10);
    assert_eq!(rest, vec![(0, 0, 0)]);
    assert!(t.get_chunks_to_mesh(10).is_empty());
    t.on_chunk_meshed((0, 0, 0));
    assert_eq!(t.get_state((0, 0, 0)), ChunkState::Meshed);
    t.on_server_update((0, 0, 0));
    assert_eq!(t.get_chunks_to_mesh(10), vec![(0, 0, 0)]);
    t.on_chunk_unloaded((0, 0, 0));
    assert!(!t.is_loaded((0, 0, 0)));
}

#[test]
fn server_chunk_tracker_marks_meshed_chunks() {
    let mut t = ChunkTracker::default();
    t.on_chunk_loaded((0, 0, 0));
    t.on_block_modified((2, 0, 0));
    t.on_block_modified((3, 0, 0));
    let n = t.check_and_mark_meshed(|p| p.0 == 2);
    assert_eq!(n, 1);
    assert_eq!(t.get_state((2, 0, 0)), ChunkState::Meshed);
    assert_eq!(t.get_state((3, 0, 0)), ChunkState::NeedsMesh);
}

#[test]
fn local_tracker_refuses_duplicate_generation() {
    let mut t = LocalChunkTracker::new();
    assert!(t.mark_pending_generation((0, 1, 0)));
    assert!(!t.mark_pending_generation((0, 1, 0)));
    t.mark_generating((0, 1, 0));
    assert!(t.is_generating(&(0, 1, 0)));
    assert!(!t.mark_pending_generation((0, 1, 0)));
    t.mark_generated((0, 1, 0));
    assert!(t.is_generated(&(0, 1, 0)));
    assert!(!t.mark_pending_generation((0, 1, 0)));
    assert_eq!(t.pending_generation_count(), 0);
}

#[test]
fn local_tracker_mesh_queue() {
    let mut t = LocalChunkTracker::default();
    t.mark_pending_mesh_direct((1, 0, 0));
    t.mark_pending_mesh_direct((2, 0, 0));
    t.mark_pending_mesh_direct((3, 0, 0));
    assert!(t.is_meshing_or_pending(&(2, 0, 0)));
    assert_eq!(t.take_pending_mesh(2), vec![(1, 0, 0), (2, 0, 0)]);
    assert!(t.is_meshing(&(1, 0, 0)));
    assert_eq!(t.pending_mesh_count(), 1);
    t.mark_meshed((1, 0, 0));
    assert!(!t.is_meshing(&(1, 0, 0)));
    t.clear_mesh_state((2, 0, 0));
    assert!(!t.is_meshing_or_pending(&(2, 0, 0)));
}

#[test]
fn local_tracker_cleanups() {
    let mut t = LocalChunkTracker::new();
    t.mark_pending_generation((0, -1, 0));
    t.mark_pending_generation((0, 3, 0));
    t.mark_pending_generation((0, 9, 0));
    t.cleanup_out_of_bounds(8);
    assert_eq!(t.pending_generation_count(), 1);
    let mut done = ChunkSet::new();
    done.insert((0, 3, 0));
    t.cleanup_pending_generated(&done);
    assert_eq!(t.pending_generation_count(), 0);
    t.mark_pending_generation((5, 0, 0));
    t.mark_pending_generation((6, 0, 0));
    t.cleanup_pending_generation_verify(|p| p.0 == 5);
    assert_eq!(t.pending_generation_count(), 1);
    assert!(!t.mark_pending_generation((5, 0, 0)));
    assert!(t.mark_pending_generation((6, 0, 0)));
}

#[test]
fn compat_tracker_delegates() {
    let mut t = ChunkTrackerCompat::new();
    assert!(t.mark_pending_generation((0, 0, 0)));
    t.mark_generated((0, 0, 0));
    assert!(t.is_generated(&(0, 0, 0)));
    t.mark_pending_mesh_direct((0, 0, 0));
    assert!(t.is_meshing_or_pending(&(0, 0, 0)));
    t.clear_mesh_state((0, 0, 0));
    assert!(!t.is_meshing_or_pending(&(0, 0, 0)));
    assert!(!t.is_generating(&(0, 0, 0)));
}
