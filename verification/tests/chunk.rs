use voxl::voxel::chunk::{VoxelChunk, CHUNK_SIZE, CHUNK_VOLUME};

#[test]
fn new_chunk_is_air() {
    let c = VoxelChunk::new();
    assert_eq!(c.get(0, 0, 0), Some(0));
    assert_eq!(c.get(15, 15, 15), Some(0));
    assert_eq!(c.palette(), &[0]);
    assert_eq!(c.palette_size(), 1);
    assert_eq!(CHUNK_SIZE, 16);
    assert_eq!(CHUNK_VOLUME, 4096);
}

#[test]
fn get_after_set_reads_back() {
    let mut c = VoxelChunk::new();
    c.set(1, 2, 3, Some(7));
    assert_eq!(c.get(1, 2, 3), Some(7));
    assert_eq!(c.get(3, 2, 1), Some(0));
    assert_eq!(c.palette(), &[0, 7]);
    c.set(1, 2, 3, None);
    assert_eq!(c.get(1, 2, 3), Some(0));
    assert_eq!(c.palette(), &[0, 7]);
}

#[test]
fn out_of_chunk_is_ignored() {
    let mut c = VoxelChunk::new();
    c.set(16, 0, 0, Some(5));
    assert_eq!(c.get(16, 0, 0), None);
    assert_eq!(c.palette(), &[0]);
}

#[test]
fn index_is_z_then_y_then_x() {
    assert_eq!(VoxelChunk::index(0, 0, 0), 0);
    assert_eq!(VoxelChunk::index(1, 0, 0), 1);
    assert_eq!(VoxelChunk::index(0, 1, 0), 16);
    assert_eq!(VoxelChunk::index(0, 0, 1), 256);
    assert_eq!(VoxelChunk::index(15, 15, 15), 4095);
}

#[test]
fn extract_then_rebuild() {
    let mut c = VoxelChunk::new();
    c.set(4, 5, 6, Some(9));
    c.set(0, 0, 0, Some(2));
    let (voxels, palette) = c.extract_data();
    let r = VoxelChunk::from_data(voxels, palette);
    assert_eq!(r.get(4, 5, 6), Some(9));
    assert_eq!(r.get(0, 0, 0), Some(2));
    assert_eq!(r.get(1, 1, 1), Some(0));
    assert_eq!(r.palette(), &[0, 9, 2]);
}

#[test]
fn clear_resets_to_air() {
    let mut c = VoxelChunk::new();
    c.set(1, 1, 1, Some(4));
    c.clear();
    assert_eq!(c.get(1, 1, 1), Some(0));
    assert_eq!(c.palette(), &[0]);
    let e = VoxelChunk::empty();
    assert_eq!(e.palette_size(), 1);
}

#[test]
fn local_to_global_maps_palette() {
    let mut c = VoxelChunk::new();
    c.set(0, 0, 0, Some(11));
    assert_eq!(c.local_to_global(1), 11);
    assert_eq!(c.local_to_global(5), 0);
    c.set_unchecked(2, 2, 2, Some(11));
    assert_eq!(c.get_unchecked(2, 2, 2), Some(11));
}

#[test]
fn palette_size_counts_block_types_in_use() {
    let mut c = VoxelChunk::new();
    c.set(0, 0, 0, Some(5));
    assert_eq!(c.palette_size(), 2);
    c.set(0, 0, 0, None);
    assert_eq!(c.palette(), &[0, 5]);
    assert_eq!(c.palette_size(), 1);
    for x in 0..16 {
        for y in 0..16 {
            for z in 0..16 {
                c.set(x, y, z, Some(9));
            }
        }
    }
    assert_eq!(c.palette_size(), 1);
    c.set(2, 2, 2, Some(5));
    assert_eq!(c.palette_size(), 2);
}
