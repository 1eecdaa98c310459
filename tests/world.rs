use fast_voxels::block::BlockID;
use fast_voxels::coords::{local_of, partition_of, IVec3, UVec3};
use fast_voxels::grid::{BlockGrid, Chunk, GRID_CELLS};
use fast_voxels::store::ChunkManager;
use std::sync::Arc;

#[test]
fn coordinate_resolution_negative() {
    assert_eq!(partition_of(-1), -1);
    assert_eq!(local_of(-1), 31);
    assert_eq!(partition_of(-32), -1);
    assert_eq!(local_of(-32), 0);
    assert_eq!(partition_of(-33), -2);
    assert_eq!(local_of(-33), 31);
    assert_eq!(partition_of(31), 0);
    assert_eq!(local_of(31), 31);
    assert_eq!(partition_of(32), 1);
    assert_eq!(local_of(32), 0);
    assert_eq!(partition_of(i32::MIN as i64), -(1 << 26));
    assert_eq!(local_of(i32::MIN as i64), 0);
    assert_eq!(partition_of(i32::MAX as i64), (1 << 26) - 1);
    assert_eq!(local_of(i32::MAX as i64), 31);
}

#[test]
fn absent_partition_reads_as_air() {
    let store = ChunkManager::new(2, 1);
    assert_eq!(store.get_block(IVec3::new(0, 0, 0)), BlockID::Air);
    assert_eq!(store.get_block(IVec3::new(-1, -1, -1)), BlockID::Air);
    assert_eq!(store.get_block(IVec3::new(i32::MAX, i32::MIN, 5)), BlockID::Air);
}

#[test]
fn lookup_crosses_into_negative_partition() {
    let mut store = ChunkManager::new(2, 1);
    let grid = BlockGrid::filled(BlockID::Air).with_block(31, 0, 5, BlockID::Stone);
    store.add_chunk(&Chunk::new(IVec3::new(-1, 0, 0), grid));
    assert_eq!(store.get_block(IVec3::new(-1, 0, 5)), BlockID::Stone);
    assert_eq!(store.get_block(IVec3::new(-2, 0, 5)), BlockID::Air);
    assert_eq!(store.get_block(IVec3::new(-1, 0, 4)), BlockID::Air);
    // The same local cell one partition further out is not resident.
    assert_eq!(store.get_block(IVec3::new(-33, 0, 5)), BlockID::Air);
}

#[test]
fn insert_replaces_last_writer_wins() {
    let mut store = ChunkManager::new(0, 0);
    let p = IVec3::new(3, -4, 5);
    store.add_chunk(&Chunk::new(p, BlockGrid::filled(BlockID::Stone)));
    assert_eq!(store.get_block(IVec3::new(96, -128, 160)), BlockID::Stone);
    store.add_chunk(&Chunk::new(p, BlockGrid::filled(BlockID::Wood)));
    assert_eq!(store.get_block(IVec3::new(96, -128, 160)), BlockID::Wood);
    assert!(store.contains(p));
    assert!(!store.contains(IVec3::new(3, -4, 6)));
}

#[test]
fn get_grid_shares_the_stored_grid() {
    let mut store = ChunkManager::new(0, 0);
    let chunk = Chunk::new(IVec3::new(0, 0, 0), BlockGrid::filled(BlockID::Coal));
    store.add_chunk(&chunk);
    let g = store.get_grid(IVec3::new(0, 0, 0)).unwrap();
    assert!(Arc::ptr_eq(&g, &chunk.data));
    assert_eq!(g.get(4, 5, 6), BlockID::Coal);
    assert!(store.get_grid(IVec3::new(1, 0, 0)).is_none());
}

#[test]
fn snapshot_is_isolated_from_later_inserts() {
    let mut store = ChunkManager::new(1, 1);
    store.add_chunk(&Chunk::new(IVec3::new(0, 0, 0), BlockGrid::filled(BlockID::Stone)));
    let snap = store.snapshot();
    store.add_chunk(&Chunk::new(IVec3::new(1, 0, 0), BlockGrid::filled(BlockID::Stone)));
    store.add_chunk(&Chunk::new(IVec3::new(0, 0, 0), BlockGrid::filled(BlockID::Leaf)));
    assert!(!snap.contains(IVec3::new(1, 0, 0)));
    assert_eq!(snap.get_block(IVec3::new(0, 0, 0)), BlockID::Stone);
    assert_eq!(store.get_block(IVec3::new(0, 0, 0)), BlockID::Leaf);
    assert_eq!(snap.render_distance_hor(), 1);
}

#[test]
fn grid_from_cells_checks_length() {
    assert!(BlockGrid::from_cells(vec![BlockID::Air; 10]).is_none());
    let g = BlockGrid::from_cells(vec![BlockID::Plant; GRID_CELLS]).unwrap();
    assert_eq!(g.get(31, 31, 31), BlockID::Plant);
    assert_eq!(g.cell_count(), 32768);
}

#[test]
fn checkerboard_alternates_along_flat_order() {
    let g = BlockGrid::checkerboard();
    assert_eq!(g.get(0, 0, 0), BlockID::Stone);
    assert_eq!(g.get(0, 0, 1), BlockID::Air);
    assert_eq!(g.get(0, 1, 0), BlockID::Stone);
    assert_eq!(g.get(7, 3, 30), BlockID::Stone);
    assert_eq!(g.get(7, 3, 31), BlockID::Air);
}

#[test]
fn lookup_by_partition_and_local_index() {
    let mut store = ChunkManager::new(0, 0);
    let grid = BlockGrid::filled(BlockID::Air).with_block(2, 3, 4, BlockID::Fire);
    store.add_chunk(&Chunk::new(IVec3::new(-2, 0, 1), grid));
    assert_eq!(store.get_block_from_index(IVec3::new(-2, 0, 1), UVec3::new(2, 3, 4)), BlockID::Fire);
    assert_eq!(store.get_block_from_index(IVec3::new(-2, 0, 1), UVec3::new(2, 3, 5)), BlockID::Air);
    assert_eq!(store.get_block_from_index(IVec3::new(0, 0, 0), UVec3::new(2, 3, 4)), BlockID::Air);
    assert_eq!(store.get_block(IVec3::new(-62, 3, 36)), BlockID::Fire);
}
