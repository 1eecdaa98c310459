use fast_voxels::block::{BlockID, Direction};
use fast_voxels::coords::IVec3;
use fast_voxels::grid::{BlockGrid, Chunk};
use fast_voxels::mesh::VoxelMesh;
use fast_voxels::scheduler::{BuildOutcome, BuildScheduler, ChunkState, MAX_BUILD_ATTEMPTS};
use fast_voxels::store::ChunkManager;
use std::sync::Arc;

#[test]
fn streaming_box_has_seventy_five_partitions() {
    let mut store = ChunkManager::new(2, 1);
    let fill = Arc::new(BlockGrid::checkerboard());
    let created = store.manage_chunks(IVec3::new(0, 0, 0), &fill);
    assert_eq!(created.len(), 75);
    for x in -3i32..=3 {
        for y in -2i32..=2 {
            for z in -3i32..=3 {
                let inside = x.abs() <= 2 && y.abs() <= 1 && z.abs() <= 2;
                assert_eq!(store.contains(IVec3::new(x, y, z)), inside);
                assert_eq!(created.contains(&IVec3::new(x, y, z)), inside);
            }
        }
    }
    let again = store.manage_chunks(IVec3::new(0, 0, 0), &fill);
    assert!(again.is_empty());
    // Moving within the same partition creates nothing either.
    let again = store.manage_chunks(IVec3::new(31, 5, 17), &fill);
    assert!(again.is_empty());
}

#[test]
fn streaming_keeps_resident_and_uses_floor_partition() {
    let mut store = ChunkManager::new(1, 0);
    store.add_chunk(&Chunk::new(IVec3::new(-1, -1, -1), BlockGrid::filled(BlockID::Wood)));
    let fill = Arc::new(BlockGrid::filled(BlockID::Stone));
    // World point (-1, -1, -1) lies in partition (-1, -1, -1).
    let created = store.manage_chunks(IVec3::new(-1, -1, -1), &fill);
    assert_eq!(created.len(), 8);
    assert!(!created.contains(&IVec3::new(-1, -1, -1)));
    assert_eq!(store.get_block(IVec3::new(-1, -1, -1)), BlockID::Wood);
    assert_eq!(store.get_block(IVec3::new(-64, -32, -64)), BlockID::Stone);
    assert!(!store.contains(IVec3::new(-1, 0, -1)));
}

#[test]
fn build_life_cycle() {
    let mut store = ChunkManager::new(0, 0);
    let p = IVec3::new(0, 0, 0);
    store.add_chunk(&Chunk::new(p, BlockGrid::filled(BlockID::Air).with_block(1, 1, 1, BlockID::Stone)));
    let mut sched = BuildScheduler::new();
    assert_eq!(sched.state_of(p), ChunkState::Clean);
    sched.mark_dirty(p);
    assert_eq!(sched.state_of(p), ChunkState::Dirty);
    assert!(!sched.is_renderable(p));
    let jobs = sched.dispatch(&store);
    assert_eq!(jobs.len(), 1);
    assert_eq!(jobs[0].chunk.pos, p);
    assert_eq!(sched.state_of(p), ChunkState::Building);
    // Not dispatched again while building.
    sched.mark_dirty(p);
    assert!(sched.dispatch(&store).is_empty());
    let mesh = jobs[0].run();
    assert_eq!(mesh.quads.len(), 6);
    let applied = sched.complete(p, BuildOutcome::Finished(mesh));
    assert_eq!(applied.unwrap().quads.len(), 6);
    assert_eq!(sched.state_of(p), ChunkState::Renderable);
    assert!(sched.is_renderable(p));
    // A late duplicate result is dropped.
    assert!(sched.complete(p, BuildOutcome::Faulted).is_none());
    assert_eq!(sched.state_of(p), ChunkState::Renderable);
}

#[test]
fn faulted_builds_retry_then_fail() {
    let mut store = ChunkManager::new(0, 0);
    let p = IVec3::new(4, 0, -2);
    store.add_chunk(&Chunk::new(p, BlockGrid::filled(BlockID::Stone)));
    let mut sched = BuildScheduler::new();
    sched.mark_dirty(p);
    for attempt in 1..=MAX_BUILD_ATTEMPTS {
        let jobs = sched.dispatch(&store);
        assert_eq!(jobs.len(), 1);
        assert!(sched.complete(p, BuildOutcome::Faulted).is_none());
        if attempt < MAX_BUILD_ATTEMPTS {
            assert_eq!(sched.state_of(p), ChunkState::Dirty);
        }
    }
    assert_eq!(sched.state_of(p), ChunkState::Failed);
    assert!(sched.dispatch(&store).is_empty());
    // New content gives the chunk a fresh start.
    sched.mark_dirty(p);
    assert_eq!(sched.state_of(p), ChunkState::Dirty);
    assert_eq!(sched.dispatch(&store).len(), 1);
}

#[test]
fn dirty_chunk_waits_until_resident() {
    let mut store = ChunkManager::new(0, 0);
    let p = IVec3::new(0, 1, 0);
    let mut sched = BuildScheduler::new();
    sched.mark_dirty(p);
    assert!(sched.dispatch(&store).is_empty());
    assert_eq!(sched.state_of(p), ChunkState::Dirty);
    store.add_chunk(&Chunk::new(p, BlockGrid::filled(BlockID::Air)));
    assert_eq!(sched.dispatch(&store).len(), 1);
    // A result for an unknown chunk changes nothing.
    assert!(sched.complete(IVec3::new(9, 9, 9), BuildOutcome::Faulted).is_none());
    assert_eq!(sched.state_of(IVec3::new(9, 9, 9)), ChunkState::Clean);
}

#[test]
fn build_ignores_store_changes_after_dispatch() {
    let mut store = ChunkManager::new(0, 0);
    let p = IVec3::new(0, 0, 0);
    let chunk = Chunk::new(p, BlockGrid::filled(BlockID::Air).with_block(31, 0, 0, BlockID::Stone));
    store.add_chunk(&chunk);
    let before = VoxelMesh::gen_greedy_mesh(&chunk, &store);
    let mut sched = BuildScheduler::new();
    sched.mark_dirty(p);
    let jobs = sched.dispatch(&store);
    // The live store gains a neighbor that hides the +x face.
    store.add_chunk(&Chunk::new(IVec3::new(1, 0, 0), BlockGrid::filled(BlockID::Stone)));
    let after_live = VoxelMesh::gen_greedy_mesh(&chunk, &store);
    assert_eq!(after_live.quads.len(), 5);
    let built = jobs[0].run();
    assert_eq!(built.quads, before.quads);
    assert_eq!(built.quads.len(), 6);
    assert!(built.quads.iter().any(|q| q.get_dir() == Some(Direction::Right)));
}

#[test]
fn dispatch_covers_every_dirty_resident_chunk() {
    let mut store = ChunkManager::new(1, 1);
    let fill = Arc::new(BlockGrid::filled(BlockID::Air));
    let created = store.manage_chunks(IVec3::new(0, 0, 0), &fill);
    let mut sched = BuildScheduler::new();
    for p in &created {
        sched.mark_dirty(*p);
    }
    let jobs = sched.dispatch(&store);
    assert_eq!(jobs.len(), 27);
    for job in &jobs {
        assert!(Arc::ptr_eq(&job.chunk.data, &fill));
        assert_eq!(sched.state_of(job.chunk.pos), ChunkState::Building);
    }
}
