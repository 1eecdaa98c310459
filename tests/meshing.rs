use fast_voxels::bitmask::{ChunkBitMaskRow, ChunkBitMaskSlice, SliceRect};
use fast_voxels::block::{BlockID, Direction};
use fast_voxels::coords::{IVec3, UVec3};
use fast_voxels::greedy::{ChunkBitMask, GreedyMesh};
use fast_voxels::grid::{BlockGrid, Chunk};
use fast_voxels::mesh::VoxelMesh;
use fast_voxels::store::ChunkManager;
use std::collections::BTreeSet;

/// Every (x, y, z, orientation) face that the greedy quads cover; panics on
/// a face covered twice.
fn greedy_faces(mesh: &GreedyMesh) -> BTreeSet<(u32, u32, u32, u8)> {
    let mut out = BTreeSet::new();
    for q in &mesh.quads {
        let p = q.get_pos();
        let s = q.get_size();
        let d = q.get_dir().unwrap();
        assert!(s.x >= 1 && s.x <= 31 && s.y >= 1 && s.y <= 31);
        for r in 0..s.y {
            for c in 0..s.x {
                let cell = match d {
                    Direction::Top | Direction::Bottom => (p.x + r, p.y, p.z + c),
                    Direction::Left | Direction::Right => (p.x, p.y + r, p.z + c),
                    Direction::Front | Direction::Back => (p.x + r, p.y + c, p.z),
                };
                assert!(out.insert((cell.0, cell.1, cell.2, d.index())), "face covered twice");
            }
        }
    }
    out
}

fn naive_faces(mesh: &VoxelMesh) -> BTreeSet<(u32, u32, u32, u8)> {
    let mut out = BTreeSet::new();
    for (d, list) in mesh.quads.iter().enumerate() {
        for q in list {
            assert!(out.insert((q.pos.x, q.pos.y, q.pos.z, d as u8)));
        }
    }
    out
}

#[test]
fn single_block_has_six_faces() {
    let store = ChunkManager::new(0, 0);
    let chunk = Chunk::new(IVec3::new(0, 0, 0), BlockGrid::filled(BlockID::Air).with_block(3, 4, 5, BlockID::Stone));
    let naive = VoxelMesh::gen_mesh(&chunk, &store);
    assert_eq!(naive.quads.len(), 6);
    for list in &naive.quads {
        assert_eq!(list.len(), 1);
        assert_eq!(list[0].pos, UVec3::new(3, 4, 5));
    }
    let greedy = VoxelMesh::gen_greedy_mesh(&chunk, &store);
    assert_eq!(greedy.quads.len(), 6);
    assert_eq!(greedy_faces(&greedy), naive_faces(&naive));
    for q in &greedy.quads {
        assert_eq!(q.get_block_type(), BlockID::Stone);
    }
}

#[test]
fn neighbor_partition_hides_boundary_face() {
    let mut store = ChunkManager::new(0, 0);
    let chunk = Chunk::new(IVec3::new(0, 0, 0), BlockGrid::filled(BlockID::Air).with_block(31, 0, 0, BlockID::Stone));
    store.add_chunk(&chunk);
    let naive = VoxelMesh::gen_mesh(&chunk, &store);
    assert_eq!(naive.quads[Direction::Right.index() as usize].len(), 1);
    store.add_chunk(&Chunk::new(IVec3::new(1, 0, 0), BlockGrid::filled(BlockID::Air).with_block(0, 0, 0, BlockID::Ground)));
    let naive = VoxelMesh::gen_mesh(&chunk, &store);
    assert_eq!(naive.quads[Direction::Right.index() as usize].len(), 0);
    assert_eq!(naive.quads[Direction::Left.index() as usize].len(), 1);
    let greedy = VoxelMesh::gen_greedy_mesh(&chunk, &store);
    assert_eq!(greedy_faces(&greedy), naive_faces(&naive));
    assert_eq!(greedy.quads.len(), 5);
}

#[test]
fn solid_chunk_faces_are_split_at_thirty_one() {
    let store = ChunkManager::new(0, 0);
    let chunk = Chunk::new(IVec3::new(0, 0, 0), BlockGrid::filled(BlockID::Steel));
    let naive = VoxelMesh::gen_mesh(&chunk, &store);
    for list in &naive.quads {
        assert_eq!(list.len(), 1024);
    }
    let greedy = VoxelMesh::gen_greedy_mesh(&chunk, &store);
    // A 32 x 32 face needs a 31-wide and a 1-wide run, each 31 high then 1.
    assert_eq!(greedy.quads.len(), 6 * 4);
    assert_eq!(greedy_faces(&greedy), naive_faces(&naive));
}

#[test]
fn mixed_materials_never_merge() {
    let store = ChunkManager::new(0, 0);
    let mut grid = BlockGrid::filled(BlockID::Air);
    for z in 0..8 {
        grid = grid.with_block(0, 0, z, if z < 4 { BlockID::Wood } else { BlockID::Leaf });
    }
    let chunk = Chunk::new(IVec3::new(0, 0, 0), grid);
    let greedy = VoxelMesh::gen_greedy_mesh(&chunk, &store);
    let naive = VoxelMesh::gen_mesh(&chunk, &store);
    assert_eq!(greedy_faces(&greedy), naive_faces(&naive));
    let top: Vec<_> = greedy.quads.iter().filter(|q| q.get_dir() == Some(Direction::Top)).collect();
    assert_eq!(top.len(), 2);
    for q in top {
        assert_eq!(q.get_size().x, 4);
        assert_eq!(q.get_size().y, 1);
        let expect = if q.get_pos().z == 0 { BlockID::Wood } else { BlockID::Leaf };
        assert_eq!(q.get_block_type(), expect);
    }
}

#[test]
fn checkerboard_chunk_greedy_equals_naive() {
    let store = ChunkManager::new(0, 0);
    let chunk = Chunk::new(IVec3::new(2, -1, 0), BlockGrid::checkerboard());
    let naive = VoxelMesh::gen_mesh(&chunk, &store);
    let greedy = VoxelMesh::gen_greedy_mesh(&chunk, &store);
    assert_eq!(greedy.chunk_pos, IVec3::new(2, -1, 0));
    assert_eq!(naive.chunk_pos, IVec3::new(2, -1, 0));
    assert_eq!(greedy_faces(&greedy), naive_faces(&naive));
    // Stone fills the planes of even z: each plane shows its two 32 x 32
    // sides and its four edges.
    assert_eq!(naive.quads[Direction::Front.index() as usize].len(), 16 * 1024);
    assert_eq!(naive.quads[Direction::Top.index() as usize].len(), 16 * 32);
}

#[test]
fn naive_lists_are_in_cell_order() {
    let store = ChunkManager::new(0, 0);
    let grid = BlockGrid::filled(BlockID::Air)
        .with_block(5, 0, 0, BlockID::Oil)
        .with_block(0, 9, 0, BlockID::Oil)
        .with_block(0, 0, 7, BlockID::Oil);
    let chunk = Chunk::new(IVec3::new(0, 0, 0), grid);
    let naive = VoxelMesh::gen_mesh(&chunk, &store);
    let top = &naive.quads[0];
    assert_eq!(top.len(), 3);
    assert_eq!(top[0].pos, UVec3::new(0, 0, 7));
    assert_eq!(top[1].pos, UVec3::new(0, 9, 0));
    assert_eq!(top[2].pos, UVec3::new(5, 0, 0));
}

#[test]
fn row_first_run() {
    let row = ChunkBitMaskRow { data: 0b0111_0100 };
    assert_eq!(row.first_run(), (2, 1));
    let row = ChunkBitMaskRow { data: 0b0111_0000 };
    assert_eq!(row.first_run(), (4, 3));
    let row = ChunkBitMaskRow { data: u32::MAX };
    assert_eq!(row.first_run(), (0, 31));
    let row = ChunkBitMaskRow { data: 1 << 31 };
    assert_eq!(row.first_run(), (31, 1));
}

#[test]
fn slice_rectangles_merge_rows() {
    let mut data = [0u32; 32];
    data[3] = 0b1111 << 2;
    data[4] = 0b1111 << 2;
    data[5] = 0b0110 << 2;
    let slice = ChunkBitMaskSlice { data };
    let rects = slice.process();
    assert_eq!(rects[0], SliceRect { row: 3, col: 2, width: 4, height: 2 });
    assert_eq!(rects[1], SliceRect { row: 5, col: 3, width: 2, height: 1 });
    assert_eq!(rects.len(), 2);
    let empty = ChunkBitMaskSlice { data: [0u32; 32] };
    assert!(empty.process().is_empty());
}

#[test]
fn full_slice_splits_at_thirty_one() {
    let slice = ChunkBitMaskSlice { data: [u32::MAX; 32] };
    let rects = slice.process();
    assert_eq!(rects.len(), 4);
    let area: u32 = rects.iter().map(|r| r.width * r.height).sum();
    assert_eq!(area, 1024);
}

#[test]
fn chunk_mask_starts_empty() {
    let m = ChunkBitMask::new();
    assert!(m.data.iter().all(|w| *w == 0));
    let s = m.slice(7);
    assert!(s.data.iter().all(|w| *w == 0));
}

#[test]
fn side_for_gpu_tags_orientation() {
    let store = ChunkManager::new(0, 0);
    let chunk = Chunk::new(IVec3::new(-3, 4, 5), BlockGrid::filled(BlockID::Air).with_block(0, 31, 2, BlockID::Copper));
    let naive = VoxelMesh::gen_mesh(&chunk, &store);
    let side = naive.side_for_gpu(Direction::Bottom);
    assert_eq!(side.chunk_pos, [-3, 4, 5]);
    assert_eq!(side.orientation, 1);
    assert_eq!(side.quads.len(), 1);
    assert_eq!(side.quads[0].pos, UVec3::new(0, 31, 2));
}

/// A small linear congruential generator, so that the grids are
/// reproducible.
fn next(state: &mut u64) -> u64 {
    *state = state.wrapping_mul(6364136223846793005).wrapping_add(1442695040888963407);
    *state >> 33
}

fn random_grid(state: &mut u64) -> BlockGrid {
    let mut cells = Vec::with_capacity(32768);
    for _ in 0..32768 {
        let r = next(state) % 8;
        cells.push(match r {
            0 => BlockID::Stone,
            1 => BlockID::Wood,
            2 => BlockID::Water,
            3 if next(state) % 2 == 0 => BlockID::Stone,
            _ => BlockID::Air,
        });
    }
    BlockGrid::from_cells(cells).unwrap()
}

#[test]
fn random_grids_greedy_equals_naive() {
    let mut state: u64 = 12345;
    for _ in 0..2 {
        let mut store = ChunkManager::new(0, 0);
        let chunk = Chunk::new(IVec3::new(0, 0, 0), random_grid(&mut state));
        store.add_chunk(&chunk);
        store.add_chunk(&Chunk::new(IVec3::new(1, 0, 0), random_grid(&mut state)));
        store.add_chunk(&Chunk::new(IVec3::new(0, -1, 0), random_grid(&mut state)));
        let naive = VoxelMesh::gen_mesh(&chunk, &store);
        let greedy = VoxelMesh::gen_greedy_mesh(&chunk, &store);
        assert_eq!(greedy_faces(&greedy), naive_faces(&naive));
        for q in &greedy.quads {
            let p = q.get_pos();
            assert_eq!(q.get_block_type(), chunk.data.get(p.x, p.y, p.z));
        }
    }
}
