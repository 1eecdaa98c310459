//! Face visibility: which unit faces of a chunk's solid cells border
//! transparent space, looking across partition borders through the store.

use vstd::prelude::*;
use crate::block::{BlockID, Direction};
use crate::coords::IVec3;
use crate::grid::{cell, in_grid, Chunk};
use crate::store::{world_block, ChunkManager};

verus! {

/// The block at local coordinate `(lx, ly, lz)` of the chunk at partition
/// `pos` with cells `g`: its own cell inside the grid, else the store's block
/// at the matching world point.
pub open spec fn block_near(
    pos: IVec3,
    g: Seq<BlockID>,
    store: Map<IVec3, Seq<BlockID>>,
    lx: int,
    ly: int,
    lz: int,
) -> BlockID {
    if in_grid(lx, ly, lz) {
        cell(g, lx, ly, lz)
    } else {
        world_block(store, pos.x * 32 + lx, pos.y * 32 + ly, pos.z * 32 + lz)
    }
}

/// Whether the face of cell `(x, y, z)` toward `d` is visible: the cell is
/// solid and its neighbor in direction `d` is transparent (or not resident).
pub open spec fn face_exposed(
    pos: IVec3,
    g: Seq<BlockID>,
    store: Map<IVec3, Seq<BlockID>>,
    x: int,
    y: int,
    z: int,
    d: Direction,
) -> bool {
    let (dx, dy, dz) = d.spec_offset();
    &&& !cell(g, x, y, z).spec_is_transparent()
    &&& block_near(pos, g, store, x + dx, y + dy, z + dz).spec_is_transparent()
}

/// The neighbor of cell `(x, y, z)` in direction `d`, possibly in another
/// partition.
pub fn neighbor_block(chunk: &Chunk, store: &ChunkManager, x: u32, y: u32, z: u32, d: Direction) -> (r: BlockID)
    requires
        store.wf(),
        in_grid(x as int, y as int, z as int),
    ensures
        ({
            let (dx, dy, dz) = d.spec_offset();
            r == block_near(chunk.pos, chunk.data@, store@, x + dx, y + dy, z + dz)
        }),
{
    let (dx, dy, dz) = d.offset();
    let nx = x as i64 + dx as i64;
    let ny = y as i64 + dy as i64;
    let nz = z as i64 + dz as i64;
    if 0 <= nx && nx < 32 && 0 <= ny && ny < 32 && 0 <= nz && nz < 32 {
        chunk.data.get(nx as u32, ny as u32, nz as u32)
    } else {
        store.block_at(
            chunk.pos.x as i64 * 32 + nx,
            chunk.pos.y as i64 * 32 + ny,
            chunk.pos.z as i64 * 32 + nz,
        )
    }
}

/// Whether the face of cell `(x, y, z)` toward `d` is visible.
pub fn face_visible(chunk: &Chunk, store: &ChunkManager, x: u32, y: u32, z: u32, d: Direction) -> (r: bool)
    requires
        store.wf(),
        in_grid(x as int, y as int, z as int),
    ensures
        r == face_exposed(chunk.pos, chunk.data@, store@, x as int, y as int, z as int, d),
{
    let b = chunk.data.get(x, y, z);
    if b.is_transparent() {
        false
    } else {
        neighbor_block(chunk, store, x, y, z, d).is_transparent()
    }
}

} // verus!
