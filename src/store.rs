//! The chunk store: partition coordinate to shared grid, with world-space
//! point lookup.

use std::collections::HashMap;
use std::sync::Arc;
use vstd::prelude::*;
use crate::block::BlockID;
use crate::coords::{floor_div, floor_mod, local_of, partition_of, IVec3, UVec3};
use crate::grid::{cell, cell_index, in_grid, share, BlockGrid, Chunk, GRID_CELLS};

verus! {

broadcast use vstd::std_specs::hash::group_hash_axioms;

/// Whether an integer partition coordinate fits an `IVec3`.
pub open spec fn partition_in_range(px: int, py: int, pz: int) -> bool {
    i32::MIN <= px <= i32::MAX && i32::MIN <= py <= i32::MAX && i32::MIN <= pz <= i32::MAX
}

/// The block at world point `(wx, wy, wz)` of a store: the cell at the
/// point's local offset in the grid of its partition, or air where that
/// partition is not resident.
pub open spec fn world_block(store: Map<IVec3, Seq<BlockID>>, wx: int, wy: int, wz: int) -> BlockID {
    let px = floor_div(wx);
    let py = floor_div(wy);
    let pz = floor_div(wz);
    let p = IVec3 { x: px as i32, y: py as i32, z: pz as i32 };
    if partition_in_range(px, py, pz) && store.contains_key(p) {
        store[p][cell_index(floor_mod(wx), floor_mod(wy), floor_mod(wz))]
    } else {
        BlockID::Air
    }
}

/// The map key of a partition coordinate: its three components, each moved
/// into `[0, 2^32)`, as digits of one number.
spec fn key_of(p: IVec3) -> u128 {
    ((p.x as int + 0x8000_0000) * 0x1_0000_0000_0000_0000 + (p.y as int + 0x8000_0000)
        * 0x1_0000_0000 + (p.z as int + 0x8000_0000)) as u128
}

proof fn lemma_key_injective(p: IVec3, q: IVec3)
    ensures
        key_of(p) == key_of(q) ==> p == q,
{
    let (a1, b1, c1) = (p.x as int + 0x8000_0000, p.y as int + 0x8000_0000, p.z as int + 0x8000_0000);
    let (a2, b2, c2) = (q.x as int + 0x8000_0000, q.y as int + 0x8000_0000, q.z as int + 0x8000_0000);
    let k1 = a1 * 0x1_0000_0000_0000_0000 + b1 * 0x1_0000_0000 + c1;
    let k2 = a2 * 0x1_0000_0000_0000_0000 + b2 * 0x1_0000_0000 + c2;
    assert(0 <= k1 < 0x1_0000_0000_0000_0000_0000_0000);
    assert(0 <= k2 < 0x1_0000_0000_0000_0000_0000_0000);
    if k1 == k2 {
        vstd::arithmetic::div_mod::lemma_fundamental_div_mod_converse(
            k1,
            0x1_0000_0000,
            a1 * 0x1_0000_0000 + b1,
            c1,
        );
        vstd::arithmetic::div_mod::lemma_fundamental_div_mod_converse(
            k2,
            0x1_0000_0000,
            a2 * 0x1_0000_0000 + b2,
            c2,
        );
        vstd::arithmetic::div_mod::lemma_fundamental_div_mod_converse(
            a1 * 0x1_0000_0000 + b1,
            0x1_0000_0000,
            a1,
            b1,
        );
        vstd::arithmetic::div_mod::lemma_fundamental_div_mod_converse(
            a2 * 0x1_0000_0000 + b2,
            0x1_0000_0000,
            a2,
            b2,
        );
    }
}

fn key(p: IVec3) -> (r: u128)
    ensures
        r == key_of(p),
{
    let a = (p.x as i64 + 0x8000_0000) as u128;
    let b = (p.y as i64 + 0x8000_0000) as u128;
    let c = (p.z as i64 + 0x8000_0000) as u128;
    a * 0x1_0000_0000_0000_0000 + b * 0x1_0000_0000 + c
}

/// The resident partitions and their grids, plus the streaming radii.
///
/// Cloning the map clones only the grid handles: a snapshot shares the
/// grids and never sees later inserts.
#[derive(Debug)]
pub struct ChunkManager {
    map: HashMap<u128, Arc<BlockGrid>>,
    render_distance_hor: i32,
    render_distance_ver: i32,
}

impl View for ChunkManager {
    type V = Map<IVec3, Seq<BlockID>>;

    closed spec fn view(&self) -> Map<IVec3, Seq<BlockID>> {
        Map::new(|p: IVec3| self.map@.contains_key(key_of(p)), |p: IVec3| self.map@[key_of(p)]@)
    }
}

impl ChunkManager {
    /// Well-formedness: every resident grid is fully populated, and the
    /// radii are non-negative.
    pub closed spec fn wf(&self) -> bool {
        &&& forall|k: u128| #[trigger] self.map@.contains_key(k) ==> self.map@[k]@.len() == GRID_CELLS
        &&& self.render_distance_hor >= 0
        &&& self.render_distance_ver >= 0
    }

    pub closed spec fn spec_render_distance_hor(&self) -> int {
        self.render_distance_hor as int
    }

    pub closed spec fn spec_render_distance_ver(&self) -> int {
        self.render_distance_ver as int
    }

    /// An empty store with the given streaming radii, in partitions.
    pub fn new(render_distance_hor: i32, render_distance_ver: i32) -> (r: ChunkManager)
        requires
            render_distance_hor >= 0,
            render_distance_ver >= 0,
        ensures
            r.wf(),
            r@ == Map::<IVec3, Seq<BlockID>>::empty(),
            r.spec_render_distance_hor() == render_distance_hor,
            r.spec_render_distance_ver() == render_distance_ver,
    {
        let r = ChunkManager { map: HashMap::new(), render_distance_hor, render_distance_ver };
        assert(r@ =~= Map::<IVec3, Seq<BlockID>>::empty());
        r
    }

    pub fn render_distance_hor(&self) -> (r: i32)
        requires
            self.wf(),
        ensures
            r == self.spec_render_distance_hor(),
            r >= 0,
    {
        self.render_distance_hor
    }

    pub fn render_distance_ver(&self) -> (r: i32)
        requires
            self.wf(),
        ensures
            r == self.spec_render_distance_ver(),
            r >= 0,
    {
        self.render_distance_ver
    }

    /// Records `data` under partition `pos`, replacing any earlier grid there.
    pub fn insert_grid(&mut self, pos: IVec3, data: &Arc<BlockGrid>)
        requires
            old(self).wf(),
        ensures
            final(self).wf(),
            final(self)@ == old(self)@.insert(pos, data@),
            final(self).spec_render_distance_hor() == old(self).spec_render_distance_hor(),
            final(self).spec_render_distance_ver() == old(self).spec_render_distance_ver(),
    {
        let g: &BlockGrid = data;
        let n = g.cell_count();
        let k = key(pos);
        let handle = share(data);
        let ghost old_map = self.map@;
        self.map.insert(k, handle);
        proof {
            assert forall|q: IVec3| #![auto] key_of(q) == k implies q == pos by {
                lemma_key_injective(q, pos);
            }
            assert(self@ =~= old(self)@.insert(pos, data@));
        }
    }

    /// Records the chunk's grid under its partition coordinate
    /// (last writer wins).
    pub fn add_chunk(&mut self, chunk: &Chunk)
        requires
            old(self).wf(),
        ensures
            final(self).wf(),
            final(self)@ == old(self)@.insert(chunk.pos, chunk.data@),
            final(self).spec_render_distance_hor() == old(self).spec_render_distance_hor(),
            final(self).spec_render_distance_ver() == old(self).spec_render_distance_ver(),
    {
        self.insert_grid(chunk.pos, &chunk.data);
    }

    /// Whether partition `pos` is resident.
    pub fn contains(&self, pos: IVec3) -> (r: bool)
        requires
            self.wf(),
        ensures
            r == self@.contains_key(pos),
    {
        self.map.contains_key(&key(pos))
    }

    /// The shared grid of partition `pos`, if resident.
    pub fn get_grid(&self, pos: IVec3) -> (r: Option<Arc<BlockGrid>>)
        requires
            self.wf(),
        ensures
            r is Some <==> self@.contains_key(pos),
            r matches Some(g) ==> g@ == self@[pos],
    {
        match self.map.get(&key(pos)) {
            Some(g) => Some(share(g)),
            None => None,
        }
    }

    /// A value-level copy: same partitions, same shared grids, same radii.
    /// Later changes to either store do not reach the other.
    pub fn snapshot(&self) -> (r: ChunkManager)
        requires
            self.wf(),
        ensures
            r.wf(),
            r@ == self@,
            r.spec_render_distance_hor() == self.spec_render_distance_hor(),
            r.spec_render_distance_ver() == self.spec_render_distance_ver(),
    {
        let r = ChunkManager {
            map: self.map.clone(),
            render_distance_hor: self.render_distance_hor,
            render_distance_ver: self.render_distance_ver,
        };
        assert(r@ =~= self@);
        r
    }

    /// The block at a world point given with 64-bit coordinates; air where
    /// its partition is not resident.
    pub fn block_at(&self, wx: i64, wy: i64, wz: i64) -> (r: BlockID)
        requires
            self.wf(),
        ensures
            r == world_block(self@, wx as int, wy as int, wz as int),
    {
        let px = partition_of(wx);
        let py = partition_of(wy);
        let pz = partition_of(wz);
        if px < i32::MIN as i64 || px > i32::MAX as i64 || py < i32::MIN as i64 || py
            > i32::MAX as i64 || pz < i32::MIN as i64 || pz > i32::MAX as i64 {
            return BlockID::Air;
        }
        let p = IVec3 { x: px as i32, y: py as i32, z: pz as i32 };
        match self.map.get(&key(p)) {
            Some(g) => {
                let lx = local_of(wx);
                let ly = local_of(wy);
                let lz = local_of(wz);
                g.get(lx, ly, lz)
            },
            None => BlockID::Air,
        }
    }

    /// The block at local cell `block_index` of partition `chunk_index`, or
    /// air where that partition is not resident.
    pub fn get_block_from_index(&self, chunk_index: IVec3, block_index: UVec3) -> (r: BlockID)
        requires
            self.wf(),
            in_grid(block_index.x as int, block_index.y as int, block_index.z as int),
        ensures
            r == if self@.contains_key(chunk_index) {
                cell(self@[chunk_index], block_index.x as int, block_index.y as int, block_index.z as int)
            } else {
                BlockID::Air
            },
    {
        match self.map.get(&key(chunk_index)) {
            Some(g) => g.get(block_index.x, block_index.y, block_index.z),
            None => BlockID::Air,
        }
    }

    /// The block at world point `pos`: the partition is `floor(pos / 32)` and
    /// the cell is `pos - 32 * partition` on each axis. A point whose
    /// partition is not resident reads as air; this is not an error.
    pub fn get_block(&self, pos: IVec3) -> (r: BlockID)
        requires
            self.wf(),
        ensures
            r == world_block(self@, pos.x as int, pos.y as int, pos.z as int),
    {
        self.block_at(pos.x as i64, pos.y as i64, pos.z as i64)
    }
}

} // verus!
