//! Dense block grids and chunks.

use std::sync::Arc;
use vstd::prelude::*;
use crate::block::BlockID;
use crate::coords::IVec3;

verus! {

/// Number of cells in a grid: `32 * 32 * 32`.
pub const GRID_CELLS: usize = 32768;

/// Position of cell `[x][y][z]` in the flat cell sequence.
pub open spec fn cell_index(x: int, y: int, z: int) -> int {
    x * 1024 + y * 32 + z
}

/// Whether a local coordinate lies inside a grid.
pub open spec fn in_grid(x: int, y: int, z: int) -> bool {
    0 <= x < 32 && 0 <= y < 32 && 0 <= z < 32
}

/// The block of cell `[x][y][z]` of a grid's cell sequence.
pub open spec fn cell(g: Seq<BlockID>, x: int, y: int, z: int) -> BlockID {
    g[cell_index(x, y, z)]
}

/// The checkerboard fill: materials alternate, stone first, along the flat
/// cell order.
pub open spec fn checker_block(i: int) -> BlockID {
    if i % 2 == 0 {
        BlockID::Stone
    } else {
        BlockID::Air
    }
}

/// A fully populated `32 x 32 x 32` grid of blocks, indexed `[x][y][z]`.
#[derive(Debug)]
pub struct BlockGrid {
    cells: Vec<BlockID>,
}

impl View for BlockGrid {
    type V = Seq<BlockID>;

    closed spec fn view(&self) -> Seq<BlockID> {
        self.cells@
    }
}

impl BlockGrid {
    #[verifier::type_invariant]
    spec fn full(&self) -> bool {
        self.cells@.len() == GRID_CELLS
    }

    /// Number of cells: always `GRID_CELLS`.
    pub fn cell_count(&self) -> (r: usize)
        ensures
            r == self@.len(),
            r == GRID_CELLS,
    {
        proof {
            use_type_invariant(self);
        }
        self.cells.len()
    }

    /// A grid whose every cell holds `b`.
    pub fn filled(b: BlockID) -> (r: BlockGrid)
        ensures
            r@ == Seq::new(GRID_CELLS as nat, |_i: int| b),
    {
        let mut cells: Vec<BlockID> = Vec::new();
        let mut i: usize = 0;
        while i < GRID_CELLS
            invariant
                i <= GRID_CELLS,
                cells@ == Seq::new(i as nat, |_i: int| b),
            decreases GRID_CELLS - i,
        {
            cells.push(b);
            i += 1;
        }
        BlockGrid { cells }
    }

    /// The checkerboard grid that freshly streamed partitions are filled with.
    pub fn checkerboard() -> (r: BlockGrid)
        ensures
            r@ == Seq::new(GRID_CELLS as nat, |i: int| checker_block(i)),
    {
        let mut cells: Vec<BlockID> = Vec::new();
        let mut toggle: bool = true;
        let mut i: usize = 0;
        while i < GRID_CELLS
            invariant
                i <= GRID_CELLS,
                toggle == (i % 2 == 0),
                cells@ == Seq::new(i as nat, |k: int| checker_block(k)),
            decreases GRID_CELLS - i,
        {
            cells.push(if toggle { BlockID::Stone } else { BlockID::Air });
            toggle = !toggle;
            i += 1;
        }
        BlockGrid { cells }
    }

    /// A grid from its cells in `[x][y][z]` order; `None` unless there are
    /// exactly `GRID_CELLS` of them.
    pub fn from_cells(cells: Vec<BlockID>) -> (r: Option<BlockGrid>)
        ensures
            r is Some <==> cells@.len() == GRID_CELLS,
            r matches Some(g) ==> g@ == cells@,
    {
        if cells.len() == GRID_CELLS {
            Some(BlockGrid { cells })
        } else {
            None
        }
    }

    /// The block of cell `[x][y][z]`.
    pub fn get(&self, x: u32, y: u32, z: u32) -> (r: BlockID)
        requires
            in_grid(x as int, y as int, z as int),
        ensures
            r == cell(self@, x as int, y as int, z as int),
    {
        proof {
            use_type_invariant(self);
        }
        self.cells[(x as usize) * 1024 + (y as usize) * 32 + z as usize]
    }

    /// The same grid with cell `[x][y][z]` set to `b`. A grid is built this
    /// way before it is shared in a chunk, and never edited afterwards.
    pub fn with_block(self, x: u32, y: u32, z: u32, b: BlockID) -> (r: BlockGrid)
        requires
            in_grid(x as int, y as int, z as int),
        ensures
            r@ == self@.update(cell_index(x as int, y as int, z as int), b),
    {
        proof {
            use_type_invariant(&self);
        }
        let BlockGrid { mut cells } = self;
        let i = (x as usize) * 1024 + (y as usize) * 32 + z as usize;
        cells.set(i, b);
        BlockGrid { cells }
    }
}

/// Relies on `Arc::clone`: the new handle shares the same value, which is
/// not copied.
#[verifier::external_body]
pub(crate) fn share<T>(a: &Arc<T>) -> (r: Arc<T>)
    ensures
        r == *a,
{
    Arc::clone(a)
}

/// One partition of the world: its coordinate and its shared grid.
#[derive(Clone, Debug)]
pub struct Chunk {
    pub data: Arc<BlockGrid>,
    pub pos: IVec3,
}

impl Chunk {
    pub fn new(pos: IVec3, grid: BlockGrid) -> (r: Chunk)
        ensures
            r.pos == pos,
            r.data@ == grid@,
    {
        Chunk { data: Arc::new(grid), pos }
    }
}

} // verus!
