//! The naive mesher: one unit quad per visible face, bucketed by the six
//! orientations.

use vstd::prelude::*;
use crate::block::Direction;
use crate::coords::{IVec3, UVec3};
use crate::faces::{face_exposed, face_visible};
use crate::grid::{cell_index, in_grid, Chunk};
use crate::store::ChunkManager;

verus! {

/// One unit face, anchored at a local cell whose coordinates are in `[0, 32)`.
#[derive(Clone, Copy, Debug, PartialEq, Eq, Structural)]
pub struct Quad {
    pub pos: UVec3,
}

impl Quad {
    pub fn new(pos: UVec3) -> (r: Quad)
        ensures
            r.pos == pos,
    {
        Quad { pos }
    }
}

/// Position of a quad's cell in the flat `[x][y][z]` order.
pub open spec fn quad_index(q: Quad) -> int {
    cell_index(q.pos.x as int, q.pos.y as int, q.pos.z as int)
}

/// `quads` lists exactly the cells whose face toward `d` is visible, once
/// each, in `[x][y][z]` order.
pub open spec fn lists_exposed_faces(
    chunk_pos: IVec3,
    g: Seq<crate::block::BlockID>,
    store: Map<IVec3, Seq<crate::block::BlockID>>,
    d: Direction,
    quads: Seq<Quad>,
) -> bool {
    &&& forall|i: int|
        0 <= i < quads.len() ==> in_grid(
            quads[i].pos.x as int,
            quads[i].pos.y as int,
            quads[i].pos.z as int,
        ) && face_exposed(
            chunk_pos,
            g,
            store,
            quads[i].pos.x as int,
            quads[i].pos.y as int,
            quads[i].pos.z as int,
            d,
        )
    &&& forall|x: int, y: int, z: int|
        in_grid(x, y, z) && #[trigger] face_exposed(chunk_pos, g, store, x, y, z, d) ==> exists|
            i: int,
        |
            0 <= i < quads.len() && #[trigger] quads[i].pos == (UVec3 {
                x: x as u32,
                y: y as u32,
                z: z as u32,
            })
    &&& forall|i: int, j: int|
        0 <= i < j < quads.len() ==> quad_index(#[trigger] quads[i]) < quad_index(
            #[trigger] quads[j],
        )
}

/// One orientation of a naive mesh, in the form the rendering side consumes:
/// the chunk's partition coordinate, the orientation code and the quads.
#[derive(Clone, Debug)]
pub struct VoxelMeshToGPU {
    pub chunk_pos: [i32; 3],
    pub orientation: u32,
    pub quads: Vec<Quad>,
}

/// The naive mesh of one chunk: for each orientation (indexed by its code),
/// the list of visible unit faces.
#[derive(Clone, Debug)]
pub struct VoxelMesh {
    pub chunk_pos: IVec3,
    pub quads: Vec<Vec<Quad>>,
}

impl VoxelMesh {
    /// A mesh with six empty lists.
    pub fn new(chunk_pos: IVec3) -> (r: VoxelMesh)
        ensures
            r.chunk_pos == chunk_pos,
            r.quads@.len() == 6,
            forall|i: int| 0 <= i < 6 ==> (#[trigger] r.quads@[i])@.len() == 0,
    {
        let mut quads: Vec<Vec<Quad>> = Vec::new();
        let mut i: usize = 0;
        while i < 6
            invariant
                i <= 6,
                quads@.len() == i,
                forall|k: int| 0 <= k < i ==> (#[trigger] quads@[k])@.len() == 0,
            decreases 6 - i,
        {
            quads.push(Vec::new());
            i += 1;
        }
        VoxelMesh { chunk_pos, quads }
    }

    /// The list of orientation `d`, tagged with the chunk and orientation.
    pub fn side_for_gpu(&self, d: Direction) -> (r: VoxelMeshToGPU)
        requires
            self.quads@.len() == 6,
        ensures
            r.chunk_pos@ == seq![self.chunk_pos.x, self.chunk_pos.y, self.chunk_pos.z],
            r.orientation == d.spec_index() as u32,
            r.quads@ == self.quads@[d.spec_index() as int]@,
    {
        let i = d.index() as usize;
        let src = &self.quads[i];
        let mut quads: Vec<Quad> = Vec::new();
        let mut k: usize = 0;
        while k < src.len()
            invariant
                k <= src@.len(),
                quads@ == src@.subrange(0, k as int),
            decreases src@.len() - k,
        {
            quads.push(src[k]);
            k += 1;
        }
        proof {
            assert(quads@ =~= src@);
        }
        let chunk_pos = [self.chunk_pos.x, self.chunk_pos.y, self.chunk_pos.z];
        proof {
            assert(chunk_pos@ =~= seq![self.chunk_pos.x, self.chunk_pos.y, self.chunk_pos.z]);
        }
        VoxelMeshToGPU { chunk_pos, orientation: i as u32, quads }
    }

    /// The visible unit faces of `chunk` toward `d`, in `[x][y][z]` order.
    /// Neighbors outside the chunk are read from `store`.
    pub fn cull_faces(chunk: &Chunk, store: &ChunkManager, d: Direction) -> (r: Vec<Quad>)
        requires
            store.wf(),
        ensures
            lists_exposed_faces(chunk.pos, chunk.data@, store@, d, r@),
    {
        let mut out: Vec<Quad> = Vec::new();
        let mut x: u32 = 0;
        while x < 32
            invariant
                x <= 32,
                store.wf(),
                forall|i: int|
                    0 <= i < out@.len() ==> in_grid(
                        out@[i].pos.x as int,
                        out@[i].pos.y as int,
                        out@[i].pos.z as int,
                    ) && face_exposed(
                        chunk.pos,
                        chunk.data@,
                        store@,
                        out@[i].pos.x as int,
                        out@[i].pos.y as int,
                        out@[i].pos.z as int,
                        d,
                    ) && (out@[i].pos.x as int) < x,
                forall|a: int, b: int, c: int|
                    in_grid(a, b, c) && a < x && #[trigger] face_exposed(
                        chunk.pos,
                        chunk.data@,
                        store@,
                        a,
                        b,
                        c,
                        d,
                    ) ==> exists|i: int|
                        0 <= i < out@.len() && #[trigger] out@[i].pos == (UVec3 {
                            x: a as u32,
                            y: b as u32,
                            z: c as u32,
                        }),
                forall|i: int, j: int|
                    0 <= i < j < out@.len() ==> quad_index(#[trigger] out@[i]) < quad_index(
                        #[trigger] out@[j],
                    ),
            decreases 32 - x,
        {
            let mut y: u32 = 0;
            while y < 32
                invariant
                    x < 32,
                    y <= 32,
                    store.wf(),
                    forall|i: int|
                        0 <= i < out@.len() ==> in_grid(
                            out@[i].pos.x as int,
                            out@[i].pos.y as int,
                            out@[i].pos.z as int,
                        ) && face_exposed(
                            chunk.pos,
                            chunk.data@,
                            store@,
                            out@[i].pos.x as int,
                            out@[i].pos.y as int,
                            out@[i].pos.z as int,
                            d,
                        ) && (out@[i].pos.x < x || (out@[i].pos.x == x && out@[i].pos.y < y)),
                    forall|a: int, b: int, c: int|
                        in_grid(a, b, c) && (a < x || (a == x && b < y)) && #[trigger] face_exposed(
                            chunk.pos,
                            chunk.data@,
                            store@,
                            a,
                            b,
                            c,
                            d,
                        ) ==> exists|i: int|
                            0 <= i < out@.len() && #[trigger] out@[i].pos == (UVec3 {
                                x: a as u32,
                                y: b as u32,
                                z: c as u32,
                            }),
                    forall|i: int, j: int|
                        0 <= i < j < out@.len() ==> quad_index(#[trigger] out@[i]) < quad_index(
                            #[trigger] out@[j],
                        ),
                decreases 32 - y,
            {
                let mut z: u32 = 0;
                while z < 32
                    invariant
                        x < 32,
                        y < 32,
                        z <= 32,
                        store.wf(),
                        forall|i: int|
                            0 <= i < out@.len() ==> in_grid(
                                out@[i].pos.x as int,
                                out@[i].pos.y as int,
                                out@[i].pos.z as int,
                            ) && face_exposed(
                                chunk.pos,
                                chunk.data@,
                                store@,
                                out@[i].pos.x as int,
                                out@[i].pos.y as int,
                                out@[i].pos.z as int,
                                d,
                            ) && (out@[i].pos.x < x || (out@[i].pos.x == x && out@[i].pos.y < y)
                                || (out@[i].pos.x == x && out@[i].pos.y == y && out@[i].pos.z
                                < z)),
                        forall|a: int, b: int, c: int|
                            in_grid(a, b, c) && (a < x || (a == x && b < y) || (a == x && b == y
                                && c < z)) && #[trigger] face_exposed(
                                chunk.pos,
                                chunk.data@,
                                store@,
                                a,
                                b,
                                c,
                                d,
                            ) ==> exists|i: int|
                                0 <= i < out@.len() && #[trigger] out@[i].pos == (UVec3 {
                                    x: a as u32,
                                    y: b as u32,
                                    z: c as u32,
                                }),
                        forall|i: int, j: int|
                            0 <= i < j < out@.len() ==> quad_index(#[trigger] out@[i])
                                < quad_index(#[trigger] out@[j]),
                    decreases 32 - z,
                {
                    if face_visible(chunk, store, x, y, z, d) {
                        let ghost prev = out@;
                        let q = Quad::new(UVec3 { x, y, z });
                        out.push(q);
                        proof {
                            assert forall|a: int, b: int, c: int|
                                in_grid(a, b, c) && (a < x || (a == x && b < y) || (a == x && b
                                    == y && c < z + 1)) && #[trigger] face_exposed(
                                    chunk.pos,
                                    chunk.data@,
                                    store@,
                                    a,
                                    b,
                                    c,
                                    d,
                                ) implies exists|i: int|
                                0 <= i < out@.len() && #[trigger] out@[i].pos == (UVec3 {
                                    x: a as u32,
                                    y: b as u32,
                                    z: c as u32,
                                }) by {
                                if a == x && b == y && c == z {
                                    assert(out@[prev.len() as int].pos == (UVec3 {
                                        x: a as u32,
                                        y: b as u32,
                                        z: c as u32,
                                    }));
                                } else {
                                    let i = choose|i: int|
                                        0 <= i < prev.len() && #[trigger] prev[i].pos == (UVec3 {
                                            x: a as u32,
                                            y: b as u32,
                                            z: c as u32,
                                        });
                                    assert(out@[i] == prev[i]);
                                }
                            }
                        }
                    }
                    z += 1;
                }
                y += 1;
            }
            x += 1;
        }
        out
    }

    /// The naive mesh of `chunk`: for each orientation, exactly the visible
    /// unit faces, in `[x][y][z]` order. No merging.
    pub fn gen_mesh(chunk: &Chunk, store: &ChunkManager) -> (r: VoxelMesh)
        requires
            store.wf(),
        ensures
            r.chunk_pos == chunk.pos,
            r.quads@.len() == 6,
            forall|d: Direction|
                lists_exposed_faces(
                    chunk.pos,
                    chunk.data@,
                    store@,
                    d,
                    #[trigger] r.quads@[d.spec_index() as int]@,
                ),
    {
        let mut quads: Vec<Vec<Quad>> = Vec::new();
        let mut i: u8 = 0;
        while i < 6
            invariant
                i <= 6,
                store.wf(),
                quads@.len() == i,
                forall|d: Direction|
                    (d.spec_index() as int) < i ==> lists_exposed_faces(
                        chunk.pos,
                        chunk.data@,
                        store@,
                        d,
                        #[trigger] quads@[d.spec_index() as int]@,
                    ),
            decreases 6 - i,
        {
            let d = match Direction::from_index(i) {
                Some(d) => d,
                None => Direction::Top,
            };
            let list = VoxelMesh::cull_faces(chunk, store, d);
            quads.push(list);
            proof {
                assert forall|e: Direction|
                    (e.spec_index() as int) < i + 1 implies lists_exposed_faces(
                    chunk.pos,
                    chunk.data@,
                    store@,
                    e,
                    #[trigger] quads@[e.spec_index() as int]@,
                ) by {
                    if e.spec_index() == i {
                        crate::block::lemma_index_injective(e, d);
                    }
                }
            }
            i += 1;
        }
        VoxelMesh { chunk_pos: chunk.pos, quads }
    }
}

} // verus!
