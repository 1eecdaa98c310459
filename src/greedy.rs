//! The greedy mesher: per orientation, material and slice, merge the visible
//! faces into rectangles and pack each into a `GreedyQuad`.

use vstd::prelude::*;
use crate::bitmask::{bit_set, is_partition_of, lemma_set_bit, lemma_zero_bits, rect_covers, rect_fits, ChunkBitMaskSlice, SliceRect};
use crate::block::{BlockID, Direction};
use crate::coords::{IVec3, UVec2, UVec3};
use crate::faces::{face_exposed, face_visible};
use crate::greedy_quad::{encode, lemma_round_trip, quad_dir, quad_h, quad_mat, quad_w, quad_x, quad_y, quad_z, GreedyQuad};
use crate::grid::{cell, cell_index, in_grid, Chunk};
use crate::mesh::{lists_exposed_faces, Quad, VoxelMesh};
use crate::store::ChunkManager;

verus! {

/// Code written for a cell whose face is hidden.
pub const NO_FACE: u8 = 16;

/// The cell at slice `s`, row `r`, column `b` for orientation `d`: the slice
/// runs along the face normal, the row along the quad's height and the
/// column along its width.
pub open spec fn slice_cell(d: Direction, s: int, r: int, b: int) -> (int, int, int) {
    match d {
        Direction::Top | Direction::Bottom => (r, s, b),
        Direction::Left | Direction::Right => (s, r, b),
        Direction::Front | Direction::Back => (r, b, s),
    }
}

/// Inverse of `slice_cell`: `(slice, row, column)` of cell `(x, y, z)`.
pub open spec fn cell_slice(d: Direction, x: int, y: int, z: int) -> (int, int, int) {
    match d {
        Direction::Top | Direction::Bottom => (y, x, z),
        Direction::Left | Direction::Right => (x, y, z),
        Direction::Front | Direction::Back => (z, x, y),
    }
}

fn slice_to_cell(d: Direction, s: u32, r: u32, b: u32) -> (c: (u32, u32, u32))
    ensures
        (c.0 as int, c.1 as int, c.2 as int) == slice_cell(d, s as int, r as int, b as int),
{
    match d {
        Direction::Top | Direction::Bottom => (r, s, b),
        Direction::Left | Direction::Right => (s, r, b),
        Direction::Front | Direction::Back => (r, b, s),
    }
}

/// Whether quad `q` covers the face of cell `(x, y, z)` toward `d`.
pub open spec fn greedy_covers(q: GreedyQuad, x: int, y: int, z: int, d: Direction) -> bool {
    let c = cell_slice(d, x, y, z);
    let a = cell_slice(d, quad_x(q.data) as int, quad_y(q.data) as int, quad_z(q.data) as int);
    &&& quad_dir(q.data) == d.spec_index() as u32
    &&& c.0 == a.0
    &&& a.1 <= c.1 < a.1 + quad_h(q.data)
    &&& a.2 <= c.2 < a.2 + quad_w(q.data)
}

/// Fields in range: orientation below 6, sizes in `[1, 31]`.
pub open spec fn quad_fits(q: GreedyQuad) -> bool {
    &&& quad_dir(q.data) < 6
    &&& 1 <= quad_w(q.data) <= 31
    &&& 1 <= quad_h(q.data) <= 31
}

/// `quads` cover exactly the visible faces of the chunk, each face once, and
/// each quad carries the material of every cell it covers.
pub open spec fn covers_exposed_faces(
    pos: IVec3,
    g: Seq<BlockID>,
    store: Map<IVec3, Seq<BlockID>>,
    quads: Seq<GreedyQuad>,
) -> bool {
    &&& forall|i: int| 0 <= i < quads.len() ==> quad_fits(#[trigger] quads[i])
    &&& forall|i: int, x: int, y: int, z: int, d: Direction|
        0 <= i < quads.len() && #[trigger] greedy_covers(quads[i], x, y, z, d) ==> in_grid(x, y, z)
            && face_exposed(pos, g, store, x, y, z, d) && quad_mat(quads[i].data)
            == cell(g, x, y, z).spec_code() as u32
    &&& forall|x: int, y: int, z: int, d: Direction|
        in_grid(x, y, z) && #[trigger] face_exposed(pos, g, store, x, y, z, d) ==> exists|i: int|
            0 <= i < quads.len() && #[trigger] greedy_covers(quads[i], x, y, z, d)
    &&& forall|i: int, j: int, x: int, y: int, z: int, d: Direction|
        0 <= i < quads.len() && 0 <= j < quads.len() && #[trigger] greedy_covers(quads[i], x, y, z, d)
            && #[trigger] greedy_covers(quads[j], x, y, z, d) ==> i == j
}

/// The code recorded for cell `(x, y, z)` and orientation `d`: its material
/// where that face is visible, else `NO_FACE`.
pub open spec fn face_code(
    pos: IVec3,
    g: Seq<BlockID>,
    store: Map<IVec3, Seq<BlockID>>,
    x: int,
    y: int,
    z: int,
    d: Direction,
) -> u8 {
    if face_exposed(pos, g, store, x, y, z, d) {
        cell(g, x, y, z).spec_code()
    } else {
        NO_FACE
    }
}

/// For every cell, in `[x][y][z]` order, the material of its face toward `d`
/// where visible, else `NO_FACE`.
pub fn face_codes(chunk: &Chunk, store: &ChunkManager, d: Direction) -> (r: Vec<u8>)
    requires
        store.wf(),
    ensures
        r@.len() == 32768,
        forall|x: int, y: int, z: int|
            #![trigger cell_index(x, y, z)]
            in_grid(x, y, z) ==> r@[cell_index(x, y, z)] == face_code(
                chunk.pos,
                chunk.data@,
                store@,
                x,
                y,
                z,
                d,
            ),
{
    let mut out: Vec<u8> = Vec::new();
    let mut x: u32 = 0;
    while x < 32
        invariant
            x <= 32,
            store.wf(),
            out@.len() == x * 1024,
            forall|a: int, b: int, c: int|
                #![trigger cell_index(a, b, c)]
                in_grid(a, b, c) && cell_index(a, b, c) < out@.len() ==> out@[cell_index(a, b, c)]
                    == face_code(chunk.pos, chunk.data@, store@, a, b, c, d),
        decreases 32 - x,
    {
        let mut y: u32 = 0;
        while y < 32
            invariant
                x < 32,
                y <= 32,
                store.wf(),
                out@.len() == x * 1024 + y * 32,
                forall|a: int, b: int, c: int|
                    #![trigger cell_index(a, b, c)]
                    in_grid(a, b, c) && cell_index(a, b, c) < out@.len() ==> out@[cell_index(a, b, c)]
                        == face_code(chunk.pos, chunk.data@, store@, a, b, c, d),
            decreases 32 - y,
        {
            let mut z: u32 = 0;
            while z < 32
                invariant
                    x < 32,
                    y < 32,
                    z <= 32,
                    store.wf(),
                    out@.len() == x * 1024 + y * 32 + z,
                    forall|a: int, b: int, c: int|
                        #![trigger cell_index(a, b, c)]
                        in_grid(a, b, c) && cell_index(a, b, c) < out@.len() ==> out@[cell_index(a, b, c)]
                            == face_code(chunk.pos, chunk.data@, store@, a, b, c, d),
                decreases 32 - z,
            {
                let code = if face_visible(chunk, store, x, y, z, d) {
                    chunk.data.get(x, y, z).code()
                } else {
                    NO_FACE
                };
                let ghost prev = out@;
                out.push(code);
                proof {
                    assert forall|a: int, b: int, c: int|
                        #![trigger cell_index(a, b, c)]
                        in_grid(a, b, c) && cell_index(a, b, c) < out@.len() implies out@[cell_index(a, b, c)]
                            == face_code(chunk.pos, chunk.data@, store@, a, b, c, d) by {
                        if cell_index(a, b, c) == prev.len() {
                            assert(a == x && b == y && c == z);
                        } else {
                            assert(out@[cell_index(a, b, c)] == prev[cell_index(a, b, c)]);
                        }
                    }
                }
                z += 1;
            }
            y += 1;
        }
        x += 1;
    }
    out
}


/// Position in the flat `[x][y][z]` order of the cell at slice `s`, row `r`,
/// column `b` for orientation `d`.
pub open spec fn slice_index(d: Direction, s: int, r: int, b: int) -> int {
    let c = slice_cell(d, s, r, b);
    cell_index(c.0, c.1, c.2)
}

/// A mask over a whole chunk for one orientation and one material: bit `b`
/// of word `32 * s + r` flags the cell at slice `s`, row `r`, column `b`.
#[derive(Clone, Copy, Debug)]
pub struct ChunkBitMask {
    pub data: [u32; 1024],
}

impl ChunkBitMask {
    /// The empty mask.
    pub fn new() -> (r: ChunkBitMask)
        ensures
            forall|i: int| 0 <= i < 1024 ==> #[trigger] r.data@[i] == 0,
    {
        ChunkBitMask { data: [0u32; 1024] }
    }

    /// The mask of the cells whose code in `codes` is `m`, with slices taken
    /// along orientation `d`.
    pub fn from_codes(codes: &Vec<u8>, d: Direction, m: u8) -> (r: ChunkBitMask)
        requires
            codes@.len() == 32768,
        ensures
            forall|s: int, row: int, b: u32|
                0 <= s < 32 && 0 <= row < 32 && b < 32 ==> (#[trigger] bit_set(
                    r.data@[s * 32 + row],
                    b,
                ) <==> codes@[slice_index(d, s, row, b as int)] == m),
    {
        let mut mask = ChunkBitMask::new();
        let mut s: u32 = 0;
        while s < 32
            invariant
                s <= 32,
                codes@.len() == 32768,
                mask.data@.len() == 1024,
                forall|t: int, row: int, b: u32|
                    0 <= t < s && 0 <= row < 32 && b < 32 ==> (#[trigger] bit_set(
                        mask.data@[t * 32 + row],
                        b,
                    ) <==> codes@[slice_index(d, t, row, b as int)] == m),
            decreases 32 - s,
        {
            let mut row: u32 = 0;
            while row < 32
                invariant
                    s < 32,
                    row <= 32,
                    codes@.len() == 32768,
                    mask.data@.len() == 1024,
                    forall|t: int, rr: int, b: u32|
                        (0 <= t < s && 0 <= rr < 32 || t == s && 0 <= rr < row) && b < 32 ==> (
                        #[trigger] bit_set(mask.data@[t * 32 + rr], b) <==> codes@[slice_index(
                            d,
                            t,
                            rr,
                            b as int,
                        )] == m),
                decreases 32 - row,
            {
                let mut word: u32 = 0;
                let mut b: u32 = 0;
                proof {
                    assert forall|c: u32| c < 32 implies !#[trigger] bit_set(word, c) by {
                        lemma_zero_bits(c);
                    }
                }
                while b < 32
                    invariant
                        s < 32,
                        row < 32,
                        b <= 32,
                        codes@.len() == 32768,
                        forall|c: u32|
                            c < 32 ==> (#[trigger] bit_set(word, c) <==> (c < b && codes@[slice_index(
                                d,
                                s as int,
                                row as int,
                                c as int,
                            )] == m)),
                    decreases 32 - b,
                {
                    let (x, y, z) = slice_to_cell(d, s, row, b);
                    let idx = (x as usize) * 1024 + (y as usize) * 32 + z as usize;
                    assert(idx == slice_index(d, s as int, row as int, b as int));
                    let ghost old_word = word;
                    let hit = codes[idx] == m;
                    if hit {
                        word = word | (1u32 << b);
                    }
                    proof {
                        assert forall|c: u32|
                            c < 32 implies (#[trigger] bit_set(word, c) <==> (c < b + 1 && codes@[slice_index(
                                d,
                                s as int,
                                row as int,
                                c as int,
                            )] == m)) by {
                            if hit {
                                lemma_set_bit(old_word, b, c);
                            }
                            assert(bit_set(old_word, c) <==> (c < b && codes@[slice_index(
                                d,
                                s as int,
                                row as int,
                                c as int,
                            )] == m));
                        }
                    }
                    b += 1;
                }
                let ghost prev = mask.data@;
                mask.data[(s * 32 + row) as usize] = word;
                proof {
                    assert forall|t: int, rr: int, c: u32|
                        (0 <= t < s && 0 <= rr < 32 || t == s && 0 <= rr < row + 1) && c < 32 implies (
                        #[trigger] bit_set(mask.data@[t * 32 + rr], c) <==> codes@[slice_index(
                            d,
                            t,
                            rr,
                            c as int,
                        )] == m) by {
                        if t * 32 + rr != s * 32 + row {
                            assert(mask.data@[t * 32 + rr] == prev[t * 32 + rr]);
                        }
                    }
                }
                row += 1;
            }
            s += 1;
        }
        mask
    }

    /// The 32 rows of slice `s`.
    pub fn slice(&self, s: u32) -> (r: ChunkBitMaskSlice)
        requires
            s < 32,
        ensures
            forall|row: int| 0 <= row < 32 ==> #[trigger] r.data@[row] == self.data@[s * 32 + row],
    {
        let mut rows: [u32; 32] = [0u32; 32];
        let mut row: u32 = 0;
        while row < 32
            invariant
                s < 32,
                row <= 32,
                rows@.len() == 32,
                forall|k: int| 0 <= k < row ==> #[trigger] rows@[k] == self.data@[s * 32 + k],
            decreases 32 - row,
        {
            rows[row as usize] = self.data[(s * 32 + row) as usize];
            row += 1;
        }
        ChunkBitMaskSlice { data: rows }
    }
}


/// The quad for rectangle `q` of slice `s`, orientation `d`, material `m`:
/// anchored at the rectangle's lowest cell, width along the columns and
/// height along the rows.
pub open spec fn quad_of(d: Direction, m: u8, s: int, q: SliceRect) -> GreedyQuad {
    let a = slice_cell(d, s, q.row as int, q.col as int);
    GreedyQuad {
        data: encode(a.0 as u32, a.1 as u32, a.2 as u32, q.width, q.height, d.spec_index() as u32, m as u32),
    }
}

/// Order in which the mesher visits (orientation, material, slice).
pub open spec fn triple_rank(d: Direction, m: int, s: int) -> int {
    (d.spec_index() as int * 16 + m) * 32 + s
}

/// The visit rank of the face of cell `(x, y, z)` toward `d`.
pub open spec fn face_rank(g: Seq<BlockID>, x: int, y: int, z: int, d: Direction) -> int {
    triple_rank(d, cell(g, x, y, z).spec_code() as int, cell_slice(d, x, y, z).0)
}

/// The faces visited before rank `t` are covered exactly once by `quads`,
/// and `quads` cover nothing else.
pub open spec fn greedy_progress(
    pos: IVec3,
    g: Seq<BlockID>,
    store: Map<IVec3, Seq<BlockID>>,
    quads: Seq<GreedyQuad>,
    t: int,
) -> bool {
    &&& forall|i: int| 0 <= i < quads.len() ==> quad_fits(#[trigger] quads[i])
    &&& forall|i: int, x: int, y: int, z: int, d: Direction|
        0 <= i < quads.len() && #[trigger] greedy_covers(quads[i], x, y, z, d) ==> in_grid(x, y, z)
            && face_exposed(pos, g, store, x, y, z, d) && quad_mat(quads[i].data)
            == cell(g, x, y, z).spec_code() as u32 && face_rank(g, x, y, z, d) < t
    &&& forall|x: int, y: int, z: int, d: Direction|
        in_grid(x, y, z) && #[trigger] face_exposed(pos, g, store, x, y, z, d) && face_rank(g, x, y, z, d)
            < t ==> exists|i: int| 0 <= i < quads.len() && #[trigger] greedy_covers(quads[i], x, y, z, d)
    &&& forall|i: int, j: int, x: int, y: int, z: int, d: Direction|
        0 <= i < quads.len() && 0 <= j < quads.len() && #[trigger] greedy_covers(quads[i], x, y, z, d)
            && #[trigger] greedy_covers(quads[j], x, y, z, d) ==> i == j
}

proof fn lemma_quad_of(d: Direction, m: u8, s: int, q: SliceRect)
    requires
        0 <= s < 32,
        m < 16,
        rect_fits(q),
    ensures
        quad_fits(quad_of(d, m, s, q)),
        quad_mat(quad_of(d, m, s, q).data) == m as u32,
        forall|x: int, y: int, z: int, e: Direction|
            #[trigger] greedy_covers(quad_of(d, m, s, q), x, y, z, e) <==> (e == d && cell_slice(d, x, y, z).0 == s
                && q.row <= cell_slice(d, x, y, z).1 < q.row + q.height && q.col <= cell_slice(d, x, y, z).2
                < q.col + q.width),
{
    let a = slice_cell(d, s, q.row as int, q.col as int);
    lemma_round_trip(a.0 as u32, a.1 as u32, a.2 as u32, q.width, q.height, d.spec_index() as u32, m as u32);
    assert forall|x: int, y: int, z: int, e: Direction|
        #[trigger] greedy_covers(quad_of(d, m, s, q), x, y, z, e) <==> (e == d && cell_slice(d, x, y, z).0 == s
            && q.row <= cell_slice(d, x, y, z).1 < q.row + q.height && q.col <= cell_slice(d, x, y, z).2
            < q.col + q.width) by {
        crate::block::lemma_index_injective(e, d);
    }
}

/// Appending the quads of one slice's rectangles advances the progress by
/// one rank.
proof fn lemma_emit_slice(
    pos: IVec3,
    g: Seq<BlockID>,
    store: Map<IVec3, Seq<BlockID>>,
    quads: Seq<GreedyQuad>,
    rows: Seq<u32>,
    rects: Seq<SliceRect>,
    d: Direction,
    m: u8,
    s: int,
    next: Seq<GreedyQuad>,
)
    requires
        greedy_progress(pos, g, store, quads, triple_rank(d, m as int, s)),
        0 <= s < 32,
        m < 16,
        rows.len() == 32,
        forall|r: int, b: u32|
            0 <= r < 32 && b < 32 ==> (#[trigger] bit_set(rows[r], b) <==> {
                let c = slice_cell(d, s, r, b as int);
                face_code(pos, g, store, c.0, c.1, c.2, d) == m
            }),
        is_partition_of(rows, rects),
        next.len() == quads.len() + rects.len(),
        forall|i: int| 0 <= i < quads.len() ==> #[trigger] next[i] == quads[i],
        forall|j: int| 0 <= j < rects.len() ==> #[trigger] next[quads.len() + j] == quad_of(d, m, s, rects[j]),
    ensures
        greedy_progress(pos, g, store, next, triple_rank(d, m as int, s) + 1),
{
    let t = triple_rank(d, m as int, s);
    let n = quads.len();
    assert forall|j: int| 0 <= j < rects.len() implies {
        &&& quad_fits(quad_of(d, m, s, rects[j]))
        &&& quad_mat(quad_of(d, m, s, rects[j]).data) == m as u32
        &&& forall|x: int, y: int, z: int, e: Direction|
            #[trigger] greedy_covers(quad_of(d, m, s, rects[j]), x, y, z, e) <==> (e == d && cell_slice(d, x, y, z).0 == s
                && rects[j].row <= cell_slice(d, x, y, z).1 < rects[j].row + rects[j].height && rects[j].col
                <= cell_slice(d, x, y, z).2 < rects[j].col + rects[j].width)
    } by {
        assert(rect_fits(rects[j]));
        lemma_quad_of(d, m, s, rects[j]);
    }
    // What a new quad covers: visible faces of material `m` in slice `s`.
    assert forall|j: int, x: int, y: int, z: int, e: Direction|
        0 <= j < rects.len() && #[trigger] greedy_covers(next[n + j], x, y, z, e) implies {
            &&& e == d
            &&& in_grid(x, y, z)
            &&& face_exposed(pos, g, store, x, y, z, d)
            &&& cell(g, x, y, z).spec_code() == m
            &&& face_rank(g, x, y, z, d) == t
            &&& rect_covers(rects[j], cell_slice(d, x, y, z).1, cell_slice(d, x, y, z).2 as u32)
        } by {
        assert(greedy_covers(quad_of(d, m, s, rects[j]), x, y, z, e));
        let c = cell_slice(d, x, y, z);
        assert(rect_covers(rects[j], c.1, c.2 as u32));
        assert(bit_set(rows[c.1], c.2 as u32));
        assert(slice_cell(d, s, c.1, c.2) == (x, y, z));
    }
    assert forall|i: int| 0 <= i < next.len() implies quad_fits(#[trigger] next[i]) by {
        if i >= n {
            assert(next[n + (i - n)] == quad_of(d, m, s, rects[i - n]));
        }
    }
    assert forall|i: int, x: int, y: int, z: int, e: Direction|
        0 <= i < next.len() && #[trigger] greedy_covers(next[i], x, y, z, e) implies in_grid(x, y, z)
            && face_exposed(pos, g, store, x, y, z, e) && quad_mat(next[i].data)
            == cell(g, x, y, z).spec_code() as u32 && face_rank(g, x, y, z, e) < t + 1 by {
        if i >= n {
            let j = i - n;
            assert(next[n + j] == quad_of(d, m, s, rects[j]));
            assert(greedy_covers(next[n + j], x, y, z, e));
        } else {
            assert(greedy_covers(quads[i], x, y, z, e));
        }
    }
    assert forall|x: int, y: int, z: int, e: Direction|
        in_grid(x, y, z) && #[trigger] face_exposed(pos, g, store, x, y, z, e) && face_rank(g, x, y, z, e)
            < t + 1 implies exists|i: int| 0 <= i < next.len() && #[trigger] greedy_covers(next[i], x, y, z, e) by {
        if face_rank(g, x, y, z, e) < t {
            let i = choose|i: int| 0 <= i < quads.len() && #[trigger] greedy_covers(quads[i], x, y, z, e);
            assert(greedy_covers(next[i], x, y, z, e));
        } else {
            let c = cell_slice(e, x, y, z);
            crate::block::lemma_index_injective(e, d);
            assert(e == d);
            assert(slice_cell(d, s, c.1, c.2) == (x, y, z));
            assert(bit_set(rows[c.1], c.2 as u32));
            let j = choose|j: int| 0 <= j < rects.len() && #[trigger] rect_covers(rects[j], c.1, c.2 as u32);
            assert(next[n + j] == quad_of(d, m, s, rects[j]));
            assert(greedy_covers(next[n + j], x, y, z, e));
        }
    }
    assert forall|i: int, k: int, x: int, y: int, z: int, e: Direction|
        0 <= i < next.len() && 0 <= k < next.len() && #[trigger] greedy_covers(next[i], x, y, z, e)
            && #[trigger] greedy_covers(next[k], x, y, z, e) implies i == k by {
        if i >= n && k >= n {
            let ji = i - n;
            let jk = k - n;
            assert(next[n + ji] == quad_of(d, m, s, rects[ji]));
            assert(next[n + jk] == quad_of(d, m, s, rects[jk]));
            assert(greedy_covers(next[n + ji], x, y, z, e));
            assert(greedy_covers(next[n + jk], x, y, z, e));
            let c = cell_slice(d, x, y, z);
            assert(rect_covers(rects[ji], c.1, c.2 as u32));
            assert(rect_covers(rects[jk], c.1, c.2 as u32));
        } else if i >= n {
            assert(next[n + (i - n)] == quad_of(d, m, s, rects[i - n]));
            assert(greedy_covers(next[n + (i - n)], x, y, z, e));
            assert(greedy_covers(quads[k], x, y, z, e));
        } else if k >= n {
            assert(next[n + (k - n)] == quad_of(d, m, s, rects[k - n]));
            assert(greedy_covers(next[n + (k - n)], x, y, z, e));
            assert(greedy_covers(quads[i], x, y, z, e));
        } else {
            assert(greedy_covers(quads[i], x, y, z, e));
            assert(greedy_covers(quads[k], x, y, z, e));
        }
    }
}


proof fn lemma_slice_rows(
    pos: IVec3,
    g: Seq<BlockID>,
    st: Map<IVec3, Seq<BlockID>>,
    codes: Seq<u8>,
    mask: Seq<u32>,
    rows: Seq<u32>,
    d: Direction,
    m: u8,
    s: int,
)
    requires
        0 <= s < 32,
        codes.len() == 32768,
        forall|x: int, y: int, z: int|
            #![trigger cell_index(x, y, z)]
            in_grid(x, y, z) ==> codes[cell_index(x, y, z)] == face_code(pos, g, st, x, y, z, d),
        forall|t: int, row: int, b: u32|
            0 <= t < 32 && 0 <= row < 32 && b < 32 ==> (#[trigger] bit_set(mask[t * 32 + row], b)
                <==> codes[slice_index(d, t, row, b as int)] == m),
        forall|row: int| 0 <= row < 32 ==> #[trigger] rows[row] == mask[s * 32 + row],
    ensures
        forall|r: int, b: u32|
            0 <= r < 32 && b < 32 ==> (#[trigger] bit_set(rows[r], b) <==> {
                let c = slice_cell(d, s, r, b as int);
                face_code(pos, g, st, c.0, c.1, c.2, d) == m
            }),
{
    assert forall|r: int, b: u32|
        0 <= r < 32 && b < 32 implies (#[trigger] bit_set(rows[r], b) <==> {
            let c = slice_cell(d, s, r, b as int);
            face_code(pos, g, st, c.0, c.1, c.2, d) == m
        }) by {
        let c = slice_cell(d, s, r, b as int);
        assert(rows[r] == mask[s * 32 + r]);
        assert(bit_set(mask[s * 32 + r], b) <==> codes[slice_index(d, s, r, b as int)] == m);
        assert(codes[cell_index(c.0, c.1, c.2)] == face_code(pos, g, st, c.0, c.1, c.2, d));
    }
}

/// Appends the quad of each rectangle of slice `s`, in order.
fn emit_slice(quads: &mut Vec<GreedyQuad>, rects: &Vec<SliceRect>, d: Direction, m: u8, s: u32)
    requires
        s < 32,
        m < 16,
        forall|j: int| 0 <= j < rects@.len() ==> rect_fits(#[trigger] rects@[j]),
    ensures
        final(quads)@.len() == old(quads)@.len() + rects@.len(),
        forall|i: int| 0 <= i < old(quads)@.len() ==> #[trigger] final(quads)@[i] == old(quads)@[i],
        forall|j: int|
            0 <= j < rects@.len() ==> #[trigger] final(quads)@[old(quads)@.len() + j] == quad_of(
                d,
                m,
                s as int,
                rects@[j],
            ),
{
    let block = match BlockID::from_code(m) {
        Some(b) => b,
        None => BlockID::Air,
    };
    let ghost start = quads@;
    let mut j: usize = 0;
    while j < rects.len()
        invariant
            s < 32,
            m < 16,
            block.spec_code() == m,
            j <= rects@.len(),
            forall|k: int| 0 <= k < rects@.len() ==> rect_fits(#[trigger] rects@[k]),
            quads@.len() == start.len() + j,
            forall|i: int| 0 <= i < start.len() ==> #[trigger] quads@[i] == start[i],
            forall|k: int| 0 <= k < j ==> #[trigger] quads@[start.len() + k] == quad_of(d, m, s as int, rects@[k]),
        decreases rects@.len() - j,
    {
        let q = rects[j];
        assert(rect_fits(q));
        let (x, y, z) = slice_to_cell(d, s, q.row, q.col);
        let quad = GreedyQuad::new(UVec3 { x, y, z }, UVec2 { x: q.width, y: q.height }, d, block);
        quads.push(quad);
        j += 1;
    }
}

/// Geometry of the greedy path: the packed quads of one chunk, each with its
/// own orientation and material, and the chunk's partition coordinate.
#[derive(Clone, Debug)]
pub struct GreedyMesh {
    pub chunk_pos: IVec3,
    pub quads: Vec<GreedyQuad>,
}

impl VoxelMesh {
    /// The greedy mesh of `chunk`: for each orientation, material and slice,
    /// the visible faces merged into rectangles of at most 31 by 31. The
    /// quads cover exactly the faces that the naive mesher emits, each face
    /// once. Neighbors outside the chunk are read from `store`.
    pub fn gen_greedy_mesh(chunk: &Chunk, store: &ChunkManager) -> (r: GreedyMesh)
        requires
            store.wf(),
        ensures
            r.chunk_pos == chunk.pos,
            covers_exposed_faces(chunk.pos, chunk.data@, store@, r.quads@),
    {
        let ghost pos = chunk.pos;
        let ghost g = chunk.data@;
        let ghost st = store@;
        let mut quads: Vec<GreedyQuad> = Vec::new();
        let mut di: u8 = 0;
        while di < 6
            invariant
                di <= 6,
                store.wf(),
                pos == chunk.pos,
                g == chunk.data@,
                st == store@,
                greedy_progress(pos, g, st, quads@, di as int * 512),
            decreases 6 - di,
        {
            let d = match Direction::from_index(di) {
                Some(d) => d,
                None => Direction::Top,
            };
            let codes = face_codes(chunk, store, d);
            let mut m: u8 = 0;
            while m < 16
                invariant
                    di < 6,
                    d.spec_index() == di,
                    m <= 16,
                    store.wf(),
                    pos == chunk.pos,
                    g == chunk.data@,
                    st == store@,
                    codes@.len() == 32768,
                    forall|x: int, y: int, z: int|
                        #![trigger cell_index(x, y, z)]
                        in_grid(x, y, z) ==> codes@[cell_index(x, y, z)] == face_code(pos, g, st, x, y, z, d),
                    greedy_progress(pos, g, st, quads@, triple_rank(d, m as int, 0)),
                decreases 16 - m,
            {
                let mask = ChunkBitMask::from_codes(&codes, d, m);
                let mut s: u32 = 0;
                while s < 32
                    invariant
                        di < 6,
                        d.spec_index() == di,
                        m < 16,
                        s <= 32,
                        store.wf(),
                        pos == chunk.pos,
                        g == chunk.data@,
                        st == store@,
                        codes@.len() == 32768,
                        forall|x: int, y: int, z: int|
                            #![trigger cell_index(x, y, z)]
                            in_grid(x, y, z) ==> codes@[cell_index(x, y, z)] == face_code(pos, g, st, x, y, z, d),
                        forall|t: int, row: int, b: u32|
                            0 <= t < 32 && 0 <= row < 32 && b < 32 ==> (#[trigger] bit_set(
                                mask.data@[t * 32 + row],
                                b,
                            ) <==> codes@[slice_index(d, t, row, b as int)] == m),
                        greedy_progress(pos, g, st, quads@, triple_rank(d, m as int, s as int)),
                    decreases 32 - s,
                {
                    let slice = mask.slice(s);
                    let rects = slice.process();
                    let ghost before = quads@;
                    emit_slice(&mut quads, &rects, d, m, s);
                    proof {
                        lemma_slice_rows(pos, g, st, codes@, mask.data@, slice.data@, d, m, s as int);
                        lemma_emit_slice(pos, g, st, before, slice.data@, rects@, d, m, s as int, quads@);
                    }
                    s += 1;
                }
                m += 1;
            }
            di += 1;
        }
        proof {
            assert forall|x: int, y: int, z: int, d: Direction|
                in_grid(x, y, z) && #[trigger] face_exposed(pos, g, st, x, y, z, d) implies exists|i: int|
                    0 <= i < quads@.len() && #[trigger] greedy_covers(quads@[i], x, y, z, d) by {
                assert(face_rank(g, x, y, z, d) < 6 * 512);
            }
        }
        GreedyMesh { chunk_pos: chunk.pos, quads }
    }
}


/// Whether the naive mesh lists the face of cell `(x, y, z)` toward `d`.
pub open spec fn naive_has(naive: Seq<Seq<Quad>>, x: int, y: int, z: int, d: Direction) -> bool {
    exists|i: int|
        0 <= i < naive[d.spec_index() as int].len() && #[trigger] naive[d.spec_index() as int][i].pos
            == (UVec3 { x: x as u32, y: y as u32, z: z as u32 })
}

/// Whether some greedy quad covers the face of cell `(x, y, z)` toward `d`.
pub open spec fn greedy_has(greedy: Seq<GreedyQuad>, x: int, y: int, z: int, d: Direction) -> bool {
    exists|i: int| 0 <= i < greedy.len() && #[trigger] greedy_covers(greedy[i], x, y, z, d)
}

/// Face-culling equivalence: for any grid and store, a unit face is in the
/// naive mesh exactly when a quad of the greedy mesh covers it, no face is
/// covered twice, and nothing outside the grid is covered.
pub proof fn lemma_greedy_matches_naive(
    pos: IVec3,
    g: Seq<BlockID>,
    store: Map<IVec3, Seq<BlockID>>,
    naive: Seq<Seq<Quad>>,
    greedy: Seq<GreedyQuad>,
)
    requires
        naive.len() == 6,
        forall|d: Direction| lists_exposed_faces(pos, g, store, d, #[trigger] naive[d.spec_index() as int]),
        covers_exposed_faces(pos, g, store, greedy),
    ensures
        forall|x: int, y: int, z: int, d: Direction|
            in_grid(x, y, z) ==> (#[trigger] naive_has(naive, x, y, z, d) <==> #[trigger] greedy_has(greedy, x, y, z, d)),
        forall|i: int, x: int, y: int, z: int, d: Direction|
            0 <= i < greedy.len() && #[trigger] greedy_covers(greedy[i], x, y, z, d) ==> in_grid(x, y, z),
        forall|i: int, j: int, x: int, y: int, z: int, d: Direction|
            0 <= i < greedy.len() && 0 <= j < greedy.len() && #[trigger] greedy_covers(greedy[i], x, y, z, d)
                && #[trigger] greedy_covers(greedy[j], x, y, z, d) ==> i == j,
{
    assert forall|x: int, y: int, z: int, d: Direction|
        in_grid(x, y, z) implies (#[trigger] naive_has(naive, x, y, z, d) <==> #[trigger] greedy_has(greedy, x, y, z, d)) by {
        let list = naive[d.spec_index() as int];
        assert(lists_exposed_faces(pos, g, store, d, list));
        if naive_has(naive, x, y, z, d) {
            let i = choose|i: int| 0 <= i < list.len() && #[trigger] list[i].pos == (UVec3 { x: x as u32, y: y as u32, z: z as u32 });
            assert(face_exposed(pos, g, store, list[i].pos.x as int, list[i].pos.y as int, list[i].pos.z as int, d));
            assert(face_exposed(pos, g, store, x, y, z, d));
        }
        if greedy_has(greedy, x, y, z, d) {
            assert(face_exposed(pos, g, store, x, y, z, d));
        }
    }
}

} // verus!
