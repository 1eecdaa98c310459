//! Streaming: the box of partitions around a viewpoint that must be
//! resident, and the instantiation of the missing ones.

use std::sync::Arc;
use vstd::prelude::*;
use crate::block::BlockID;
use crate::coords::{floor_div, partition_of, IVec3};
use crate::grid::BlockGrid;
use crate::store::ChunkManager;

verus! {

/// Whether partition `p` lies in the inclusive box of horizontal radius `h`
/// (x and z) and vertical radius `v` (y) around partition `c`.
pub open spec fn in_stream_box(c: (int, int, int), h: int, v: int, p: IVec3) -> bool {
    &&& c.0 - h <= p.x <= c.0 + h
    &&& c.1 - v <= p.y <= c.1 + v
    &&& c.2 - h <= p.z <= c.2 + h
}

/// The partition that contains world point `w`.
pub open spec fn viewpoint_partition(w: IVec3) -> (int, int, int) {
    (floor_div(w.x as int), floor_div(w.y as int), floor_div(w.z as int))
}

/// The store after streaming around partition `c`: every missing partition
/// of the box is added with grid `fill`; resident ones are kept as they are.
pub open spec fn streamed(
    store: Map<IVec3, Seq<BlockID>>,
    c: (int, int, int),
    h: int,
    v: int,
    fill: Seq<BlockID>,
) -> Map<IVec3, Seq<BlockID>> {
    Map::new(|p: IVec3| in_stream_box(c, h, v, p), |p: IVec3| fill).union_prefer_right(store)
}

/// The partitions that streaming around `c` creates.
pub open spec fn stream_missing(store: Map<IVec3, Seq<BlockID>>, c: (int, int, int), h: int, v: int) -> Set<IVec3> {
    Set::new(|p: IVec3| in_stream_box(c, h, v, p) && !store.contains_key(p))
}

/// Streaming twice around the same partition creates nothing the second
/// time, and leaves the store as the first time did.
pub proof fn lemma_stream_twice(
    store: Map<IVec3, Seq<BlockID>>,
    c: (int, int, int),
    h: int,
    v: int,
    fill: Seq<BlockID>,
)
    ensures
        stream_missing(streamed(store, c, h, v, fill), c, h, v) == Set::<IVec3>::empty(),
        streamed(streamed(store, c, h, v, fill), c, h, v, fill) == streamed(store, c, h, v, fill),
{
    assert(stream_missing(streamed(store, c, h, v, fill), c, h, v) =~= Set::<IVec3>::empty());
    assert(streamed(streamed(store, c, h, v, fill), c, h, v, fill) =~= streamed(store, c, h, v, fill));
}

fn clamp_i32(a: i64) -> (r: i64)
    ensures
        i32::MIN <= r <= i32::MAX,
        i32::MIN <= a <= i32::MAX ==> r == a,
        a < i32::MIN ==> r == i32::MIN,
        a > i32::MAX ==> r == i32::MAX,
{
    if a < i32::MIN as i64 {
        i32::MIN as i64
    } else if a > i32::MAX as i64 {
        i32::MAX as i64
    } else {
        a
    }
}

impl ChunkManager {
    /// Makes every partition of the box around `viewpoint`'s partition
    /// resident: each missing one gets grid `fill` (shared, not copied).
    /// Returns the partitions created, which the caller marks dirty.
    /// Nothing is evicted.
    pub fn manage_chunks(&mut self, viewpoint: IVec3, fill: &Arc<BlockGrid>) -> (r: Vec<IVec3>)
        requires
            old(self).wf(),
        ensures
            final(self).wf(),
            final(self)@ == streamed(
                old(self)@,
                viewpoint_partition(viewpoint),
                old(self).spec_render_distance_hor(),
                old(self).spec_render_distance_ver(),
                fill@,
            ),
            r@.to_set() == stream_missing(
                old(self)@,
                viewpoint_partition(viewpoint),
                old(self).spec_render_distance_hor(),
                old(self).spec_render_distance_ver(),
            ),
            r@.no_duplicates(),
            final(self).spec_render_distance_hor() == old(self).spec_render_distance_hor(),
            final(self).spec_render_distance_ver() == old(self).spec_render_distance_ver(),
    {
        let ghost s0 = self@;
        let ghost hh = self.spec_render_distance_hor();
        let ghost vv = self.spec_render_distance_ver();
        let h = self.render_distance_hor() as i64;
        let v = self.render_distance_ver() as i64;
        let cx = partition_of(viewpoint.x as i64);
        let cy = partition_of(viewpoint.y as i64);
        let cz = partition_of(viewpoint.z as i64);
        let ghost c = (cx as int, cy as int, cz as int);
        assert(c == viewpoint_partition(viewpoint));
        proof {
            crate::coords::lemma_coordinate_resolution(viewpoint.x as int);
            crate::coords::lemma_coordinate_resolution(viewpoint.y as int);
            crate::coords::lemma_coordinate_resolution(viewpoint.z as int);
        }
        let x0 = clamp_i32(cx - h);
        let x1 = clamp_i32(cx + h);
        let y0 = clamp_i32(cy - v);
        let y1 = clamp_i32(cy + v);
        let z0 = clamp_i32(cz - h);
        let z1 = clamp_i32(cz + h);
        assert(forall|p: IVec3| #[trigger] in_stream_box(c, hh, vv, p) <==> (x0 <= p.x <= x1 && y0 <= p.y <= y1
            && z0 <= p.z <= z1));
        let mut created: Vec<IVec3> = Vec::new();
        let mut x = x0;
        while x <= x1
            invariant
                self.wf(),
                x0 <= x <= x1 + 1,
                forall|p: IVec3| #[trigger] in_stream_box(c, hh, vv, p) <==> (x0 <= p.x <= x1 && y0 <= p.y <= y1
                    && z0 <= p.z <= z1),
                x0 <= x1 && y0 <= y1 && z0 <= z1 && i32::MIN <= x0 && x1 <= i32::MAX && i32::MIN <= y0 && y1 <= i32::MAX && i32::MIN <= z0 && z1 <= i32::MAX,

                self.spec_render_distance_hor() == hh,
                self.spec_render_distance_ver() == vv,
                forall|p: IVec3|
                    #[trigger] self@.contains_key(p) <==> s0.contains_key(p) || (in_stream_box(c, hh, vv, p)
                        && p.x < x),
                forall|p: IVec3| #[trigger] self@.contains_key(p) && s0.contains_key(p) ==> self@[p] == s0[p],
                forall|p: IVec3| #[trigger] self@.contains_key(p) && !s0.contains_key(p) ==> self@[p] == fill@,
                forall|p: IVec3|
                    #[trigger] created@.contains(p) <==> (in_stream_box(c, hh, vv, p) && !s0.contains_key(p)
                        && p.x < x),
                created@.no_duplicates(),
            decreases x1 + 1 - x,
        {
            let mut y = y0;
            while y <= y1
                invariant
                    self.wf(),
                    x0 <= x <= x1,
                    y0 <= y <= y1 + 1,
                    forall|p: IVec3| #[trigger] in_stream_box(c, hh, vv, p) <==> (x0 <= p.x <= x1 && y0 <= p.y <= y1
                    && z0 <= p.z <= z1),
                x0 <= x1 && y0 <= y1 && z0 <= z1 && i32::MIN <= x0 && x1 <= i32::MAX && i32::MIN <= y0 && y1 <= i32::MAX && i32::MIN <= z0 && z1 <= i32::MAX,

                    self.spec_render_distance_hor() == hh,
                    self.spec_render_distance_ver() == vv,
                    forall|p: IVec3|
                        #[trigger] self@.contains_key(p) <==> s0.contains_key(p) || (in_stream_box(c, hh, vv, p)
                            && (p.x < x || (p.x == x && p.y < y))),
                    forall|p: IVec3| #[trigger] self@.contains_key(p) && s0.contains_key(p) ==> self@[p] == s0[p],
                    forall|p: IVec3| #[trigger] self@.contains_key(p) && !s0.contains_key(p) ==> self@[p] == fill@,
                    forall|p: IVec3|
                        #[trigger] created@.contains(p) <==> (in_stream_box(c, hh, vv, p) && !s0.contains_key(p)
                            && (p.x < x || (p.x == x && p.y < y))),
                    created@.no_duplicates(),
                decreases y1 + 1 - y,
            {
                let mut z = z0;
                while z <= z1
                    invariant
                        self.wf(),
                        x0 <= x <= x1,
                        y0 <= y <= y1,
                        z0 <= z <= z1 + 1,
                        forall|p: IVec3| #[trigger] in_stream_box(c, hh, vv, p) <==> (x0 <= p.x <= x1 && y0 <= p.y <= y1
                    && z0 <= p.z <= z1),
                x0 <= x1 && y0 <= y1 && z0 <= z1 && i32::MIN <= x0 && x1 <= i32::MAX && i32::MIN <= y0 && y1 <= i32::MAX && i32::MIN <= z0 && z1 <= i32::MAX,

                        self.spec_render_distance_hor() == hh,
                        self.spec_render_distance_ver() == vv,
                        forall|p: IVec3|
                            #[trigger] self@.contains_key(p) <==> s0.contains_key(p) || (in_stream_box(c, hh, vv, p)
                                && (p.x < x || (p.x == x && p.y < y) || (p.x == x && p.y == y && p.z < z))),
                        forall|p: IVec3| #[trigger] self@.contains_key(p) && s0.contains_key(p) ==> self@[p] == s0[p],
                        forall|p: IVec3| #[trigger] self@.contains_key(p) && !s0.contains_key(p) ==> self@[p] == fill@,
                        forall|p: IVec3|
                            #[trigger] created@.contains(p) <==> (in_stream_box(c, hh, vv, p) && !s0.contains_key(p)
                                && (p.x < x || (p.x == x && p.y < y) || (p.x == x && p.y == y && p.z < z))),
                        created@.no_duplicates(),
                    decreases z1 + 1 - z,
                {
                    let p = IVec3 { x: x as i32, y: y as i32, z: z as i32 };
                    let ghost prev = created@;
                    if !self.contains(p) {
                        self.insert_grid(p, fill);
                        proof {
                            assert(!created@.contains(p));
                        }
                        created.push(p);
                    }
                    proof {
                        assert forall|q: IVec3|
                            #[trigger] created@.contains(q) <==> (in_stream_box(c, hh, vv, q) && !s0.contains_key(q)
                                && (q.x < x || (q.x == x && q.y < y) || (q.x == x && q.y == y && q.z < z + 1))) by {
                            if created@.len() > prev.len() {
                                assert(created@ == prev.push(p));
                                if q == p {
                                    assert(created@[prev.len() as int] == q);
                                } else {
                                    if prev.contains(q) {
                                        let i = choose|i: int| 0 <= i < prev.len() && prev[i] == q;
                                        assert(created@[i] == q);
                                    }
                                    if created@.contains(q) {
                                        let i = choose|i: int| 0 <= i < created@.len() && created@[i] == q;
                                        assert(prev[i] == q);
                                    }
                                }
                            } else {
                                assert(created@ == prev);
                                if q == p {
                                    assert(self@.contains_key(p));
                                }
                            }
                        }
                    }
                    z += 1;
                }
                y += 1;
            }
            x += 1;
        }
        proof {
            assert(self@ =~= streamed(s0, c, hh, vv, fill@));
            assert(created@.to_set() =~= stream_missing(s0, c, hh, vv));
        }
        created
    }
}

} // verus!
