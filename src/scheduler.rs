//! The build scheduler: which chunks get a mesh build, and what a finished
//! or failed build does to a chunk's state. Running the builds and polling
//! them is the caller's part; each decision here is one call.

use std::sync::Arc;
use vstd::prelude::*;
use crate::block::BlockID;
use crate::coords::IVec3;
use crate::faces::face_exposed;
use crate::greedy::{covers_exposed_faces, greedy_has, GreedyMesh};
use crate::grid::{in_grid, share, Chunk};
use crate::mesh::VoxelMesh;
use crate::store::ChunkManager;

verus! {

/// Builds a chunk gets before it is marked failed: a faulted build is
/// retried at the next dispatch pass until this many have faulted.
pub const MAX_BUILD_ATTEMPTS: u32 = 3;

/// Life cycle of a chunk's geometry.
#[derive(Clone, Copy, Debug, PartialEq, Eq, Structural)]
pub enum ChunkState {
    /// Not yet scheduled.
    Clean,
    /// Needs a build.
    Dirty,
    /// A build is in flight; not dispatched again meanwhile.
    Building,
    /// A build finished and its geometry was handed out.
    Renderable,
    /// Every allowed build faulted.
    Failed,
}

/// What the scheduler knows of one chunk.
#[derive(Clone, Copy, Debug, PartialEq, Eq, Structural)]
pub struct ChunkRecord {
    pub pos: IVec3,
    pub state: ChunkState,
    /// Builds of the current content that have faulted.
    pub attempts: u32,
}

/// The result of one build, as the worker reports it.
#[derive(Clone, Debug)]
pub enum BuildOutcome {
    Finished(GreedyMesh),
    Faulted,
}

/// One build task: the chunk to mesh and a snapshot of the store taken when
/// it was dispatched. Later changes to the live store do not reach it.
#[derive(Clone, Debug)]
pub struct BuildJob {
    pub chunk: Chunk,
    pub snapshot: Arc<ChunkManager>,
}

impl BuildJob {
    pub open spec fn wf(&self) -> bool {
        self.snapshot.wf()
    }

    /// Runs the greedy mesher on the job's chunk against its snapshot.
    pub fn run(&self) -> (r: GreedyMesh)
        requires
            self.wf(),
        ensures
            r.chunk_pos == self.chunk.pos,
            covers_exposed_faces(self.chunk.pos, self.chunk.data@, self.snapshot@, r.quads@),
    {
        VoxelMesh::gen_greedy_mesh(&self.chunk, &self.snapshot)
    }
}

/// The geometry of a build depends on the store only through the snapshot
/// taken at dispatch: the faces it covers are those visible in the store as
/// it stood then, whatever happened to the live store since.
pub proof fn lemma_build_uses_snapshot(
    job: BuildJob,
    store_at_dispatch: Map<IVec3, Seq<BlockID>>,
    mesh: GreedyMesh,
)
    requires
        job.snapshot@ == store_at_dispatch,
        covers_exposed_faces(job.chunk.pos, job.chunk.data@, job.snapshot@, mesh.quads@),
    ensures
        forall|x: int, y: int, z: int, d: crate::block::Direction|
            #[trigger] greedy_has(mesh.quads@, x, y, z, d) <==> (in_grid(x, y, z) && face_exposed(
                job.chunk.pos,
                job.chunk.data@,
                store_at_dispatch,
                x,
                y,
                z,
                d,
            )),
{
}

/// The record after a faulted build.
pub open spec fn after_fault(r: ChunkRecord) -> ChunkRecord {
    if r.attempts + 1 < MAX_BUILD_ATTEMPTS {
        ChunkRecord { pos: r.pos, state: ChunkState::Dirty, attempts: (r.attempts + 1) as u32 }
    } else {
        ChunkRecord { pos: r.pos, state: ChunkState::Failed, attempts: (r.attempts + 1) as u32 }
    }
}

/// Whether a dispatch pass starts a build for this record.
pub open spec fn dispatches(r: ChunkRecord, store: Map<IVec3, Seq<BlockID>>) -> bool {
    r.state == ChunkState::Dirty && store.contains_key(r.pos)
}

/// The record after a dispatch pass.
pub open spec fn after_dispatch(r: ChunkRecord, store: Map<IVec3, Seq<BlockID>>) -> ChunkRecord {
    if dispatches(r, store) {
        ChunkRecord { pos: r.pos, state: ChunkState::Building, attempts: r.attempts }
    } else {
        r
    }
}

/// A record's attempt count is within bounds, and below the bound while a
/// build is pending or running.
pub open spec fn record_ok(r: ChunkRecord) -> bool {
    &&& r.attempts <= MAX_BUILD_ATTEMPTS
    &&& (r.state == ChunkState::Dirty || r.state == ChunkState::Building) ==> r.attempts < MAX_BUILD_ATTEMPTS
}

/// Whether some job is for partition `p`.
pub open spec fn has_job_for(jobs: Seq<BuildJob>, p: IVec3) -> bool {
    exists|j: int| 0 <= j < jobs.len() && #[trigger] jobs[j].chunk.pos == p
}

/// Whether a dispatch pass over `recs` starts a build for partition `p`.
pub open spec fn dispatches_at(recs: Seq<ChunkRecord>, store: Map<IVec3, Seq<BlockID>>, p: IVec3) -> bool {
    exists|i: int| 0 <= i < recs.len() && #[trigger] recs[i].pos == p && dispatches(recs[i], store)
}

/// Whether a record before index `n` of `recs` is dispatched and at `p`.
pub open spec fn dispatched_before(recs: Seq<ChunkRecord>, store: Map<IVec3, Seq<BlockID>>, n: int, p: IVec3) -> bool {
    exists|k: int| 0 <= k < n && #[trigger] recs[k].pos == p && dispatches(recs[k], store)
}

/// The build registry: one record per chunk, keyed by partition coordinate.
pub struct BuildScheduler {
    records: Vec<ChunkRecord>,
}

impl View for BuildScheduler {
    type V = Seq<ChunkRecord>;

    closed spec fn view(&self) -> Seq<ChunkRecord> {
        self.records@
    }
}

impl BuildScheduler {
    /// Well-formedness: one record per partition, attempts within bounds.
    pub open spec fn wf(&self) -> bool {
        &&& forall|i: int, j: int|
            0 <= i < self@.len() && 0 <= j < self@.len() && #[trigger] self@[i].pos == #[trigger] self@[j].pos
                ==> i == j
        &&& forall|i: int| 0 <= i < self@.len() ==> record_ok(#[trigger] self@[i])
    }

    pub fn new() -> (r: BuildScheduler)
        ensures
            r.wf(),
            r@.len() == 0,
    {
        BuildScheduler { records: Vec::new() }
    }

    fn find(&self, pos: IVec3) -> (r: Option<usize>)
        requires
            self.wf(),
        ensures
            r matches Some(i) ==> i < self@.len() && self@[i as int].pos == pos,
            r is None ==> forall|i: int| 0 <= i < self@.len() ==> self@[i].pos != pos,
    {
        let mut i: usize = 0;
        while i < self.records.len()
            invariant
                i <= self@.len(),
                self@ == self.records@,
                forall|k: int| 0 <= k < i ==> self@[k].pos != pos,
            decreases self@.len() - i,
        {
            if self.records[i].pos == pos {
                return Some(i);
            }
            i += 1;
        }
        None
    }

    /// The state of the chunk at `pos`; `Clean` if it was never marked.
    pub fn state_of(&self, pos: IVec3) -> (r: ChunkState)
        requires
            self.wf(),
        ensures
            forall|i: int| 0 <= i < self@.len() && #[trigger] self@[i].pos == pos ==> r == self@[i].state,
            (forall|i: int| 0 <= i < self@.len() ==> #[trigger] self@[i].pos != pos) ==> r == ChunkState::Clean,
    {
        match self.find(pos) {
            Some(i) => self.records[i].state,
            None => ChunkState::Clean,
        }
    }

    /// Whether the chunk at `pos` has geometry: its first build finished.
    pub fn is_renderable(&self, pos: IVec3) -> (r: bool)
        requires
            self.wf(),
        ensures
            forall|i: int|
                0 <= i < self@.len() && #[trigger] self@[i].pos == pos ==> (r <==> self@[i].state
                    == ChunkState::Renderable),
            (forall|i: int| 0 <= i < self@.len() ==> #[trigger] self@[i].pos != pos) ==> !r,
    {
        match self.find(pos) {
            Some(i) => self.records[i].state == ChunkState::Renderable,
            None => false,
        }
    }

    /// Marks the chunk at `pos` as needing a build, with a fresh attempt
    /// count. A chunk whose build is in flight stays `Building`.
    pub fn mark_dirty(&mut self, pos: IVec3)
        requires
            old(self).wf(),
        ensures
            final(self).wf(),
            (exists|i: int| 0 <= i < old(self)@.len() && old(self)@[i].pos == pos) ==> exists|i: int|
                0 <= i < old(self)@.len() && old(self)@[i].pos == pos && final(self)@ == old(self)@.update(
                    i,
                    if old(self)@[i].state == ChunkState::Building {
                        old(self)@[i]
                    } else {
                        ChunkRecord { pos, state: ChunkState::Dirty, attempts: 0 }
                    },
                ),
            (forall|i: int| 0 <= i < old(self)@.len() ==> old(self)@[i].pos != pos) ==> final(self)@
                == old(self)@.push(ChunkRecord { pos, state: ChunkState::Dirty, attempts: 0 }),
    {
        match self.find(pos) {
            Some(i) => {
                if self.records[i].state != ChunkState::Building {
                    self.records.set(i, ChunkRecord { pos, state: ChunkState::Dirty, attempts: 0 });
                }
            },
            None => {
                self.records.push(ChunkRecord { pos, state: ChunkState::Dirty, attempts: 0 });
            },
        }
    }

    /// One scheduling pass: every `Dirty` chunk that is resident in `store`
    /// gets a build job holding its shared grid and a snapshot of the whole
    /// store, and becomes `Building`. Other records are unchanged.
    #[verifier::rlimit(60)]
    pub fn dispatch(&mut self, store: &ChunkManager) -> (jobs: Vec<BuildJob>)
        requires
            old(self).wf(),
            store.wf(),
        ensures
            final(self).wf(),
            final(self)@.len() == old(self)@.len(),
            forall|i: int|
                0 <= i < old(self)@.len() ==> #[trigger] final(self)@[i] == after_dispatch(old(self)@[i], store@),
            forall|j: int|
                0 <= j < jobs@.len() ==> {
                    &&& (#[trigger] jobs@[j]).wf()
                    &&& jobs@[j].snapshot@ == store@
                    &&& store@.contains_key(jobs@[j].chunk.pos)
                    &&& jobs@[j].chunk.data@ == store@[jobs@[j].chunk.pos]
                },
            forall|p: IVec3|
                #[trigger] has_job_for(jobs@, p) <==> dispatches_at(old(self)@, store@, p),
            forall|j: int, k: int|
                0 <= j < jobs@.len() && 0 <= k < jobs@.len() && #[trigger] jobs@[j].chunk.pos
                    == #[trigger] jobs@[k].chunk.pos ==> j == k,
    {
        let ghost old_recs = self@;
        let snapshot = Arc::new(store.snapshot());
        let mut jobs: Vec<BuildJob> = Vec::new();
        let mut i: usize = 0;
        while i < self.records.len()
            invariant
                store.wf(),
                snapshot.wf(),
                snapshot@ == store@,
                i <= self@.len(),
                self@.len() == old_recs.len(),
                forall|a: int, b: int|
                    0 <= a < old_recs.len() && 0 <= b < old_recs.len() && #[trigger] old_recs[a].pos
                        == #[trigger] old_recs[b].pos ==> a == b,
                forall|k: int| 0 <= k < old_recs.len() ==> record_ok(#[trigger] old_recs[k]),
                forall|k: int| 0 <= k < i ==> #[trigger] self@[k] == after_dispatch(old_recs[k], store@),
                forall|k: int| i <= k < self@.len() ==> #[trigger] self@[k] == old_recs[k],
                forall|j: int|
                    0 <= j < jobs@.len() ==> {
                        &&& (#[trigger] jobs@[j]).wf()
                        &&& jobs@[j].snapshot@ == store@
                        &&& store@.contains_key(jobs@[j].chunk.pos)
                        &&& jobs@[j].chunk.data@ == store@[jobs@[j].chunk.pos]
                    },
                forall|j: int|
                    0 <= j < jobs@.len() ==> dispatched_before(old_recs, store@, i as int, (#[trigger] jobs@[j]).chunk.pos),
                forall|k: int|
                    0 <= k < i && dispatches(#[trigger] old_recs[k], store@) ==> exists|j: int|
                        0 <= j < jobs@.len() && jobs@[j].chunk.pos == old_recs[k].pos,
                forall|j: int, k: int|
                    0 <= j < jobs@.len() && 0 <= k < jobs@.len() && #[trigger] jobs@[j].chunk.pos
                        == #[trigger] jobs@[k].chunk.pos ==> j == k,
            decreases old_recs.len() - i,
        {
            let rec = self.records[i];
            if rec.state == ChunkState::Dirty {
                match store.get_grid(rec.pos) {
                    Some(grid) => {
                        let ghost prev_jobs = jobs@;
                        let job = BuildJob { chunk: Chunk { data: grid, pos: rec.pos }, snapshot: share(&snapshot) };
                        jobs.push(job);
                        self.records.set(
                            i,
                            ChunkRecord { pos: rec.pos, state: ChunkState::Building, attempts: rec.attempts },
                        );
                        proof {
                            assert forall|j: int|
                                0 <= j < jobs@.len() implies dispatched_before(old_recs, store@, i + 1, (#[trigger] jobs@[j]).chunk.pos) by {
                                if j < prev_jobs.len() {
                                    assert(jobs@[j] == prev_jobs[j]);
                                    assert(dispatched_before(old_recs, store@, i as int, prev_jobs[j].chunk.pos));
                                } else {
                                    assert(old_recs[i as int] == rec);
                                    assert(old_recs[i as int].pos == jobs@[j].chunk.pos);
                                    assert(dispatches(old_recs[i as int], store@));
                                }
                            }
                            assert forall|k: int|
                                0 <= k < i + 1 && dispatches(#[trigger] old_recs[k], store@) implies exists|j: int|
                                    0 <= j < jobs@.len() && jobs@[j].chunk.pos == old_recs[k].pos by {
                                if k < i {
                                    let j = choose|j: int| 0 <= j < prev_jobs.len() && prev_jobs[j].chunk.pos == old_recs[k].pos;
                                    assert(jobs@[j] == prev_jobs[j]);
                                } else {
                                    assert(jobs@[prev_jobs.len() as int].chunk.pos == old_recs[k].pos);
                                }
                            }
                            assert forall|j: int, k: int|
                                0 <= j < jobs@.len() && 0 <= k < jobs@.len() && #[trigger] jobs@[j].chunk.pos
                                    == #[trigger] jobs@[k].chunk.pos implies j == k by {
                                if j < prev_jobs.len() && k < prev_jobs.len() {
                                    assert(jobs@[j] == prev_jobs[j]);
                                    assert(jobs@[k] == prev_jobs[k]);
                                } else if j < prev_jobs.len() {
                                    assert(jobs@[j] == prev_jobs[j]);
                                    assert(dispatched_before(old_recs, store@, i as int, prev_jobs[j].chunk.pos));
                                    let t = choose|t: int|
                                        0 <= t < i && #[trigger] old_recs[t].pos == prev_jobs[j].chunk.pos
                                            && dispatches(old_recs[t], store@);
                                    assert(old_recs[t].pos == old_recs[i as int].pos);
                                } else if k < prev_jobs.len() {
                                    assert(jobs@[k] == prev_jobs[k]);
                                    assert(dispatched_before(old_recs, store@, i as int, prev_jobs[k].chunk.pos));
                                    let t = choose|t: int|
                                        0 <= t < i && #[trigger] old_recs[t].pos == prev_jobs[k].chunk.pos
                                            && dispatches(old_recs[t], store@);
                                    assert(old_recs[t].pos == old_recs[i as int].pos);
                                }
                            }
                        }
                    },
                    None => {},
                }
            }
            proof {
                assert forall|j: int|
                    0 <= j < jobs@.len() implies dispatched_before(old_recs, store@, i + 1, (#[trigger] jobs@[j]).chunk.pos) by {
                    if !dispatched_before(old_recs, store@, i as int, jobs@[j].chunk.pos) {
                        assert(dispatched_before(old_recs, store@, i + 1, jobs@[j].chunk.pos));
                    }
                }
            }
            i += 1;
        }
        proof {
            assert forall|p: IVec3|
                #[trigger] has_job_for(jobs@, p) <==> dispatches_at(old_recs, store@, p) by {
                if exists|j: int| 0 <= j < jobs@.len() && #[trigger] jobs@[j].chunk.pos == p {
                    let j = choose|j: int| 0 <= j < jobs@.len() && #[trigger] jobs@[j].chunk.pos == p;
                    assert(dispatched_before(old_recs, store@, i as int, jobs@[j].chunk.pos));
                }
                if exists|k: int| 0 <= k < old_recs.len() && old_recs[k].pos == p && dispatches(old_recs[k], store@) {
                    let k = choose|k: int| 0 <= k < old_recs.len() && old_recs[k].pos == p && dispatches(old_recs[k], store@);
                    assert(dispatches(old_recs[k], store@));
                }
            }
            assert forall|a: int, b: int|
                0 <= a < self@.len() && 0 <= b < self@.len() && #[trigger] self@[a].pos == #[trigger] self@[b].pos
                    implies a == b by {
                assert(self@[a].pos == old_recs[a].pos);
                assert(self@[b].pos == old_recs[b].pos);
            }
            assert forall|k: int| 0 <= k < self@.len() implies record_ok(#[trigger] self@[k]) by {
                assert(self@[k] == after_dispatch(old_recs[k], store@));
            }
        }
        jobs
    }

    /// Applies one polled result to the chunk at `pos`. A finished build
    /// makes a `Building` chunk `Renderable` and hands back its geometry; a
    /// faulted one sends it back to `Dirty` for a retry, or to `Failed` once
    /// `MAX_BUILD_ATTEMPTS` builds have faulted. A result for a chunk that is
    /// not `Building` is dropped.
    pub fn complete(&mut self, pos: IVec3, outcome: BuildOutcome) -> (r: Option<GreedyMesh>)
        requires
            old(self).wf(),
        ensures
            final(self).wf(),
            (exists|i: int|
                0 <= i < old(self)@.len() && old(self)@[i].pos == pos && old(self)@[i].state
                    == ChunkState::Building) ==> exists|i: int|
                0 <= i < old(self)@.len() && old(self)@[i].pos == pos && final(self)@ == old(self)@.update(
                    i,
                    match outcome {
                        BuildOutcome::Finished(_) => ChunkRecord {
                            pos,
                            state: ChunkState::Renderable,
                            attempts: old(self)@[i].attempts,
                        },
                        BuildOutcome::Faulted => after_fault(old(self)@[i]),
                    },
                ) && r == match outcome {
                    BuildOutcome::Finished(m) => Some(m),
                    BuildOutcome::Faulted => None::<GreedyMesh>,
                },
            !(exists|i: int|
                0 <= i < old(self)@.len() && old(self)@[i].pos == pos && old(self)@[i].state
                    == ChunkState::Building) ==> final(self)@ == old(self)@ && r is None,
    {
        match self.find(pos) {
            Some(i) => {
                let rec = self.records[i];
                proof {
                    assert forall|k: int| 0 <= k < self@.len() && self@[k].pos == pos implies k == i by {
                        assert(self@[k].pos == self@[i as int].pos);
                    }
                    assert(record_ok(self@[i as int]));
                }
                if rec.state != ChunkState::Building {
                    return None;
                }
                match outcome {
                    BuildOutcome::Finished(mesh) => {
                        self.records.set(
                            i,
                            ChunkRecord { pos, state: ChunkState::Renderable, attempts: rec.attempts },
                        );
                        proof {
                            assert(self@ == old(self)@.update(i as int, ChunkRecord { pos, state: ChunkState::Renderable, attempts: rec.attempts }));
                            assert forall|a: int, b: int|
                                0 <= a < self@.len() && 0 <= b < self@.len() && #[trigger] self@[a].pos == #[trigger] self@[b].pos
                                    implies a == b by {
                                assert(self@[a].pos == old(self)@[a].pos);
                                assert(self@[b].pos == old(self)@[b].pos);
                            }
                        }
                        Some(mesh)
                    },
                    BuildOutcome::Faulted => {
                        let attempts = rec.attempts + 1;
                        let state = if attempts < MAX_BUILD_ATTEMPTS {
                            ChunkState::Dirty
                        } else {
                            ChunkState::Failed
                        };
                        self.records.set(i, ChunkRecord { pos, state, attempts });
                        proof {
                            assert(self@ == old(self)@.update(i as int, after_fault(old(self)@[i as int])));
                            assert forall|a: int, b: int|
                                0 <= a < self@.len() && 0 <= b < self@.len() && #[trigger] self@[a].pos == #[trigger] self@[b].pos
                                    implies a == b by {
                                assert(self@[a].pos == old(self)@[a].pos);
                                assert(self@[b].pos == old(self)@[b].pos);
                            }
                        }
                        None
                    },
                }
            },
            None => None,
        }
    }
}

} // verus!
