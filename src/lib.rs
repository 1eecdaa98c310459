//! Partitioned voxel world: chunk store, face culling, greedy meshing,
//! build scheduling and chunk streaming.

pub mod coords;
pub mod block;
pub mod greedy_quad;
pub mod grid;
pub mod store;
pub mod faces;
pub mod mesh;
pub mod bitmask;
pub mod greedy;
pub mod streaming;
pub mod scheduler;
