//! Integer vectors and the resolution of a world point into a partition
//! coordinate and a local offset inside that partition.

use vstd::prelude::*;

verus! {

/// Edge length of a partition (a chunk), in blocks.
pub const CHUNKSIZE: usize = 32;

/// An integer 3D vector: a world point, a partition coordinate or a direction.
#[derive(Clone, Copy, Debug, PartialEq, Eq, Hash, Structural)]
pub struct IVec3 {
    pub x: i32,
    pub y: i32,
    pub z: i32,
}

/// An unsigned 3D vector: a local cell coordinate.
#[derive(Clone, Copy, Debug, PartialEq, Eq, Structural)]
pub struct UVec3 {
    pub x: u32,
    pub y: u32,
    pub z: u32,
}

/// An unsigned 2D vector: the width and height of a rectangle.
#[derive(Clone, Copy, Debug, PartialEq, Eq, Structural)]
pub struct UVec2 {
    pub x: u32,
    pub y: u32,
}

impl IVec3 {
    pub fn new(x: i32, y: i32, z: i32) -> (r: IVec3)
        ensures
            r == (IVec3 { x, y, z }),
    {
        IVec3 { x, y, z }
    }
}

impl UVec3 {
    pub fn new(x: u32, y: u32, z: u32) -> (r: UVec3)
        ensures
            r == (UVec3 { x, y, z }),
    {
        UVec3 { x, y, z }
    }
}

impl UVec2 {
    pub fn new(x: u32, y: u32) -> (r: UVec2)
        ensures
            r == (UVec2 { x, y }),
    {
        UVec2 { x, y }
    }
}

/// Floor division by the partition size (`int` division rounds down for a
/// positive divisor).
pub open spec fn floor_div(p: int) -> int {
    p / (CHUNKSIZE as int)
}

/// Floor modulo by the partition size.
pub open spec fn floor_mod(p: int) -> int {
    p % (CHUNKSIZE as int)
}

/// Partition coordinate along one axis: `floor(p / 32)`, also for negative `p`.
pub fn partition_of(p: i64) -> (r: i64)
    ensures
        r == floor_div(p as int),
{
    if p >= 0 {
        p / 32
    } else {
        let q: i64 = (-1 - p) / 32;
        assert(q == (-1 - p) / 32);
        assert(-1 - q == p / 32) by {
            // p = -1 - m with m >= 0; floor((-1 - m) / 32) == -1 - floor(m / 32)
            let m: int = -1 - p;
            assert(m == 32 * (m / 32) + m % 32);
            assert(p == 32 * (-1 - m / 32) + (31 - m % 32));
            assert(0 <= 31 - m % 32 < 32);
            vstd::arithmetic::div_mod::lemma_fundamental_div_mod_converse(
                p as int,
                32,
                -1 - m / 32,
                31 - m % 32,
            );
        }
        -1 - q
    }
}

/// Offset inside the partition along one axis: `p - 32 * floor(p / 32)`,
/// always in `[0, 32)`.
pub fn local_of(p: i64) -> (r: u32)
    ensures
        r as int == floor_mod(p as int),
        r < 32,
        p as int == 32 * floor_div(p as int) + r as int,
{
    let q = partition_of(p);
    proof {
        vstd::arithmetic::div_mod::lemma_fundamental_div_mod(p as int, 32);
    }
    (p - 32 * q) as u32
}

} // verus!

verus! {

/// Resolving a world coordinate gives a partition and an offset in `[0, 32)`
/// that add back up to it, for negative coordinates too.
pub proof fn lemma_coordinate_resolution(p: int)
    ensures
        p == 32 * floor_div(p) + floor_mod(p),
        0 <= floor_mod(p) < 32,
        floor_div(p) * 32 <= p < floor_div(p) * 32 + 32,
{
    vstd::arithmetic::div_mod::lemma_fundamental_div_mod(p, 32);
}

} // verus!
