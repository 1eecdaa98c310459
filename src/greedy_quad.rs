//! The packed 32-bit quad record produced by the greedy mesher.
//!
//! Layout, from the least significant bit: x (5 bits), y (5), z (5),
//! width (5), height (5), orientation (3), material (4).

use vstd::prelude::*;
use crate::block::{BlockID, Direction};
use crate::coords::{UVec2, UVec3};

verus! {

pub open spec fn quad_x(data: u32) -> u32 {
    data & 31
}

pub open spec fn quad_y(data: u32) -> u32 {
    (data >> 5u32) & 31
}

pub open spec fn quad_z(data: u32) -> u32 {
    (data >> 10u32) & 31
}

pub open spec fn quad_w(data: u32) -> u32 {
    (data >> 15u32) & 31
}

pub open spec fn quad_h(data: u32) -> u32 {
    (data >> 20u32) & 31
}

pub open spec fn quad_dir(data: u32) -> u32 {
    (data >> 25u32) & 7
}

pub open spec fn quad_mat(data: u32) -> u32 {
    (data >> 28u32) & 15
}

/// The record holding the given fields.
pub open spec fn encode(x: u32, y: u32, z: u32, w: u32, h: u32, d: u32, m: u32) -> u32 {
    x | (y << 5u32) | (z << 10u32) | (w << 15u32) | (h << 20u32) | (d << 25u32) | (m << 28u32)
}

/// Round trip: encoding fields that are in range and decoding each field
/// gives back exactly the values encoded.
pub proof fn lemma_round_trip(x: u32, y: u32, z: u32, w: u32, h: u32, d: u32, m: u32)
    requires
        x < 32,
        y < 32,
        z < 32,
        1 <= w <= 31,
        1 <= h <= 31,
        d < 6,
        m < 16,
    ensures
        quad_x(encode(x, y, z, w, h, d, m)) == x,
        quad_y(encode(x, y, z, w, h, d, m)) == y,
        quad_z(encode(x, y, z, w, h, d, m)) == z,
        quad_w(encode(x, y, z, w, h, d, m)) == w,
        quad_h(encode(x, y, z, w, h, d, m)) == h,
        quad_dir(encode(x, y, z, w, h, d, m)) == d,
        quad_mat(encode(x, y, z, w, h, d, m)) == m,
{
    assert({
        let e = x | (y << 5u32) | (z << 10u32) | (w << 15u32) | (h << 20u32) | (d << 25u32) | (m
            << 28u32);
        &&& e & 31 == x
        &&& (e >> 5u32) & 31 == y
        &&& (e >> 10u32) & 31 == z
        &&& (e >> 15u32) & 31 == w
        &&& (e >> 20u32) & 31 == h
        &&& (e >> 25u32) & 7 == d
        &&& (e >> 28u32) & 15 == m
    }) by (bit_vector)
        requires
            x < 32,
            y < 32,
            z < 32,
            w < 32,
            h < 32,
            d < 8,
            m < 16,
    ;
}

/// One merged rectangle of faces, bit-packed into a `u32`.
#[derive(Clone, Copy, Debug, PartialEq, Eq, Structural)]
pub struct GreedyQuad {
    pub data: u32,
}

impl GreedyQuad {
    /// A record with every field set: anchor `pos`, size `size`
    /// (width, height), orientation `dir` and material `block`.
    pub fn new(pos: UVec3, size: UVec2, dir: Direction, block: BlockID) -> (r: GreedyQuad)
        requires
            pos.x < 32,
            pos.y < 32,
            pos.z < 32,
            1 <= size.x <= 31,
            1 <= size.y <= 31,
        ensures
            r.data == encode(
                pos.x,
                pos.y,
                pos.z,
                size.x,
                size.y,
                dir.spec_index() as u32,
                block.spec_code() as u32,
            ),
            quad_x(r.data) == pos.x,
            quad_y(r.data) == pos.y,
            quad_z(r.data) == pos.z,
            quad_w(r.data) == size.x,
            quad_h(r.data) == size.y,
            quad_dir(r.data) == dir.spec_index() as u32,
            quad_mat(r.data) == block.spec_code() as u32,
    {
        let d = dir.index() as u32;
        let m = block.code() as u32;
        proof {
            lemma_round_trip(pos.x, pos.y, pos.z, size.x, size.y, d, m);
        }
        GreedyQuad {
            data: pos.x | (pos.y << 5u32) | (pos.z << 10u32) | (size.x << 15u32) | (size.y
                << 20u32) | (d << 25u32) | (m << 28u32),
        }
    }

    /// Replaces the anchor; the other fields keep their values.
    pub fn set_pos(&mut self, pos: UVec3)
        requires
            pos.x < 32,
            pos.y < 32,
            pos.z < 32,
        ensures
            quad_x(final(self).data) == pos.x,
            quad_y(final(self).data) == pos.y,
            quad_z(final(self).data) == pos.z,
            quad_w(final(self).data) == quad_w(old(self).data),
            quad_h(final(self).data) == quad_h(old(self).data),
            quad_dir(final(self).data) == quad_dir(old(self).data),
            quad_mat(final(self).data) == quad_mat(old(self).data),
    {
        let old_data = self.data;
        let new: u32 = pos.x | (pos.y << 5u32) | (pos.z << 10u32);
        let data = (old_data & !0x7fffu32) | new;
        let (x, y, z) = (pos.x, pos.y, pos.z);
        assert({
            &&& data & 31 == x
            &&& (data >> 5u32) & 31 == y
            &&& (data >> 10u32) & 31 == z
            &&& (data >> 15u32) & 31 == (old_data >> 15u32) & 31
            &&& (data >> 20u32) & 31 == (old_data >> 20u32) & 31
            &&& (data >> 25u32) & 7 == (old_data >> 25u32) & 7
            &&& (data >> 28u32) & 15 == (old_data >> 28u32) & 15
        }) by (bit_vector)
            requires
                x < 32,
                y < 32,
                z < 32,
                new == x | (y << 5u32) | (z << 10u32),
                data == (old_data & !0x7fffu32) | new,
        ;
        self.data = data;
    }

    pub fn get_pos(&self) -> (r: UVec3)
        ensures
            r.x == quad_x(self.data),
            r.y == quad_y(self.data),
            r.z == quad_z(self.data),
    {
        UVec3 { x: self.data & 31, y: (self.data >> 5u32) & 31, z: (self.data >> 10u32) & 31 }
    }

    /// Replaces width (`size.x`) and height (`size.y`); both must fit the
    /// 5-bit fields and be at least one.
    pub fn set_size(&mut self, size: UVec2)
        requires
            1 <= size.x <= 31,
            1 <= size.y <= 31,
        ensures
            quad_x(final(self).data) == quad_x(old(self).data),
            quad_y(final(self).data) == quad_y(old(self).data),
            quad_z(final(self).data) == quad_z(old(self).data),
            quad_w(final(self).data) == size.x,
            quad_h(final(self).data) == size.y,
            quad_dir(final(self).data) == quad_dir(old(self).data),
            quad_mat(final(self).data) == quad_mat(old(self).data),
    {
        let old_data = self.data;
        let new: u32 = size.x | (size.y << 5u32);
        let data = (old_data & !(0x3ffu32 << 15u32)) | (new << 15u32);
        let (w, h) = (size.x, size.y);
        assert({
            &&& data & 31 == old_data & 31
            &&& (data >> 5u32) & 31 == (old_data >> 5u32) & 31
            &&& (data >> 10u32) & 31 == (old_data >> 10u32) & 31
            &&& (data >> 15u32) & 31 == w
            &&& (data >> 20u32) & 31 == h
            &&& (data >> 25u32) & 7 == (old_data >> 25u32) & 7
            &&& (data >> 28u32) & 15 == (old_data >> 28u32) & 15
        }) by (bit_vector)
            requires
                w < 32,
                h < 32,
                new == w | (h << 5u32),
                data == (old_data & !(0x3ffu32 << 15u32)) | (new << 15u32),
        ;
        self.data = data;
    }

    pub fn get_size(&self) -> (r: UVec2)
        ensures
            r.x == quad_w(self.data),
            r.y == quad_h(self.data),
    {
        UVec2 { x: (self.data >> 15u32) & 31, y: (self.data >> 20u32) & 31 }
    }

    /// Replaces the orientation; the other fields keep their values.
    pub fn set_dir(&mut self, dir: Direction)
        ensures
            quad_x(final(self).data) == quad_x(old(self).data),
            quad_y(final(self).data) == quad_y(old(self).data),
            quad_z(final(self).data) == quad_z(old(self).data),
            quad_w(final(self).data) == quad_w(old(self).data),
            quad_h(final(self).data) == quad_h(old(self).data),
            quad_dir(final(self).data) == dir.spec_index() as u32,
            quad_mat(final(self).data) == quad_mat(old(self).data),
    {
        let old_data = self.data;
        let d = dir.index() as u32;
        let data = old_data & !(7u32 << 25u32) | (d << 25u32);
        assert({
            &&& data & 31 == old_data & 31
            &&& (data >> 5u32) & 31 == (old_data >> 5u32) & 31
            &&& (data >> 10u32) & 31 == (old_data >> 10u32) & 31
            &&& (data >> 15u32) & 31 == (old_data >> 15u32) & 31
            &&& (data >> 20u32) & 31 == (old_data >> 20u32) & 31
            &&& (data >> 25u32) & 7 == d
            &&& (data >> 28u32) & 15 == (old_data >> 28u32) & 15
        }) by (bit_vector)
            requires
                d < 8,
                data == old_data & !(7u32 << 25u32) | (d << 25u32),
        ;
        self.data = data;
    }

    /// The orientation, or `None` where the field holds 6 or 7: a corrupt
    /// record is rejected, never read as some other orientation.
    pub fn get_dir(&self) -> (r: Option<Direction>)
        ensures
            r is Some <==> quad_dir(self.data) < 6,
            r matches Some(d) ==> d.spec_index() as u32 == quad_dir(self.data),
    {
        let data = self.data;
        let v = (data >> 25u32) & 7;
        assert(v < 8) by (bit_vector)
            requires
                v == (data >> 25u32) & 7,
        ;
        Direction::from_index(v as u8)
    }

    /// Replaces the material; the other fields keep their values.
    pub fn set_block_type(&mut self, block: BlockID)
        ensures
            quad_x(final(self).data) == quad_x(old(self).data),
            quad_y(final(self).data) == quad_y(old(self).data),
            quad_z(final(self).data) == quad_z(old(self).data),
            quad_w(final(self).data) == quad_w(old(self).data),
            quad_h(final(self).data) == quad_h(old(self).data),
            quad_dir(final(self).data) == quad_dir(old(self).data),
            quad_mat(final(self).data) == block.spec_code() as u32,
    {
        let old_data = self.data;
        let m = block.code() as u32;
        let data = old_data & !(15u32 << 28u32) | (m << 28u32);
        assert({
            &&& data & 31 == old_data & 31
            &&& (data >> 5u32) & 31 == (old_data >> 5u32) & 31
            &&& (data >> 10u32) & 31 == (old_data >> 10u32) & 31
            &&& (data >> 15u32) & 31 == (old_data >> 15u32) & 31
            &&& (data >> 20u32) & 31 == (old_data >> 20u32) & 31
            &&& (data >> 25u32) & 7 == (old_data >> 25u32) & 7
            &&& (data >> 28u32) & 15 == m
        }) by (bit_vector)
            requires
                m < 16,
                data == old_data & !(15u32 << 28u32) | (m << 28u32),
        ;
        self.data = data;
    }

    /// The material. Every 4-bit code names a material, so this cannot fail.
    pub fn get_block_type(&self) -> (r: BlockID)
        ensures
            r.spec_code() as u32 == quad_mat(self.data),
    {
        let data = self.data;
        let v = (data >> 28u32) & 15;
        assert(v < 16) by (bit_vector)
            requires
                v == (data >> 28u32) & 15,
        ;
        match BlockID::from_code(v as u8) {
            Some(b) => b,
            None => BlockID::Air,
        }
    }
}

} // verus!
