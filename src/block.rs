//! Block materials and the six cardinal face orientations.

use vstd::prelude::*;

verus! {

/// Number of material codes; every 4-bit code names a material.
pub const NUM_MATERIALS: usize = 16;

/// The material of one block. `Air` is the empty, transparent sentinel.
#[derive(Clone, Copy, Debug, PartialEq, Eq, Structural)]
pub enum BlockID {
    Water,
    Steam,
    Ground,
    Stone,
    Steel,
    Copper,
    Coal,
    Fire,
    Oil,
    Wood,
    Cloth,
    MoltenMetal,
    Leaf,
    Plant,
    Air,
    Hydrogen,
}

impl BlockID {
    /// The 4-bit material code of a block.
    pub open spec fn spec_code(self) -> u8 {
        match self {
            BlockID::Water => 0,
            BlockID::Steam => 1,
            BlockID::Ground => 2,
            BlockID::Stone => 3,
            BlockID::Steel => 4,
            BlockID::Copper => 5,
            BlockID::Coal => 6,
            BlockID::Fire => 7,
            BlockID::Oil => 8,
            BlockID::Wood => 9,
            BlockID::Cloth => 10,
            BlockID::MoltenMetal => 11,
            BlockID::Leaf => 12,
            BlockID::Plant => 13,
            BlockID::Air => 14,
            BlockID::Hydrogen => 15,
        }
    }

    /// Transparency is a property of the code: only air lets faces show.
    pub open spec fn spec_is_transparent(self) -> bool {
        self == BlockID::Air
    }

    pub fn code(self) -> (r: u8)
        ensures
            r == self.spec_code(),
            r < 16,
    {
        match self {
            BlockID::Water => 0,
            BlockID::Steam => 1,
            BlockID::Ground => 2,
            BlockID::Stone => 3,
            BlockID::Steel => 4,
            BlockID::Copper => 5,
            BlockID::Coal => 6,
            BlockID::Fire => 7,
            BlockID::Oil => 8,
            BlockID::Wood => 9,
            BlockID::Cloth => 10,
            BlockID::MoltenMetal => 11,
            BlockID::Leaf => 12,
            BlockID::Plant => 13,
            BlockID::Air => 14,
            BlockID::Hydrogen => 15,
        }
    }

    /// Checked mapping from a code to its material: `None` for a code out of
    /// range, never an arbitrary material.
    pub fn from_code(c: u8) -> (r: Option<BlockID>)
        ensures
            r is Some <==> c < 16,
            r matches Some(b) ==> b.spec_code() == c,
    {
        match c {
            0 => Some(BlockID::Water),
            1 => Some(BlockID::Steam),
            2 => Some(BlockID::Ground),
            3 => Some(BlockID::Stone),
            4 => Some(BlockID::Steel),
            5 => Some(BlockID::Copper),
            6 => Some(BlockID::Coal),
            7 => Some(BlockID::Fire),
            8 => Some(BlockID::Oil),
            9 => Some(BlockID::Wood),
            10 => Some(BlockID::Cloth),
            11 => Some(BlockID::MoltenMetal),
            12 => Some(BlockID::Leaf),
            13 => Some(BlockID::Plant),
            14 => Some(BlockID::Air),
            15 => Some(BlockID::Hydrogen),
            _ => None,
        }
    }

    pub fn is_transparent(self) -> (r: bool)
        ensures
            r == self.spec_is_transparent(),
    {
        match self {
            BlockID::Air => true,
            _ => false,
        }
    }
}

/// Distinct materials have distinct codes.
pub proof fn lemma_code_injective(a: BlockID, b: BlockID)
    ensures
        a.spec_code() == b.spec_code() <==> a == b,
{
}

/// One of the six cardinal directions; its index is the orientation code.
#[derive(Clone, Copy, Debug, PartialEq, Eq, Structural)]
pub enum Direction {
    Top,
    Bottom,
    Left,
    Right,
    Front,
    Back,
}

impl Direction {
    /// The orientation code, in `[0, 6)`.
    pub open spec fn spec_index(self) -> u8 {
        match self {
            Direction::Top => 0,
            Direction::Bottom => 1,
            Direction::Left => 2,
            Direction::Right => 3,
            Direction::Front => 4,
            Direction::Back => 5,
        }
    }

    /// Unit offset of the direction, as `(dx, dy, dz)`.
    pub open spec fn spec_offset(self) -> (int, int, int) {
        match self {
            Direction::Top => (0, 1, 0),
            Direction::Bottom => (0, -1, 0),
            Direction::Left => (-1, 0, 0),
            Direction::Right => (1, 0, 0),
            Direction::Front => (0, 0, 1),
            Direction::Back => (0, 0, -1),
        }
    }

    pub fn index(self) -> (r: u8)
        ensures
            r == self.spec_index(),
            r < 6,
    {
        match self {
            Direction::Top => 0,
            Direction::Bottom => 1,
            Direction::Left => 2,
            Direction::Right => 3,
            Direction::Front => 4,
            Direction::Back => 5,
        }
    }

    /// Checked mapping from an orientation code: `None` for 6 and above.
    pub fn from_index(i: u8) -> (r: Option<Direction>)
        ensures
            r is Some <==> i < 6,
            r matches Some(d) ==> d.spec_index() == i,
    {
        match i {
            0 => Some(Direction::Top),
            1 => Some(Direction::Bottom),
            2 => Some(Direction::Left),
            3 => Some(Direction::Right),
            4 => Some(Direction::Front),
            5 => Some(Direction::Back),
            _ => None,
        }
    }

    pub fn offset(self) -> (r: (i32, i32, i32))
        ensures
            (r.0 as int, r.1 as int, r.2 as int) == self.spec_offset(),
    {
        match self {
            Direction::Top => (0, 1, 0),
            Direction::Bottom => (0, -1, 0),
            Direction::Left => (-1, 0, 0),
            Direction::Right => (1, 0, 0),
            Direction::Front => (0, 0, 1),
            Direction::Back => (0, 0, -1),
        }
    }
}

/// Distinct directions have distinct orientation codes.
pub proof fn lemma_index_injective(a: Direction, b: Direction)
    ensures
        a.spec_index() == b.spec_index() <==> a == b,
{
}

} // verus!
