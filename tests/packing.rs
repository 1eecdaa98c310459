use fast_voxels::block::{BlockID, Direction};
use fast_voxels::coords::{UVec2, UVec3};
use fast_voxels::greedy_quad::GreedyQuad;

#[test]
fn round_trip_all_fields() {
    let q = GreedyQuad::new(UVec3::new(31, 7, 0), UVec2::new(31, 1), Direction::Back, BlockID::Hydrogen);
    assert_eq!(q.get_pos(), UVec3::new(31, 7, 0));
    assert_eq!(q.get_size(), UVec2::new(31, 1));
    assert_eq!(q.get_dir(), Some(Direction::Back));
    assert_eq!(q.get_block_type(), BlockID::Hydrogen);
}

#[test]
fn packed_layout_is_bit_exact() {
    let q = GreedyQuad::new(UVec3::new(1, 2, 3), UVec2::new(4, 5), Direction::Right, BlockID::Stone);
    let expected: u32 = 1 | (2 << 5) | (3 << 10) | (4 << 15) | (5 << 20) | (3 << 25) | (3 << 28);
    assert_eq!(q.data, expected);
}

#[test]
fn setters_touch_one_field() {
    let mut q = GreedyQuad::new(UVec3::new(5, 6, 7), UVec2::new(8, 9), Direction::Top, BlockID::Wood);
    q.set_pos(UVec3::new(30, 0, 12));
    assert_eq!(q.get_pos(), UVec3::new(30, 0, 12));
    assert_eq!(q.get_size(), UVec2::new(8, 9));
    q.set_size(UVec2::new(1, 31));
    assert_eq!(q.get_size(), UVec2::new(1, 31));
    assert_eq!(q.get_pos(), UVec3::new(30, 0, 12));
    q.set_dir(Direction::Front);
    assert_eq!(q.get_dir(), Some(Direction::Front));
    assert_eq!(q.get_block_type(), BlockID::Wood);
    q.set_block_type(BlockID::Water);
    assert_eq!(q.get_block_type(), BlockID::Water);
    assert_eq!(q.get_dir(), Some(Direction::Front));
    assert_eq!(q.get_pos(), UVec3::new(30, 0, 12));
    assert_eq!(q.get_size(), UVec2::new(1, 31));
}

#[test]
fn corrupt_orientation_is_rejected() {
    let q = GreedyQuad { data: 6 << 25 };
    assert_eq!(q.get_dir(), None);
    let q = GreedyQuad { data: 7 << 25 };
    assert_eq!(q.get_dir(), None);
    let q = GreedyQuad { data: 5 << 25 };
    assert_eq!(q.get_dir(), Some(Direction::Back));
}

#[test]
fn every_material_code_decodes() {
    for c in 0u8..16 {
        let b = BlockID::from_code(c).unwrap();
        assert_eq!(b.code(), c);
        let mut q = GreedyQuad { data: 0 };
        q.set_block_type(b);
        assert_eq!(q.get_block_type(), b);
    }
    assert_eq!(BlockID::from_code(16), None);
    assert_eq!(BlockID::from_code(14), Some(BlockID::Air));
}

#[test]
fn orientation_codes() {
    for i in 0u8..6 {
        assert_eq!(Direction::from_index(i).unwrap().index(), i);
    }
    assert_eq!(Direction::from_index(6), None);
    assert_eq!(Direction::Left.offset(), (-1, 0, 0));
    assert_eq!(Direction::Top.offset(), (0, 1, 0));
}

#[test]
fn only_air_is_transparent() {
    assert!(BlockID::Air.is_transparent());
    assert!(!BlockID::Stone.is_transparent());
    assert!(!BlockID::Water.is_transparent());
}
