use distant_horizons::detail_level::DetailLevel;
use distant_horizons::section_pos::{SectionPos, POS_X_MASK, POS_Z_MASK};

#[test]
fn zero() {
    let pos = SectionPos::new(DetailLevel::Block, 0, 0);
    assert_eq!(pos.detail_level(), DetailLevel::Block);
    assert_eq!(pos.x(), 0);
    assert_eq!(pos.z(), 0);
    assert_eq!(pos.min_corner_block_x(), 0);
    assert_eq!(pos.min_corner_block_z(), 0);
    assert_eq!(pos.block_width(), 1);
    assert_eq!(pos.center_block_pos_x(), 0);
    assert_eq!(pos.center_block_pos_z(), 0);
}

#[test]
fn maximum() {
    let x = POS_X_MASK >> 1 as i32;
    let z = POS_Z_MASK >> 1 as i32;

    let pos = SectionPos::new(DetailLevel::Block, x, z);
    assert_eq!(pos.x(), x);
    assert_eq!(pos.z(), z);
}

#[test]
fn negative() {
    let x = -2;
    let z = -2;

    let pos = SectionPos::new(DetailLevel::Block, x, z);
    assert_eq!(pos.x(), x);
    assert_eq!(pos.z(), z);
}

#[test]
fn key_round_trip_at_the_edges() {
    let edge = (1 << 27) - 1;
    for level in [DetailLevel::Block, DetailLevel::Chunk4, DetailLevel::Region512] {
        for (x, z) in [(edge, -edge), (-edge, edge), (-1, 1), (0, -1), (12345, -54321)] {
            let pos = SectionPos::new(level, x, z);
            assert_eq!(pos.detail_level(), level);
            assert_eq!(pos.x(), x);
            assert_eq!(pos.z(), z);
        }
    }
}

#[test]
fn key_is_packed_level_then_x_then_z() {
    let pos = SectionPos::new(DetailLevel::Chunk4, 1, 2);
    assert_eq!(pos.as_i64(), 6 | (1 << 8) | (2 << 36));
    let pos = SectionPos::new(DetailLevel::Block2, -1, 0);
    assert_eq!(pos.as_i64(), 1 | (0x0fff_ffff << 8));
    let pos = SectionPos::new(DetailLevel::Block, 0, -1);
    assert_eq!(pos.as_i64(), (0x0fff_ffff_i64 << 36));
}

#[test]
fn center_and_corner_of_the_two_finest_levels() {
    let pos = SectionPos::new(DetailLevel::Block, 7, -3);
    assert_eq!(pos.center_block_pos_x(), 7);
    assert_eq!(pos.center_block_pos_z(), -3);
    assert_eq!(pos.min_corner_block_x(), 7);
    assert_eq!(pos.min_corner_block_z(), -3);
    let pos = SectionPos::new(DetailLevel::Block2, 7, -3);
    assert_eq!(pos.center_block_pos_x(), 14);
    assert_eq!(pos.center_block_pos_z(), -6);
    assert_eq!(pos.min_corner_block_x(), 14);
    assert_eq!(pos.min_corner_block_z(), -6);
}

#[test]
fn center_and_corner_of_coarser_levels() {
    let pos = SectionPos::new(DetailLevel::Block4, 3, -3);
    assert_eq!(pos.center_block_pos_x(), 14);
    assert_eq!(pos.center_block_pos_z(), -10);
    assert_eq!(pos.min_corner_block_x(), 12);
    assert_eq!(pos.min_corner_block_z(), -12);
    let pos = SectionPos::new(DetailLevel::Chunk4, 5, -1);
    assert_eq!(pos.block_width(), 64);
    assert_eq!(pos.center_block_pos_x(), 5 * 64 + 32);
    assert_eq!(pos.center_block_pos_z(), -32);
    assert_eq!(pos.min_corner_block_x(), 320);
    assert_eq!(pos.min_corner_block_z(), -64);
    let pos = SectionPos::new(DetailLevel::Region512, -8192, 8191);
    assert_eq!(pos.min_corner_block_x(), i32::MIN);
    assert_eq!(pos.center_block_pos_x(), i32::MIN + (1 << 17));
    assert_eq!(pos.center_block_pos_z(), 8191 * (1 << 18) + (1 << 17));
}
