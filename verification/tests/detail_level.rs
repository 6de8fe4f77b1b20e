use distant_horizons::detail_level::DetailLevel;

const LEVELS: [DetailLevel; 19] = [
    DetailLevel::Block,
    DetailLevel::Block2,
    DetailLevel::Block4,
    DetailLevel::Block8,
    DetailLevel::Chunk,
    DetailLevel::Chunk2,
    DetailLevel::Chunk4,
    DetailLevel::Chunk8,
    DetailLevel::Chunk16,
    DetailLevel::Region,
    DetailLevel::Region2,
    DetailLevel::Region4,
    DetailLevel::Region8,
    DetailLevel::Region16,
    DetailLevel::Region32,
    DetailLevel::Region64,
    DetailLevel::Region128,
    DetailLevel::Region256,
    DetailLevel::Region512,
];

#[test]
fn width_is_two_to_the_ordinal() {
    for (ordinal, level) in LEVELS.iter().enumerate() {
        assert_eq!(level.as_u8() as usize, ordinal);
        assert_eq!(level.block_width(), 1 << ordinal);
    }
    assert_eq!(DetailLevel::Region512.block_width(), 262144);
}

#[test]
fn levels_are_found_by_their_ordinals() {
    for (ordinal, level) in LEVELS.iter().enumerate() {
        assert_eq!(DetailLevel::try_new(ordinal as u8), Ok(*level));
        assert_eq!(DetailLevel::new_unchecked(ordinal as u8), *level);
    }
    assert_eq!(DetailLevel::try_new(19), Err(()));
    assert_eq!(DetailLevel::try_new(255), Err(()));
    assert_eq!(DetailLevel::MIN, DetailLevel::Block);
    assert_eq!(DetailLevel::MAX, DetailLevel::Region512);
    assert_eq!(DetailLevel::default(), DetailLevel::Block);
}

#[test]
fn addition_climbs_the_scale() {
    assert_eq!(DetailLevel::Block + DetailLevel::Chunk4, DetailLevel::Chunk4);
    assert_eq!(DetailLevel::Block4 + DetailLevel::Chunk4, DetailLevel::Chunk16);
    assert_eq!(DetailLevel::Region8 + DetailLevel::Chunk4, DetailLevel::Region512);
    assert_eq!(DetailLevel::Region8.checked_add(DetailLevel::Chunk4), Some(DetailLevel::Region512));
    assert_eq!(DetailLevel::Region16.checked_add(DetailLevel::Chunk4), None);
    assert_eq!(DetailLevel::Region512.checked_add(DetailLevel::Region512), None);
}

#[test]
fn subtraction_stops_at_the_finest_level() {
    assert_eq!(DetailLevel::Chunk16 - DetailLevel::Chunk4, DetailLevel::Block4);
    assert_eq!(DetailLevel::Chunk4 - DetailLevel::Chunk4, DetailLevel::Block);
    assert_eq!(DetailLevel::Block2 - DetailLevel::Chunk4, DetailLevel::Block);
    assert_eq!(DetailLevel::Block - DetailLevel::Region512, DetailLevel::Block);
}

#[test]
fn levels_are_ordered_by_their_ordinals() {
    for pair in LEVELS.windows(2) {
        assert!(pair[0] < pair[1]);
    }
}
