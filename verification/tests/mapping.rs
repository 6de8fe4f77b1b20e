use distant_horizons::block::Block;
use distant_horizons::error::Fault;
use distant_horizons::java::{readUTF, read_u16, read_u32};
use distant_horizons::section::entry::Entry;
use distant_horizons::section::intern::{InternPool, Interner, INLINE_CAP};
use distant_horizons::section::mapping::Mapping;

fn table(entries: &[&[u8]]) -> Vec<u8> {
    let mut bytes = (entries.len() as u32).to_be_bytes().to_vec();
    for entry in entries {
        bytes.extend_from_slice(&(entry.len() as u16).to_be_bytes());
        bytes.extend_from_slice(entry);
    }
    bytes
}

#[test]
fn an_entry_without_state_is_a_biome_and_a_block() {
    let mut pool = InternPool::new();
    let entry = Entry::try_from("minecraft:plains_DH-BSW_minecraft:stone", &mut pool).unwrap();
    assert_eq!(entry.biome(), "minecraft:plains");
    assert_eq!(entry.full_identifier(), "minecraft:stone");
    assert_eq!(entry.state_len(), 0);
    assert_eq!(entry.get_state("distance"), None);
    assert!(!entry.in_nether());
}

#[test]
fn an_entry_without_separator_is_refused() {
    let mut pool = InternPool::new();
    assert_eq!(
        Entry::try_from("minecraft:plains minecraft:stone", &mut pool).unwrap_err(),
        Fault::MissingSeparator
    );
    assert_eq!(Entry::try_from("", &mut pool).unwrap_err(), Fault::MissingSeparator);
    assert_eq!(
        Entry::try_from("minecraft:plains_DH-BSW", &mut pool).unwrap_err(),
        Fault::MissingSeparator
    );
    assert_eq!(
        Entry::try_from("a_STATE_{b:c}", &mut pool).unwrap_err(),
        Fault::MissingSeparator
    );
}

#[test]
fn the_state_of_an_entry_is_its_groups() {
    let mut pool = InternPool::new();
    let entry = Entry::try_from(
        "minecraft:taiga_DH-BSW_minecraft:spruce_leaves_STATE_{distance:1}{persistent:false}{waterlogged:false}",
        &mut pool,
    )
    .unwrap();
    assert_eq!(entry.biome(), "minecraft:taiga");
    assert_eq!(entry.full_identifier(), "minecraft:spruce_leaves");
    assert_eq!(entry.state_len(), 3);
    assert_eq!(entry.get_state("distance"), Some("1"));
    assert_eq!(entry.get_state("persistent"), Some("false"));
    assert_eq!(entry.get_state("waterlogged"), Some("false"));
    assert_eq!(entry.get_state("water"), None);
    assert_eq!(entry.get_state(""), None);
}

#[test]
fn the_first_separator_and_the_first_marker_count() {
    let mut pool = InternPool::new();
    let entry = Entry::try_from("a_DH-BSW_b_DH-BSW_c_STATE_{k:v}_STATE_", &mut pool).unwrap_err();
    assert_eq!(entry, Fault::MissingOpeningBrace);
    let entry = Entry::try_from("a_DH-BSW_b_DH-BSW_c_STATE_{k:v_STATE_w}", &mut pool).unwrap();
    assert_eq!(entry.biome(), "a");
    assert_eq!(entry.full_identifier(), "b_DH-BSW_c");
    assert_eq!(entry.get_state("k"), Some("v_STATE_w"));
    let entry = Entry::try_from("_DH-BSW_", &mut pool).unwrap();
    assert_eq!(entry.biome(), "");
    assert_eq!(entry.full_identifier(), "");
    let entry = Entry::try_from("a_DH-BSW_b_STATE_", &mut pool).unwrap();
    assert_eq!(entry.full_identifier(), "b");
    assert_eq!(entry.state_len(), 0);
}

#[test]
fn groups_are_cut_at_closing_braces() {
    let mut pool = InternPool::new();
    let entry = Entry::try_from("a_DH-BSW_b_STATE_{k:v}}{x:y:z}{p:", &mut pool).unwrap();
    assert_eq!(entry.state_len(), 3);
    assert_eq!(entry.get_state("k"), Some("v"));
    assert_eq!(entry.get_state("x"), Some("y:z"));
    assert_eq!(entry.get_state("p"), Some(""));
    let entry = Entry::try_from("a_DH-BSW_b_STATE_}}}", &mut pool).unwrap();
    assert_eq!(entry.state_len(), 0);
    let entry = Entry::try_from("a_DH-BSW_b_STATE_{:}", &mut pool).unwrap();
    assert_eq!(entry.get_state(""), Some(""));
    let entry = Entry::try_from("ä_DH-BSW_ö_STATE_{ü:ß}", &mut pool).unwrap();
    assert_eq!(entry.biome(), "ä");
    assert_eq!(entry.full_identifier(), "ö");
    assert_eq!(entry.get_state("ü"), Some("ß"));
}

#[test]
fn a_later_group_replaces_an_earlier_one() {
    let mut pool = InternPool::new();
    let entry = Entry::try_from("a_DH-BSW_b_STATE_{k:1}{j:2}{k:3}", &mut pool).unwrap();
    assert_eq!(entry.state_len(), 2);
    assert_eq!(entry.get_state("k"), Some("3"));
    assert_eq!(entry.get_state("j"), Some("2"));
}

#[test]
fn a_malformed_group_is_refused() {
    let mut pool = InternPool::new();
    assert_eq!(
        Entry::try_from("a_DH-BSW_b_STATE_k:v}", &mut pool).unwrap_err(),
        Fault::MissingOpeningBrace
    );
    assert_eq!(
        Entry::try_from("a_DH-BSW_b_STATE_{k:v} {j:w}", &mut pool).unwrap_err(),
        Fault::MissingOpeningBrace
    );
    assert_eq!(
        Entry::try_from("a_DH-BSW_b_STATE_{kv}", &mut pool).unwrap_err(),
        Fault::MissingColon
    );
    assert_eq!(
        Entry::try_from("a_DH-BSW_b_STATE_{", &mut pool).unwrap_err(),
        Fault::MissingColon
    );
    assert_eq!(
        Entry::try_from("a_DH-BSW_b_STATE_{k:v}{j}x", &mut pool).unwrap_err(),
        Fault::MissingColon
    );
    assert_eq!(
        Entry::try_from("a_DH-BSW_b_STATE_{k:v}x{j}", &mut pool).unwrap_err(),
        Fault::MissingOpeningBrace
    );
    assert_eq!(pool.biomes.len(), 0);
    assert_eq!(pool.state_keys.len(), 0);
}

#[test]
fn entries_are_equal_by_what_they_hold() {
    let mut pool = InternPool::new();
    let one = Entry::try_from("a_DH-BSW_b_STATE_{k:1}{j:2}", &mut pool).unwrap();
    let other = Entry::try_from("a_DH-BSW_b_STATE_{j:2}{k:0}{k:1}", &mut pool).unwrap();
    assert!(one == other);
    let other = Entry::try_from("a_DH-BSW_b_STATE_{j:2}{k:2}", &mut pool).unwrap();
    assert!(one != other);
    let other = Entry::try_from("a_DH-BSW_b_STATE_{j:2}", &mut pool).unwrap();
    assert!(one != other);
    let other = Entry::try_from("a_DH-BSW_b_STATE_{j:2}{l:1}", &mut pool).unwrap();
    assert!(one != other);
    let other = Entry::try_from("a_DH-BSW_c_STATE_{k:1}{j:2}", &mut pool).unwrap();
    assert!(one != other);
    let other = Entry::try_from("c_DH-BSW_b_STATE_{k:1}{j:2}", &mut pool).unwrap();
    assert!(one != other);
}

#[test]
fn the_default_entry_is_air_in_the_plains() {
    let entry = Entry::default();
    assert_eq!(entry.biome(), "minecraft:plains");
    assert_eq!(entry.full_identifier(), "AIR");
    assert_eq!(entry.state_len(), 0);
    assert!(entry.is_transparent());
    let mut pool = InternPool::new();
    assert!(entry == Entry::try_from("minecraft:plains_DH-BSW_AIR", &mut pool).unwrap());
}

#[test]
fn the_biomes_of_the_nether_are_known() {
    let mut pool = InternPool::new();
    for biome in [
        "minecraft:nether_wastes",
        "minecraft:crimson_forest",
        "minecraft:warped_forest",
        "minecraft:soul_sand_valley",
        "minecraft:basalt_deltas",
    ] {
        let entry = Entry::try_from(&format!("{biome}_DH-BSW_minecraft:netherrack"), &mut pool).unwrap();
        assert!(entry.in_nether());
    }
    let entry = Entry::try_from("minecraft:the_end_DH-BSW_minecraft:end_stone", &mut pool).unwrap();
    assert!(!entry.in_nether());
    let entry = Entry::try_from("nether_wastes_DH-BSW_minecraft:netherrack", &mut pool).unwrap();
    assert!(!entry.in_nether());
}

#[test]
fn equal_long_strings_share_one_copy() {
    let long_block = "minecraft:waxed_weathered_cut_copper_stairs";
    let long_biome = "minecraft:windswept_gravelly_hills";
    assert!(long_block.len() > INLINE_CAP && long_biome.len() > INLINE_CAP);
    let spelled = format!("{long_biome}_DH-BSW_{long_block}_STATE_{{a_key_of_more_than_23_bytes:a_value_of_more_than_23_bytes}}");
    let mut pool = InternPool::new();
    let first = Mapping::try_from(&table(&[spelled.as_bytes()]), &mut pool).unwrap();
    let second = Mapping::try_from(&table(&[b"a_DH-BSW_b", spelled.as_bytes()]), &mut pool).unwrap();
    let one = first.get(0);
    let other = second.get(1);
    assert_eq!(one.full_identifier(), other.full_identifier());
    assert_eq!(one.biome(), other.biome());
    assert!(std::ptr::eq(one.full_identifier(), other.full_identifier()));
    assert!(std::ptr::eq(one.biome(), other.biome()));
    assert!(std::ptr::eq(
        one.get_state("a_key_of_more_than_23_bytes").unwrap(),
        other.get_state("a_key_of_more_than_23_bytes").unwrap()
    ));
    assert_eq!(pool.biomes.len(), 1);
    assert_eq!(pool.blocks.len(), 1);
    assert_eq!(pool.state_keys.len(), 1);
    assert_eq!(pool.state_values.len(), 1);
    let mut apart = InternPool::new();
    let third = Mapping::try_from(&table(&[spelled.as_bytes()]), &mut apart).unwrap();
    assert_eq!(third.get(0).full_identifier(), one.full_identifier());
    assert!(!std::ptr::eq(third.get(0).full_identifier(), one.full_identifier()));
}

#[test]
fn short_strings_are_not_pooled() {
    let mut pool = InternPool::new();
    let entry = Entry::try_from("minecraft:plains_DH-BSW_minecraft:stone_STATE_{axis:y}", &mut pool).unwrap();
    assert_eq!(entry.full_identifier(), "minecraft:stone");
    assert_eq!(pool.biomes.len(), 0);
    assert_eq!(pool.blocks.len(), 0);
    assert_eq!(pool.state_keys.len(), 0);
    assert_eq!(pool.state_values.len(), 0);
    let exactly = "12345678901234567890123";
    let beyond = "123456789012345678901234";
    Entry::try_from(&format!("{exactly}_DH-BSW_{beyond}"), &mut pool).unwrap();
    assert_eq!(pool.biomes.len(), 0);
    assert_eq!(pool.blocks.len(), 1);
    Entry::try_from(&format!("1234567890123456789012ä_DH-BSW_{beyond}"), &mut pool).unwrap();
    assert_eq!(pool.biomes.len(), 1);
    assert_eq!(pool.blocks.len(), 1);
}

#[test]
fn a_pool_keeps_each_string_once() {
    let mut pool = Interner::new();
    assert_eq!(pool.len(), 0);
    let long: Vec<char> = "a string that is too long to be inline".chars().collect();
    let short: Vec<char> = "short".chars().collect();
    assert!(pool.lookup("a string that is too long to be inline").is_none());
    let first = pool.intern(&long);
    assert_eq!(first.as_str(), "a string that is too long to be inline");
    assert_eq!(pool.len(), 1);
    let second = pool.intern(&long);
    assert_eq!(pool.len(), 1);
    assert!(std::ptr::eq(first.as_str(), second.as_str()));
    let found = pool.lookup("a string that is too long to be inline").unwrap();
    assert!(std::ptr::eq(first.as_str(), found.as_str()));
    assert_eq!(pool.intern(&short).as_str(), "short");
    assert_eq!(pool.len(), 1);
    assert_eq!(pool.get(0), "a string that is too long to be inline");
    let other: Vec<char> = "another string that is too long to be inline".chars().collect();
    pool.intern(&other);
    pool.intern(&long);
    assert_eq!(pool.len(), 2);
    assert_eq!(pool.get(0), "a string that is too long to be inline");
    assert_eq!(pool.get(1), "another string that is too long to be inline");
    assert!(pool.lookup("short").is_none());
    assert_eq!(pool.intern(&[]).as_str(), "");
    assert_eq!(pool.len(), 2);
}

#[test]
fn a_table_is_a_count_and_its_strings() {
    let mut pool = InternPool::new();
    let bytes = table(&[
        b"minecraft:plains_DH-BSW_minecraft:stone",
        b"minecraft:plains_DH-BSW_AIR",
        b"minecraft:river_DH-BSW_minecraft:water_STATE_{level:0}",
    ]);
    let mapping = Mapping::try_from(&bytes, &mut pool).unwrap();
    assert_eq!(mapping.len(), 3);
    assert_eq!(mapping.get(0).full_identifier(), "minecraft:stone");
    assert_eq!(mapping.get(1).full_identifier(), "AIR");
    assert_eq!(mapping.get(2).biome(), "minecraft:river");
    assert_eq!(mapping.get(2).get_state("level"), Some("0"));
    let empty = Mapping::try_from(&[0, 0, 0, 0], &mut pool).unwrap();
    assert_eq!(empty.len(), 0);
}

#[test]
fn a_table_that_is_cut_short_is_corrupt() {
    let mut pool = InternPool::new();
    let bytes = table(&[b"a_DH-BSW_b", b"c_DH-BSW_d"]);
    assert_eq!(Mapping::try_from(&[], &mut pool).unwrap_err(), Fault::TruncatedPrefix);
    assert_eq!(Mapping::try_from(&[0, 0, 0], &mut pool).unwrap_err(), Fault::TruncatedPrefix);
    assert_eq!(Mapping::try_from(&bytes[..4], &mut pool).unwrap_err(), Fault::TruncatedPrefix);
    assert_eq!(Mapping::try_from(&bytes[..5], &mut pool).unwrap_err(), Fault::TruncatedPrefix);
    assert_eq!(Mapping::try_from(&bytes[..6], &mut pool).unwrap_err(), Fault::TruncatedRecords);
    assert_eq!(
        Mapping::try_from(&bytes[..bytes.len() - 1], &mut pool).unwrap_err(),
        Fault::TruncatedRecords
    );
    assert_eq!(Mapping::try_from(&bytes[..16], &mut pool).unwrap_err(), Fault::TruncatedPrefix);
}

#[test]
fn a_table_with_more_than_it_counts_is_corrupt() {
    let mut pool = InternPool::new();
    let mut bytes = table(&[b"a_DH-BSW_b"]);
    bytes.push(0);
    assert_eq!(Mapping::try_from(&bytes, &mut pool).unwrap_err(), Fault::TrailingBytes);
    assert_eq!(Mapping::try_from(&[0, 0, 0, 0, 0], &mut pool).unwrap_err(), Fault::TrailingBytes);
}

#[test]
fn a_table_with_a_bad_entry_is_refused_whole() {
    let mut pool = InternPool::new();
    let bytes = table(&[b"a_DH-BSW_b", b"no separator", b"c_DH-BSW_d"]);
    assert_eq!(Mapping::try_from(&bytes, &mut pool).unwrap_err(), Fault::MissingSeparator);
    let bytes = table(&[b"a_DH-BSW_b", b"c_DH-BSW_d_STATE_{x}"]);
    assert_eq!(Mapping::try_from(&bytes, &mut pool).unwrap_err(), Fault::MissingColon);
    let bytes = table(&[b"a_DH-BSW_b", &[0xff, 0xfe]]);
    assert_eq!(Mapping::try_from(&bytes, &mut pool).unwrap_err(), Fault::InvalidText);
}

#[test]
fn strings_are_modified_utf8_behind_their_length() {
    let bytes = [0, 5, b'h', b'e', b'l', b'l', b'o', 0, 3, b'a', 0xc0, 0x80, 9];
    assert_eq!(readUTF(&bytes, 0), Ok(("hello".to_string(), 7)));
    assert_eq!(readUTF(&bytes, 7), Ok(("a\0".to_string(), 12)));
    assert_eq!(readUTF(&bytes, 12), Err(Fault::TruncatedPrefix));
    assert_eq!(readUTF(&bytes, 13), Err(Fault::TruncatedPrefix));
    assert_eq!(readUTF(&bytes, 5), Err(Fault::TruncatedRecords));
    assert_eq!(readUTF(&[0, 0], 0), Ok((String::new(), 2)));
    assert_eq!(readUTF(&[0, 1, 0xff], 0), Err(Fault::InvalidText));
    assert_eq!(readUTF(&[0, 2, 0xc0, 0x81], 0), Err(Fault::InvalidText));
    let surrogates = [0, 6, 0xed, 0xa0, 0xbd, 0xed, 0xb8, 0x80];
    assert_eq!(readUTF(&surrogates, 0), Ok(("\u{1f600}".to_string(), 8)));
}

#[test]
fn numbers_are_read_highest_byte_first() {
    let bytes = [0x12, 0x34, 0x56, 0x78, 0x9a];
    assert_eq!(read_u16(&bytes, 0), 0x1234);
    assert_eq!(read_u16(&bytes, 3), 0x789a);
    assert_eq!(read_u32(&bytes, 0), 0x1234_5678);
    assert_eq!(read_u32(&bytes, 1), 0x3456_789a);
    assert_eq!(read_u32(&[0xff; 4], 0), u32::MAX);
    assert_eq!(read_u16(&[0xff; 2], 0), u16::MAX);
}
