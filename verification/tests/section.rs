use distant_horizons::block::Block;
use distant_horizons::compression::{compress_lzma, Compression};
use distant_horizons::data::{FullDataSourceV2DTO, Pos};
use distant_horizons::detail_level::DetailLevel;
use distant_horizons::error::{Error, Fault};
use distant_horizons::light::LightLevel;
use distant_horizons::repo::{Repo, Row};
use distant_horizons::section::compression::WorldCompression;
use distant_horizons::section::data::DataPoint;
use distant_horizons::section::intern::InternPool;
use distant_horizons::section::world_gen_step::WorldGenStep;
use distant_horizons::section::{decompress_all, Failure, Field, Section};
use distant_horizons::section_pos::SectionPos;

struct Payloads {
    data: Vec<u8>,
    steps: Vec<u8>,
    modes: Vec<u8>,
    mapping: Vec<u8>,
}

fn payloads() -> Payloads {
    let stone = DataPoint::new(1, 64, 0, LightLevel::Level15, LightLevel::Level0);
    let air = DataPoint::new(0, 200, 64, LightLevel::Level15, LightLevel::Level0);
    let mut data = Vec::new();
    for _ in 0..4096 {
        data.extend_from_slice(&[0, 2]);
        data.extend_from_slice(&air.to_be_bytes());
        data.extend_from_slice(&stone.to_be_bytes());
    }
    let mut mapping = vec![0, 0, 0, 2];
    for entry in ["minecraft:plains_DH-BSW_AIR", "minecraft:plains_DH-BSW_minecraft:stone"] {
        mapping.extend_from_slice(&(entry.len() as u16).to_be_bytes());
        mapping.extend_from_slice(entry.as_bytes());
    }
    Payloads { data, steps: vec![9; 4096], modes: vec![1; 4096], mapping }
}

fn row<'r>(payloads: &'r Payloads, compression_mode: u8) -> Row<'r> {
    Row {
        detail_level: 2,
        pos_x: -3,
        pos_z: 4,
        min_y: -64,
        data_checksum: 1234,
        data: &payloads.data,
        column_generation_step: &payloads.steps,
        column_world_compression_mode: &payloads.modes,
        mapping: &payloads.mapping,
        data_format_version: 1,
        compression_mode,
        apply_to_parent: Some(true),
        apply_to_children: None,
        last_modified_unix_date_time: 1700000000000,
        created_unix_date_time: 1600000000000,
    }
}

#[test]
fn a_row_becomes_a_section_with_compressed_payloads() {
    let payloads = payloads();
    let section = Section::from_row(&row(&payloads, 0)).unwrap();
    assert_eq!(section.pos, SectionPos::new(DetailLevel::Chunk16, -3, 4));
    assert_eq!(section.pos.detail_level(), DetailLevel::Chunk16);
    assert_eq!(section.min_y, -64);
    assert_eq!(section.compression(), Compression::Uncompressed);
    assert_eq!(section.block_width(), 256);
    assert!(section.is_compressed());
    assert!(!section.is_decompressed());
    assert!(section.column_data().is_none());
    assert!(section.mapping().is_none());
    assert!(section.world_gen_steps().is_none());
    assert!(section.world_compressions().is_none());
    assert_eq!(Section::WIDTH, 64);
}

#[test]
fn a_section_goes_back_into_the_row_it_came_from() {
    let payloads = payloads();
    let before = row(&payloads, 3);
    let section = Section::from_row(&before).unwrap();
    let after = section.bind_insert().unwrap();
    assert_eq!(after.detail_level, 2);
    assert_eq!(after.pos_x, -3);
    assert_eq!(after.pos_z, 4);
    assert_eq!(after.min_y, -64);
    assert_eq!(after.data_checksum, 1234);
    assert_eq!(after.data, &payloads.data[..]);
    assert_eq!(after.column_generation_step, &payloads.steps[..]);
    assert_eq!(after.column_world_compression_mode, &payloads.modes[..]);
    assert_eq!(after.mapping, &payloads.mapping[..]);
    assert_eq!(after.data_format_version, 1);
    assert_eq!(after.compression_mode, 3);
    assert_eq!(after.apply_to_parent, Some(true));
    assert_eq!(after.apply_to_children, None);
    assert_eq!(after.last_modified_unix_date_time, 1700000000000);
    assert_eq!(after.created_unix_date_time, 1600000000000);
    let again = <Section as Repo>::bind_insert(&section).unwrap();
    assert_eq!(again.mapping, &payloads.mapping[..]);
}

#[test]
fn a_row_with_a_bad_scalar_becomes_no_section() {
    let payloads = payloads();
    let mut bad = row(&payloads, 0);
    bad.detail_level = 13;
    assert_eq!(Section::from_row(&bad).unwrap_err(), Error::SchemaMismatch);
    bad.detail_level = 19;
    assert_eq!(Section::from_row(&bad).unwrap_err(), Error::SchemaMismatch);
    bad.detail_level = 255;
    assert_eq!(Section::from_row(&bad).unwrap_err(), Error::SchemaMismatch);
    bad.detail_level = 12;
    assert_eq!(Section::from_row(&bad).unwrap().pos.detail_level(), DetailLevel::Region512);
    bad.pos_x = 1 << 27;
    assert_eq!(Section::from_row(&bad).unwrap_err(), Error::SchemaMismatch);
    bad.pos_x = 0;
    bad.pos_z = -(1 << 27);
    assert_eq!(Section::from_row(&bad).unwrap_err(), Error::SchemaMismatch);
    bad.pos_z = -(1 << 27) + 1;
    assert_eq!(Section::from_row(&bad).unwrap().pos.z(), -(1 << 27) + 1);
    bad.compression_mode = 4;
    assert_eq!(Section::from_row(&bad).unwrap_err(), Error::UnsupportedCodec(4));
    bad.detail_level = 100;
    assert_eq!(<Section as Repo>::from_row(&bad).unwrap_err(), Error::SchemaMismatch);
}

#[test]
fn a_section_is_decoded_on_demand() {
    let payloads = payloads();
    let mut pool = InternPool::new();
    let mut section = Section::from_row(&row(&payloads, 0)).unwrap();
    assert_eq!(section.decompress(&mut pool), Ok(()));
    assert!(section.is_decompressed());
    assert!(section.is_compressed());
    let columns = section.column_data().unwrap();
    let mapping = section.mapping().unwrap();
    let top = columns.get(10, 20)[0];
    assert_eq!(top.id(), 0);
    assert_eq!(top.height(), 200);
    assert_eq!(top.min_y(), 64);
    assert_eq!(mapping.get(top.id() as usize).full_identifier(), "AIR");
    let below = columns.get(10, 20)[1];
    assert_eq!(mapping.get(below.id() as usize).id(), "stone");
    assert_eq!(*section.world_gen_steps().unwrap().get(1, 1), WorldGenStep::Light);
    assert_eq!(*section.world_compressions().unwrap().get(1, 1), WorldCompression::VisuallyEqual);
    assert_eq!(section.decompress(&mut pool), Ok(()));
    assert!(section.bind_insert().is_ok());
}

#[test]
fn a_compressed_section_is_decoded_through_its_codec() {
    let plain = payloads();
    let payloads = Payloads {
        data: compress_lzma(&plain.data),
        steps: compress_lzma(&plain.steps),
        modes: compress_lzma(&plain.modes),
        mapping: compress_lzma(&plain.mapping),
    };
    let mut pool = InternPool::new();
    let mut section = Section::from_row(&row(&payloads, 3)).unwrap();
    assert_eq!(section.compression(), Compression::Lzma2);
    assert_eq!(section.decompress(&mut pool), Ok(()));
    assert_eq!(section.column_data().unwrap().get(63, 63).len(), 2);
    assert_eq!(section.mapping().unwrap().len(), 2);
    assert_eq!(section.bind_insert().unwrap().data, &payloads.data[..]);
}

#[test]
fn a_section_without_caches_has_to_be_compressed_again() {
    let payloads = payloads();
    let mut pool = InternPool::new();
    let mut section = Section::from_row(&row(&payloads, 0)).unwrap();
    section.drop_caches();
    assert!(section.is_compressed());
    assert!(section.bind_insert().is_ok());
    section.decompress(&mut pool).unwrap();
    section.drop_caches();
    assert!(section.is_decompressed());
    assert!(!section.is_compressed());
    assert_eq!(section.bind_insert().unwrap_err(), Error::NeedsRecompression);
    assert_eq!(section.mapping().unwrap().len(), 2);
    assert_eq!(section.decompress(&mut pool), Ok(()));
}

#[test]
fn the_first_payload_that_fails_is_named() {
    let mut payloads = payloads();
    payloads.mapping.push(0);
    let mut pool = InternPool::new();
    let mut section = Section::from_row(&row(&payloads, 0)).unwrap();
    assert_eq!(
        section.decompress(&mut pool),
        Err(Failure { field: Field::Mapping, error: Error::CorruptStream(Fault::TrailingBytes) })
    );
    assert!(section.column_data().is_some());
    assert!(section.world_gen_steps().is_some());
    assert!(section.world_compressions().is_some());
    assert!(section.mapping().is_none());
    assert!(!section.is_decompressed());
    assert!(section.bind_insert().is_ok());
    payloads.modes[5] = 2;
    payloads.steps[7] = 100;
    let mut section = Section::from_row(&row(&payloads, 0)).unwrap();
    assert_eq!(
        section.decompress(&mut pool),
        Err(Failure { field: Field::WorldGenStep, error: Error::CorruptStream(Fault::UnknownValue(100)) })
    );
    assert!(section.column_data().is_some());
    assert!(section.world_gen_steps().is_none());
    assert!(section.world_compressions().is_none());
    payloads.steps[7] = 1;
    let mut section = Section::from_row(&row(&payloads, 0)).unwrap();
    assert_eq!(
        section.decompress(&mut pool),
        Err(Failure { field: Field::WorldCompression, error: Error::CorruptStream(Fault::UnknownValue(2)) })
    );
    payloads.data.truncate(5 * 18 + 10);
    let mut section = Section::from_row(&row(&payloads, 0)).unwrap();
    assert_eq!(
        section.decompress(&mut pool),
        Err(Failure { field: Field::Data, error: Error::CorruptStream(Fault::TruncatedRecords) })
    );
    payloads.data.truncate(5 * 18 + 1);
    let mut section = Section::from_row(&row(&payloads, 0)).unwrap();
    assert_eq!(
        section.decompress(&mut pool),
        Err(Failure { field: Field::Data, error: Error::CorruptStream(Fault::TruncatedPrefix) })
    );
    assert!(section.column_data().is_none());
    let mut section = Section::from_row(&row(&payloads, 1)).unwrap();
    assert_eq!(
        section.decompress(&mut pool),
        Err(Failure { field: Field::Data, error: Error::UnsupportedCodec(1) })
    );
}

#[test]
fn an_owned_section_outlives_its_row() {
    let mut pool = InternPool::new();
    let mut owned: Section<'static> = {
        let payloads = payloads();
        let section = Section::from_row(&row(&payloads, 0)).unwrap();
        section.into_owned()
    };
    assert_eq!(owned.pos.x(), -3);
    assert_eq!(owned.min_y, -64);
    assert!(owned.is_compressed());
    assert_eq!(owned.decompress(&mut pool), Ok(()));
    assert_eq!(owned.mapping().unwrap().get(1).full_identifier(), "minecraft:stone");
    let payloads = payloads();
    assert_eq!(owned.bind_insert().unwrap().mapping, &payloads.mapping[..]);
}

#[test]
fn a_stored_section_keeps_the_row() {
    let payloads = payloads();
    let dto = FullDataSourceV2DTO::try_from(&row(&payloads, 7)).unwrap();
    assert_eq!(dto.detail_level, DetailLevel::Chunk16);
    assert_eq!(dto.pos, Pos { x: -3, z: 4 });
    assert_eq!(dto.block_width(), 256);
    assert_eq!(dto.section_pos(), SectionPos::new(DetailLevel::Chunk16, -3, 4));
    let mut bad = row(&payloads, 7);
    bad.detail_level = 13;
    assert_eq!(FullDataSourceV2DTO::try_from(&bad).unwrap_err(), Error::SchemaMismatch);
    bad.detail_level = 200;
    assert_eq!(FullDataSourceV2DTO::try_from(&bad).unwrap_err(), Error::SchemaMismatch);
}

#[test]
fn a_batch_goes_on_behind_a_section_that_fails() {
    let good = payloads();
    let mut bad = payloads();
    bad.steps[0] = 200;
    let mut sections = vec![
        Section::from_row(&row(&good, 0)).unwrap(),
        Section::from_row(&row(&bad, 0)).unwrap(),
        Section::from_row(&row(&good, 2)).unwrap(),
        Section::from_row(&row(&good, 0)).unwrap(),
    ];
    let mut pool = InternPool::new();
    let outcomes = decompress_all(&mut sections, &mut pool);
    assert_eq!(
        outcomes,
        vec![
            Ok(()),
            Err(Failure { field: Field::WorldGenStep, error: Error::CorruptStream(Fault::UnknownValue(200)) }),
            Err(Failure { field: Field::Data, error: Error::UnsupportedCodec(2) }),
            Ok(()),
        ]
    );
    assert!(sections[0].is_decompressed());
    assert!(!sections[1].is_decompressed());
    assert!(sections[1].column_data().is_some());
    assert!(sections[2].column_data().is_none());
    assert!(sections[3].is_decompressed());
    assert_eq!(decompress_all(&mut Vec::new(), &mut pool), vec![]);
}
