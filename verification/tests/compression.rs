use distant_horizons::compression::{
    compress_lzma, decompress_lzma, lzma_result, Compressed, Compression, Decompressor, XzRun,
    XzStatus,
};
use distant_horizons::error::{Error, Fault};
use distant_horizons::section::columns::Columns;
use distant_horizons::section::world_gen_step::WorldGenStep;
use std::borrow::Cow;

#[test]
fn codecs_have_their_tags() {
    assert_eq!(Compression::from_tag(0), Ok(Compression::Uncompressed));
    assert_eq!(Compression::from_tag(1), Ok(Compression::Lz4));
    assert_eq!(Compression::from_tag(2), Ok(Compression::Zstd));
    assert_eq!(Compression::from_tag(3), Ok(Compression::Lzma2));
    assert_eq!(Compression::from_tag(4), Err(Error::UnsupportedCodec(4)));
    assert_eq!(Compression::from_tag(255), Err(Error::UnsupportedCodec(255)));
    assert_eq!(Compression::Uncompressed.as_u8(), 0);
    assert_eq!(Compression::Lz4.as_u8(), 1);
    assert_eq!(Compression::Zstd.as_u8(), 2);
    assert_eq!(Compression::Lzma2.as_u8(), 3);
    assert_eq!(Compression::default(), Compression::Uncompressed);
}

#[test]
fn uncompressed_bytes_come_out_as_they_went_in() {
    let mut codec = Compression::Uncompressed;
    assert_eq!(codec.decompress(&[1, 2, 3]), Ok(vec![1, 2, 3]));
    assert_eq!(codec.decompress(&[]), Ok(vec![]));
    assert_eq!(codec, Compression::Uncompressed);
}

#[test]
fn codecs_that_are_not_implemented_fail() {
    assert_eq!(Compression::Lz4.decompress(&[1, 2, 3]), Err(Error::UnsupportedCodec(1)));
    assert_eq!(Compression::Zstd.decompress(&[]), Err(Error::UnsupportedCodec(2)));
}

#[test]
fn what_is_compressed_decompresses_to_itself() {
    let value: Vec<u8> = (0..10000u32).map(|i| (i % 7) as u8).collect();
    let stream = compress_lzma(&value);
    assert_ne!(stream, value);
    assert!(stream.len() < value.len());
    assert_eq!(&stream[..6], &[0xfd, b'7', b'z', b'X', b'Z', 0]);
    assert_eq!(decompress_lzma(&stream), Ok(value.clone()));
    assert_eq!(Compression::Lzma2.decompress(&stream), Ok(value));
    let empty = compress_lzma(&[]);
    assert!(!empty.is_empty());
    assert_eq!(decompress_lzma(&empty), Ok(vec![]));
}

#[test]
fn a_stream_that_ends_early_gives_what_it_held() {
    let value: Vec<u8> = (0..100000u32).map(|i| (i * i % 251) as u8).collect();
    let stream = compress_lzma(&value);
    let partial = decompress_lzma(&stream[..stream.len() - 8]).unwrap();
    assert!(partial.len() <= value.len());
    assert_eq!(&value[..partial.len()], &partial[..]);
}

#[test]
fn bytes_that_are_no_stream_are_corrupt() {
    assert_eq!(decompress_lzma(&[1, 2, 3, 4, 5, 6, 7, 8, 9, 10, 11, 12, 13, 14]), Err(Error::CorruptStream(Fault::BadStream)));
    let mut stream = compress_lzma(&[1, 2, 3]);
    stream.extend_from_slice(&[9, 9, 9, 9]);
    assert_eq!(decompress_lzma(&stream), Err(Error::CorruptStream(Fault::BadStream)));
}

#[test]
fn a_run_counts_only_if_all_input_was_taken() {
    let run = |status, consumed| XzRun { status, output: vec![1, 2], consumed };
    assert_eq!(lzma_result(run(XzStatus::Finished, 10), 10), Ok(vec![1, 2]));
    assert_eq!(lzma_result(run(XzStatus::Truncated, 10), 10), Ok(vec![1, 2]));
    assert_eq!(lzma_result(run(XzStatus::Finished, 9), 10), Err(Error::CorruptStream(Fault::UnreadInput)));
    assert_eq!(lzma_result(run(XzStatus::Truncated, 11), 10), Err(Error::CorruptStream(Fault::UnreadInput)));
    assert_eq!(lzma_result(run(XzStatus::Failed, 10), 10), Err(Error::CorruptStream(Fault::BadStream)));
    assert_eq!(lzma_result(run(XzStatus::Failed, 0), 10), Err(Error::CorruptStream(Fault::BadStream)));
}

type Steps<'a> = Compressed<'a, Columns<WorldGenStep>, Compression>;

fn raw(bytes: &[u8], compressor: Compression) -> Steps<'_> {
    Compressed::Compressed { compressor, buf: Cow::Borrowed(bytes) }
}

#[test]
fn decompressing_twice_decodes_once() {
    let mut bytes = vec![3u8; 4096];
    bytes[1] = 4;
    let mut held = raw(&bytes, Compression::Uncompressed);
    assert!(held.is_compressed());
    assert!(!held.is_decompressed());
    assert!(held.as_ref().is_none());
    let first = *held.decompress(&mut ()).unwrap().get(1, 0);
    assert_eq!(first, WorldGenStep::Noise);
    assert!(matches!(held, Compressed::Cached { .. }));
    assert!(held.is_compressed());
    assert!(held.is_decompressed());
    let second = *held.decompress(&mut ()).unwrap().get(1, 0);
    assert_eq!(second, first);
    assert!(matches!(held, Compressed::Cached { .. }));
    assert_eq!(held.compressed_bytes(), Ok(&bytes[..]));
    assert_eq!(*held.as_ref().unwrap().get(0, 0), WorldGenStep::Biomes);
}

#[test]
fn the_decoder_runs_once() {
    let bytes = [5u8, 6, 7];
    let mut held: Compressed<'_, usize> = Compressed::from_bytes(&bytes);
    let mut calls = 0;
    let first = *held
        .decompress_with(|raw| {
            calls += 1;
            Ok::<usize, ()>(raw.len())
        })
        .unwrap();
    assert_eq!(first, 3);
    let second = *held
        .decompress_with(|raw| {
            calls += 1;
            Ok::<usize, ()>(raw.len() + 100)
        })
        .unwrap();
    assert_eq!(second, 3);
    assert_eq!(calls, 1);
    assert!(matches!(held, Compressed::Cached { val: 3, .. }));
    assert_eq!(held.compressed_bytes(), Ok(&bytes[..]));
}

#[test]
fn a_decoder_that_fails_changes_nothing() {
    let bytes = [5u8, 6, 7];
    let mut held: Compressed<'_, usize> = Compressed::from_bytes(&bytes);
    assert_eq!(held.decompress_with(|_| Err::<usize, u8>(42)), Err(42));
    assert!(matches!(held, Compressed::Compressed { .. }));
    assert_eq!(held.compressed_bytes(), Ok(&bytes[..]));
    assert_eq!(held.decompress_with(|raw| Ok::<usize, u8>(raw.len())), Ok(&3));
}

#[test]
fn a_payload_that_does_not_decode_stays_compressed() {
    let bytes = vec![77u8; 4096];
    let mut held = raw(&bytes, Compression::Uncompressed);
    assert_eq!(held.decompress(&mut ()).unwrap_err(), Error::CorruptStream(Fault::UnknownValue(77)));
    assert!(matches!(held, Compressed::Compressed { .. }));
    assert_eq!(held.compressed_bytes(), Ok(&bytes[..]));
    let mut held = raw(&bytes[..10], Compression::Uncompressed);
    assert_eq!(held.decompress(&mut ()).unwrap_err(), Error::CorruptStream(Fault::UnknownValue(77)));
    let short = vec![1u8; 10];
    let mut held = raw(&short, Compression::Uncompressed);
    assert_eq!(held.decompress(&mut ()).unwrap_err(), Error::CorruptStream(Fault::MissingValues));
    let mut held = raw(&bytes, Compression::Zstd);
    assert_eq!(held.decompress(&mut ()).unwrap_err(), Error::UnsupportedCodec(2));
    assert!(matches!(held, Compressed::Compressed { .. }));
    let mut held = raw(&bytes, Compression::Lzma2);
    assert_eq!(held.decompress(&mut ()).unwrap_err(), Error::CorruptStream(Fault::BadStream));
}

#[test]
fn a_compressed_payload_is_decoded_through_its_codec() {
    let plain = vec![2u8; 4096];
    let stream = compress_lzma(&plain);
    let mut held = raw(&stream, Compression::Lzma2);
    assert_eq!(*held.decompress(&mut ()).unwrap().get(9, 9), WorldGenStep::StructureReference);
    assert_eq!(held.compressed_bytes(), Ok(&stream[..]));
}

#[test]
fn changing_a_cached_value_drops_its_bytes() {
    let bytes = vec![3u8; 4096];
    let mut held = raw(&bytes, Compression::Uncompressed);
    assert!(held.as_mut().is_none());
    assert!(matches!(held, Compressed::Compressed { .. }));
    held.decompress(&mut ()).unwrap();
    assert!(matches!(held, Compressed::Cached { .. }));
    assert!(held.as_mut().is_some());
    assert!(matches!(held, Compressed::Decompressed { .. }));
    assert!(!held.is_compressed());
    assert!(held.is_decompressed());
    assert_eq!(held.compressed_bytes(), Err(Error::NeedsRecompression));
    assert_eq!(*held.as_ref().unwrap().get(0, 0), WorldGenStep::Biomes);
    assert_eq!(*held.decompress(&mut ()).unwrap().get(0, 0), WorldGenStep::Biomes);
}

#[test]
fn a_changed_value_stays_changed() {
    let bytes = [1u8, 2];
    let mut held: Compressed<'_, usize> = Compressed::from_bytes(&bytes);
    held.decompress_with(|raw| Ok::<usize, ()>(raw.len())).unwrap();
    *held.as_mut().unwrap() = 9;
    assert_eq!(held.as_ref(), Some(&9));
    assert!(matches!(held, Compressed::Decompressed { val: 9, .. }));
}

#[test]
fn dropping_the_cache_keeps_the_value() {
    let bytes = vec![3u8; 4096];
    let mut held = raw(&bytes, Compression::Uncompressed);
    held.drop_cache();
    assert!(matches!(held, Compressed::Compressed { .. }));
    assert_eq!(held.compressed_bytes(), Ok(&bytes[..]));
    held.decompress(&mut ()).unwrap();
    held.drop_cache();
    assert!(matches!(held, Compressed::Decompressed { compressor: Compression::Uncompressed, .. }));
    assert_eq!(*held.as_ref().unwrap().get(5, 5), WorldGenStep::Biomes);
    held.drop_cache();
    assert!(matches!(held, Compressed::Decompressed { .. }));
}

#[test]
fn the_codec_beside_a_value_can_be_changed() {
    let bytes = [1u8, 2, 3];
    let held: Compressed<'_, usize> = Compressed::from_bytes(&bytes);
    assert!(matches!(held, Compressed::Compressed { compressor: None, .. }));
    let held = held.with_compressor(Compression::Lzma2);
    assert!(matches!(held, Compressed::Compressed { compressor: Compression::Lzma2, .. }));
    assert_eq!(held.compressed_bytes(), Ok(&bytes[..]));
    let held = held.without_compressor();
    assert!(matches!(held, Compressed::Compressed { compressor: None, .. }));
    let held: Compressed<'_, u8, u8> = Compressed::Decompressed { compressor: 1, val: 2 };
    let held = held.with_compressor("x").without_compressor();
    assert!(matches!(held, Compressed::Decompressed { compressor: None, val: 2 }));
    let held: Compressed<'_, u8, u8> = Compressed::Cached { compressor: 1, val: 2, buf: Cow::Borrowed(&bytes) };
    let held = held.with_compressor(7u16);
    assert!(matches!(held, Compressed::Cached { compressor: 7, val: 2, .. }));
    assert_eq!(held.compressed_bytes(), Ok(&bytes[..]));
}

#[test]
fn an_owned_value_holds_the_same() {
    let held: Compressed<'static, usize, Compression> = {
        let bytes = vec![1u8, 2, 3];
        let held: Compressed<'_, usize, Compression> = Compressed::Cached {
            compressor: Compression::Lz4,
            val: 5,
            buf: Cow::Borrowed(&bytes),
        };
        held.into_owned()
    };
    assert!(matches!(held, Compressed::Cached { compressor: Compression::Lz4, val: 5, buf: Cow::Owned(_) }));
    assert_eq!(held.compressed_bytes(), Ok(&[1u8, 2, 3][..]));
    let held: Compressed<'_, usize, Compression> = Compressed::default();
    assert!(matches!(held, Compressed::Compressed { compressor: Compression::Uncompressed, .. }));
    assert_eq!(held.compressed_bytes(), Ok(&[][..]));
    let held = held.into_owned();
    assert_eq!(held.compressed_bytes(), Ok(&[][..]));
}
