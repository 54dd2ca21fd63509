use flate2::write::ZlibEncoder;
use flate2::Compression;
use pngscan::palette::PaletteEntry;
use pngscan::{crc, PNGFile, PNGParseError};
use std::io::Write;

const SIGNATURE: [u8; 8] = [137, 80, 78, 71, 13, 10, 26, 10];
const HEADER: [u8; 13] = [0, 0, 0, 10, 0, 0, 0, 20, 8, 2, 0, 0, 0];

fn frame(tag: &[u8; 4], payload: &[u8]) -> Vec<u8> {
    let mut covered = tag.to_vec();
    covered.extend_from_slice(payload);
    let mut out = (payload.len() as u32).to_be_bytes().to_vec();
    out.extend_from_slice(&covered);
    out.extend_from_slice(&crc(&covered).to_be_bytes());
    out
}

fn stream(frames: &[Vec<u8>]) -> Vec<u8> {
    let mut out = SIGNATURE.to_vec();
    for f in frames {
        out.extend_from_slice(f);
    }
    out
}

fn deflate(raw: &[u8]) -> Vec<u8> {
    let mut encoder = ZlibEncoder::new(Vec::new(), Compression::default());
    encoder.write_all(raw).unwrap();
    encoder.finish().unwrap()
}

/// The zlib stream that holds the bytes 1, 2, 3 in one stored block.
const STORED_123: [u8; 14] = [
    0x78, 0x01, 0x01, 0x03, 0x00, 0xFC, 0xFF, 0x01, 0x02, 0x03, 0x00, 0x0D, 0x00, 0x07,
];

#[test]
fn parse_decodes_a_whole_stream() {
    let raw: Vec<u8> = (0..200u32).map(|i| (i % 7) as u8).collect();
    let bytes = stream(&[
        frame(b"IHDR", &HEADER),
        frame(b"IDAT", &deflate(&raw)),
        frame(b"IEND", &[]),
    ]);
    let total = bytes.len();
    let mut file = PNGFile::init(bytes);
    assert_eq!(file.parse(), Ok(()));
    assert_eq!(file.image.header.width, 10);
    assert_eq!(file.image.header.height, 20);
    assert_eq!(file.image.header.bit_depth, 8);
    assert_eq!(file.image.header.color_type, 2);
    assert_eq!(file.image.raw_data, raw);
    assert!(file.image.palette.is_empty());
    assert!(file.image.ancillary.is_empty());
    assert_eq!(file.source.position(), total);
}

#[test]
fn parse_inflates_a_known_zlib_stream() {
    let bytes = stream(&[
        frame(b"IHDR", &HEADER),
        frame(b"IDAT", &STORED_123),
        frame(b"IEND", &[]),
    ]);
    let mut file = PNGFile::init(bytes);
    assert_eq!(file.parse(), Ok(()));
    assert_eq!(file.image.raw_data, vec![1, 2, 3]);
}

#[test]
fn parse_concatenates_split_image_data() {
    let raw: Vec<u8> = (0..1000u32).map(|i| (i * 31 % 251) as u8).collect();
    let packed = deflate(&raw);
    let (a, b) = packed.split_at(packed.len() / 2);
    let bytes = stream(&[
        frame(b"IHDR", &HEADER),
        frame(b"IDAT", a),
        frame(b"tEXt", b"between"),
        frame(b"IDAT", b),
        frame(b"IEND", &[]),
    ]);
    let mut file = PNGFile::init(bytes);
    assert_eq!(file.parse(), Ok(()));
    assert_eq!(file.image.raw_data, raw);
    assert_eq!(file.image.ancillary.len(), 1);
    assert_eq!(file.image.ancillary[&2].payload, b"between".to_vec());
}

#[test]
fn parse_fails_where_image_data_is_swapped() {
    let raw: Vec<u8> = (0..1000u32).map(|i| (i * 31 % 251) as u8).collect();
    let packed = deflate(&raw);
    let (a, b) = packed.split_at(packed.len() / 2);
    let bytes = stream(&[
        frame(b"IHDR", &HEADER),
        frame(b"IDAT", b),
        frame(b"IDAT", a),
        frame(b"IEND", &[]),
    ]);
    let mut file = PNGFile::init(bytes);
    assert_eq!(file.parse(), Err(PNGParseError::DecompressionFailure));
}

#[test]
fn parse_rejects_wrong_signature() {
    let mut bytes = stream(&[
        frame(b"IHDR", &HEADER),
        frame(b"IDAT", &STORED_123),
        frame(b"IEND", &[]),
    ]);
    bytes[0] = 0x88;
    let mut file = PNGFile::init(bytes);
    assert_eq!(file.parse(), Err(PNGParseError::SignatureMismatch));
    assert_eq!(file.source.position(), 0);
    assert_eq!(file.image.header.width, 0);
    assert!(file.image.raw_data.is_empty());
}

#[test]
fn parse_rejects_each_wrong_signature_byte() {
    for at in 0..8 {
        let mut bytes = stream(&[frame(b"IEND", &[])]);
        bytes[at] ^= 0x20;
        let mut file = PNGFile::init(bytes);
        assert_eq!(file.parse(), Err(PNGParseError::SignatureMismatch));
    }
}

#[test]
fn parse_rejects_short_or_empty_input() {
    let mut empty = PNGFile::init(Vec::new());
    assert_eq!(empty.parse(), Err(PNGParseError::SignatureMismatch));
    let mut short = PNGFile::init(SIGNATURE[..7].to_vec());
    assert_eq!(short.parse(), Err(PNGParseError::SignatureMismatch));
}

#[test]
fn parse_fails_on_end_marker_without_image_data() {
    let bytes = stream(&[frame(b"IHDR", &HEADER), frame(b"IEND", &[])]);
    let mut file = PNGFile::init(bytes);
    assert_eq!(file.parse(), Err(PNGParseError::EmptyImageData));
    assert_eq!(file.image.header.width, 0);
}

#[test]
fn parse_fails_on_empty_data_chunk_alone() {
    let bytes = stream(&[
        frame(b"IHDR", &HEADER),
        frame(b"IDAT", &[]),
        frame(b"IEND", &[]),
    ]);
    let mut file = PNGFile::init(bytes);
    assert_eq!(file.parse(), Err(PNGParseError::EmptyImageData));
}

#[test]
fn parse_fails_on_corrupt_image_data() {
    let bytes = stream(&[
        frame(b"IHDR", &HEADER),
        frame(b"IDAT", &[0xDE, 0xAD, 0xBE, 0xEF, 0x00]),
        frame(b"IEND", &[]),
    ]);
    let mut file = PNGFile::init(bytes);
    assert_eq!(file.parse(), Err(PNGParseError::DecompressionFailure));
    assert!(file.image.raw_data.is_empty());
}

#[test]
fn parse_fails_on_truncated_image_data() {
    let bytes = stream(&[
        frame(b"IHDR", &HEADER),
        frame(b"IDAT", &STORED_123[..9]),
        frame(b"IEND", &[]),
    ]);
    let mut file = PNGFile::init(bytes);
    assert_eq!(file.parse(), Err(PNGParseError::DecompressionFailure));
}

#[test]
fn parse_fails_on_checksum_mismatch() {
    let mut bytes = stream(&[
        frame(b"IHDR", &HEADER),
        frame(b"IDAT", &STORED_123),
        frame(b"IEND", &[]),
    ]);
    bytes[8 + 8 + 3] ^= 0x01;
    let mut file = PNGFile::init(bytes);
    assert_eq!(file.parse(), Err(PNGParseError::CrcMismatch));
    assert_eq!(file.source.position(), 8);
}

#[test]
fn parse_fails_on_stream_cut_inside_a_chunk() {
    let whole = stream(&[
        frame(b"IHDR", &HEADER),
        frame(b"IDAT", &STORED_123),
        frame(b"IEND", &[]),
    ]);
    let header_end = 8 + 12 + HEADER.len();
    let mut file = PNGFile::init(whole[..header_end + 5].to_vec());
    assert_eq!(file.parse(), Err(PNGParseError::EndOfStream));
    assert_eq!(file.source.position(), header_end);
}

#[test]
fn parse_accepts_stream_that_ends_between_chunks() {
    let bytes = stream(&[
        frame(b"IHDR", &HEADER),
        frame(b"PLTE", &[1, 2, 3, 4, 5, 6, 7]),
        frame(b"IDAT", &STORED_123),
    ]);
    let mut file = PNGFile::init(bytes);
    assert_eq!(file.parse(), Ok(()));
    assert_eq!(file.image.header.height, 20);
    assert_eq!(
        file.image.palette,
        vec![
            PaletteEntry { r: 1, g: 2, b: 3 },
            PaletteEntry { r: 4, g: 5, b: 6 }
        ]
    );
    assert!(file.image.raw_data.is_empty());
}

#[test]
fn parse_of_signature_alone_gives_blank_image() {
    let mut file = PNGFile::init(SIGNATURE.to_vec());
    assert_eq!(file.parse(), Ok(()));
    assert_eq!(file.image.header.width, 0);
    assert!(file.image.raw_data.is_empty());
    assert!(file.image.ancillary.is_empty());
    assert_eq!(file.source.position(), 8);
}

#[test]
fn parse_stops_at_end_marker() {
    let mut bytes = stream(&[
        frame(b"IHDR", &HEADER),
        frame(b"IDAT", &STORED_123),
        frame(b"IEND", &[]),
    ]);
    let end = bytes.len();
    bytes.extend_from_slice(&[1, 2, 3, 4, 5]);
    let mut file = PNGFile::init(bytes);
    assert_eq!(file.parse(), Ok(()));
    assert_eq!(file.image.raw_data, vec![1, 2, 3]);
    assert_eq!(file.source.position(), end);
}

#[test]
fn parse_keeps_unknown_chunks_under_their_position() {
    let bytes = stream(&[
        frame(b"IHDR", &HEADER),
        frame(b"gAMA", &[0, 1, 0x86, 0xA0]),
        frame(b"IDAT", &STORED_123),
        frame(b"tIME", &[7, 0xE8, 1, 2, 3, 4, 5]),
        frame(b"IEND", &[]),
    ]);
    let mut file = PNGFile::init(bytes);
    assert_eq!(file.parse(), Ok(()));
    let kept = &file.image.ancillary;
    assert_eq!(kept.len(), 2);
    assert_eq!(kept[&1].type_tag, *b"gAMA");
    assert_eq!(kept[&1].length, 4);
    assert_eq!(kept[&1].payload, vec![0, 1, 0x86, 0xA0]);
    assert_eq!(kept[&1].crc, crc(b"gAMA\x00\x01\x86\xA0"));
    assert_eq!(kept[&3].type_tag, *b"tIME");
    assert!(!kept.contains_key(&0));
    assert!(!kept.contains_key(&2));
}

#[test]
fn parse_reads_header_only_in_first_place() {
    let bytes = stream(&[
        frame(b"tEXt", b"first"),
        frame(b"IHDR", &HEADER),
        frame(b"IDAT", &STORED_123),
        frame(b"IEND", &[]),
    ]);
    let mut file = PNGFile::init(bytes);
    assert_eq!(file.parse(), Ok(()));
    assert_eq!(file.image.header.width, 0);
    assert_eq!(file.image.header.height, 0);
    assert_eq!(file.image.ancillary.len(), 2);
    assert_eq!(file.image.ancillary[&1].type_tag, *b"IHDR");
    assert_eq!(file.image.ancillary[&1].payload, HEADER.to_vec());
}

#[test]
fn parse_again_after_success_finds_no_signature() {
    let bytes = stream(&[
        frame(b"IHDR", &HEADER),
        frame(b"IDAT", &STORED_123),
        frame(b"IEND", &[]),
    ]);
    let mut file = PNGFile::init(bytes);
    assert_eq!(file.parse(), Ok(()));
    assert_eq!(file.parse(), Err(PNGParseError::SignatureMismatch));
    assert_eq!(file.image.raw_data, vec![1, 2, 3]);
    assert_eq!(file.image.header.width, 10);
}
