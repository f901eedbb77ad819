use pngme::chunk::Chunk;
use pngme::chunk_type::ChunkType;
use pngme::error::{ChunkError, Error};
use pngme::png::{Png, STANDARD_HEADER};
use std::str::FromStr;

fn chunk_of(chunk_type: &str, data: &[u8]) -> Chunk {
    Chunk::new(ChunkType::from_str(chunk_type).unwrap(), data.to_vec())
}

fn types_of(png: &Png) -> Vec<String> {
    png.chunks().iter().map(|chunk| chunk.chunk_type().to_string()).collect()
}

fn small_image() -> Png {
    Png::from_chunks(vec![
        chunk_of("IHDR", &[0, 0, 0, 1, 0, 0, 0, 1, 8, 0, 0, 0, 0]),
        chunk_of("IDAT", &[1, 2, 3]),
        chunk_of("IEND", b""),
    ])
}

#[test]
fn png_header_is_the_signature() {
    assert_eq!(STANDARD_HEADER, [0x89, b'P', b'N', b'G', b'\r', b'\n', 0x1a, b'\n']);
    assert_eq!(Png::from_chunks(Vec::new()).header(), &STANDARD_HEADER);
}

#[test]
fn png_without_chunks_is_the_signature() {
    let png = Png::from_chunks(Vec::new());
    assert_eq!(png.as_bytes(), STANDARD_HEADER.to_vec());
    let again = Png::try_from(&STANDARD_HEADER[..]).unwrap();
    assert!(again.chunks().is_empty());
}

#[test]
fn png_as_bytes_is_signature_then_chunks() {
    let png = small_image();
    let mut expected = STANDARD_HEADER.to_vec();
    for chunk in png.chunks() {
        expected.extend_from_slice(&chunk.as_bytes());
    }
    assert_eq!(png.as_bytes(), expected);
    assert_eq!(expected.len(), 8 + 25 + 15 + 12);
}

#[test]
fn png_round_trip() {
    let png = small_image();
    let bytes = png.as_bytes();
    let again = Png::try_from(bytes.as_slice()).unwrap();
    assert_eq!(types_of(&again), vec!["IHDR", "IDAT", "IEND"]);
    assert_eq!(again.chunks()[1].data(), &[1, 2, 3]);
    assert_eq!(again.as_bytes(), bytes);
}

#[test]
fn png_reencoding_is_idempotent() {
    let bytes = small_image().as_bytes();
    let once = Png::try_from(bytes.as_slice()).unwrap().as_bytes();
    let twice = Png::try_from(once.as_slice()).unwrap().as_bytes();
    assert_eq!(once, twice);
    assert_eq!(once, bytes);
}

#[test]
fn png_without_signature_is_refused() {
    assert_eq!(Png::try_from(&[][..]).err(), Some(Error::InvalidSignature));
    assert_eq!(Png::try_from(&STANDARD_HEADER[..7]).err(), Some(Error::InvalidSignature));
    let mut bytes = small_image().as_bytes();
    assert_eq!(Png::try_from(&bytes[1..]).err(), Some(Error::InvalidSignature));
    bytes[7] = 11;
    assert_eq!(Png::try_from(bytes.as_slice()).err(), Some(Error::InvalidSignature));
    for at in 0..8 {
        let mut bytes = small_image().as_bytes();
        bytes[at] ^= 1;
        assert_eq!(Png::try_from(bytes.as_slice()).err(), Some(Error::InvalidSignature));
    }
}

#[test]
fn png_chunk_faults_carry_their_position() {
    let bytes = small_image().as_bytes();

    let mut changed = bytes.clone();
    changed[8 + 25 + 9] ^= 1;
    assert_eq!(
        Png::try_from(changed.as_slice()).err(),
        Some(Error::Chunk { offset: 33, cause: ChunkError::ChecksumMismatch })
    );

    let mut changed = bytes.clone();
    changed[8 + 4] = b'1';
    assert_eq!(
        Png::try_from(changed.as_slice()).err(),
        Some(Error::Chunk { offset: 8, cause: ChunkError::InvalidChunkType })
    );

    assert_eq!(
        Png::try_from(&bytes[..bytes.len() - 1]).err(),
        Some(Error::Chunk { offset: 48, cause: ChunkError::Truncated })
    );
    assert_eq!(
        Png::try_from(&bytes[..9]).err(),
        Some(Error::Chunk { offset: 8, cause: ChunkError::Truncated })
    );

    let mut long_field = bytes.clone();
    long_field[8 + 25 + 3] = 200;
    assert_eq!(
        Png::try_from(long_field.as_slice()).err(),
        Some(Error::Chunk { offset: 33, cause: ChunkError::Truncated })
    );

    let mut short_field = bytes.clone();
    short_field[8 + 25 + 3] = 2;
    assert_eq!(
        Png::try_from(short_field.as_slice()).err(),
        Some(Error::Chunk { offset: 33, cause: ChunkError::ChecksumMismatch })
    );

    let mut longer = bytes.clone();
    longer.push(0);
    assert_eq!(
        Png::try_from(longer.as_slice()).err(),
        Some(Error::Chunk { offset: 60, cause: ChunkError::Truncated })
    );
}

#[test]
fn png_keeps_chunks_after_the_end_chunk() {
    let png = Png::from_chunks(vec![chunk_of("IEND", b""), chunk_of("teSt", b"late")]);
    let again = Png::try_from(png.as_bytes().as_slice()).unwrap();
    assert_eq!(types_of(&again), vec!["IEND", "teSt"]);
}

#[test]
fn png_append_goes_before_the_end_chunk() {
    let mut png = small_image();
    png.append_chunk(chunk_of("teSt", b"hello"));
    assert_eq!(types_of(&png), vec!["IHDR", "IDAT", "teSt", "IEND"]);
    png.append_chunk(chunk_of("FrSt", b"world"));
    assert_eq!(types_of(&png), vec!["IHDR", "IDAT", "teSt", "FrSt", "IEND"]);
    let bytes = png.as_bytes();
    assert_eq!(&bytes[bytes.len() - 12..], chunk_of("IEND", b"").as_bytes().as_slice());
}

#[test]
fn png_append_goes_to_the_end_without_an_end_chunk() {
    let mut png = Png::from_chunks(Vec::new());
    png.append_chunk(chunk_of("teSt", b"hello"));
    png.append_chunk(chunk_of("FrSt", b"world"));
    assert_eq!(types_of(&png), vec!["teSt", "FrSt"]);

    let mut png = Png::from_chunks(vec![chunk_of("IEND", b"not empty")]);
    png.append_chunk(chunk_of("teSt", b"hello"));
    assert_eq!(types_of(&png), vec!["IEND", "teSt"]);

    let mut png = Png::from_chunks(vec![chunk_of("IEND", b""), chunk_of("IDAT", b"")]);
    png.append_chunk(chunk_of("teSt", b"hello"));
    assert_eq!(types_of(&png), vec!["IEND", "IDAT", "teSt"]);
}

#[test]
fn png_chunk_by_type_finds_the_first() {
    let mut png = small_image();
    png.append_chunk(chunk_of("teSt", b"first"));
    png.append_chunk(chunk_of("teSt", b"second"));
    assert_eq!(png.chunk_by_type("teSt").unwrap().data(), b"first");
    assert_eq!(png.chunk_by_type("IDAT").unwrap().data(), &[1, 2, 3]);
    assert!(png.chunk_by_type("test").is_none());
    assert!(png.chunk_by_type("teS").is_none());
    assert!(png.chunk_by_type("").is_none());
    assert!(png.chunk_by_type("teSt ").is_none());
    assert!(png.chunk_by_type("t\u{e9}St").is_none());
}

#[test]
fn png_remove_takes_the_first_only() {
    let mut png = small_image();
    png.append_chunk(chunk_of("teSt", b"first"));
    png.append_chunk(chunk_of("teSt", b"second"));
    let removed = png.remove_chunk("teSt").unwrap();
    assert_eq!(removed.data(), b"first");
    assert_eq!(types_of(&png), vec!["IHDR", "IDAT", "teSt", "IEND"]);
    assert_eq!(png.chunk_by_type("teSt").unwrap().data(), b"second");
    let removed = png.remove_chunk("teSt").unwrap();
    assert_eq!(removed.data(), b"second");
    assert_eq!(png.as_bytes(), small_image().as_bytes());
}

#[test]
fn png_remove_of_a_missing_type() {
    let mut png = small_image();
    let before = png.as_bytes();
    assert_eq!(png.remove_chunk("teSt").err(), Some(Error::NotFound));
    assert_eq!(png.remove_chunk("nope!").err(), Some(Error::NotFound));
    assert_eq!(png.remove_chunk("").err(), Some(Error::NotFound));
    assert_eq!(png.as_bytes(), before);
    let mut empty = Png::from_chunks(Vec::new());
    assert_eq!(empty.remove_chunk("IEND").err(), Some(Error::NotFound));
}

#[test]
fn png_end_to_end() {
    let mut png = Png::from_chunks(vec![chunk_of("teSt", b"hello")]);
    png.append_chunk(chunk_of("FrSt", b"world"));
    let bytes = png.as_bytes();

    let mut again = Png::try_from(bytes.as_slice()).unwrap();
    let found = again.chunk_by_type("FrSt").unwrap();
    assert_eq!(found.data(), b"world");
    assert_eq!(found.data_as_string(), Ok(String::from("world")));

    let removed = again.remove_chunk("teSt").unwrap();
    assert_eq!(removed.data(), b"hello");
    let after = again.as_bytes();

    let mut expected = STANDARD_HEADER.to_vec();
    expected.extend_from_slice(&chunk_of("FrSt", b"world").as_bytes());
    assert_eq!(after, expected);
    assert_eq!(after.len(), bytes.len() - 17);
    assert_eq!(&after[..8], &bytes[..8]);
    assert_eq!(&after[8..], &bytes[8 + 17..]);
    assert!(!after.windows(4).any(|window| window == b"teSt"));
}
