use pngme::chunk_type::ChunkType;
use pngme::error::Error;
use std::convert::TryFrom;
use std::str::FromStr;

#[test]
fn test_chunk_type_from_bytes() {
    let expected = [82, 117, 83, 116];
    let actual = ChunkType::try_from([82, 117, 83, 116]).unwrap();

    assert_eq!(expected, actual.bytes());
}

#[test]
fn test_chunk_type_from_str() {
    let expected = ChunkType::try_from([82, 117, 83, 116]).unwrap();
    let actual = ChunkType::from_str("RuSt").unwrap();
    assert_eq!(expected, actual);
}

#[test]
fn test_chunk_type_is_critical() {
    let chunk = ChunkType::from_str("RuSt").unwrap();
    assert!(chunk.is_critical());
}

#[test]
fn test_chunk_type_is_not_critical() {
    let chunk = ChunkType::from_str("ruSt").unwrap();
    assert!(!chunk.is_critical());
}

#[test]
fn test_chunk_type_is_public() {
    let chunk = ChunkType::from_str("RUSt").unwrap();
    assert!(chunk.is_public());
}

#[test]
fn test_chunk_type_is_not_public() {
    let chunk = ChunkType::from_str("RuSt").unwrap();
    assert!(!chunk.is_public());
}

#[test]
fn test_chunk_type_is_reserved_bit_valid() {
    let chunk = ChunkType::from_str("RuSt").unwrap();
    assert!(chunk.is_reserved_bit_valid());
}

#[test]
fn test_chunk_type_is_reserved_bit_invalid() {
    let chunk = ChunkType::from_str("Rust").unwrap();
    assert!(!chunk.is_reserved_bit_valid());
}

#[test]
fn test_chunk_type_is_safe_to_copy() {
    let chunk = ChunkType::from_str("RuSt").unwrap();
    assert!(chunk.is_safe_to_copy());
}

#[test]
fn test_chunk_type_is_unsafe_to_copy() {
    let chunk = ChunkType::from_str("RuST").unwrap();
    assert!(!chunk.is_safe_to_copy());
}

#[test]
fn test_valid_chunk_is_valid() {
    let chunk = ChunkType::from_str("RuSt").unwrap();
    assert!(chunk.is_valid());
}

#[test]
fn test_invalid_chunk_is_valid() {
    let chunk = ChunkType::from_str("Rust").unwrap();
    assert!(!chunk.is_valid());

    let chunk = ChunkType::from_str("Ru1t");
    assert!(chunk.is_err());
}

#[test]
fn test_chunk_type_string() {
    let chunk = ChunkType::from_str("RuSt").unwrap();
    assert_eq!(&chunk.to_string(), "RuSt");
}

#[test]
fn test_chunk_type_trait_impls() {
    let chunk_type_1: ChunkType = TryFrom::try_from([82, 117, 83, 116]).unwrap();
    let chunk_type_2: ChunkType = FromStr::from_str("RuSt").unwrap();
    let _chunk_string = chunk_type_1.to_string();
    let _are_chunks_equal = chunk_type_1 == chunk_type_2;
}

#[test]
fn chunk_type_from_bytes_refuses_each_position() {
    assert_eq!(ChunkType::try_from([49, 117, 83, 116]), Err(Error::InvalidFormat));
    assert_eq!(ChunkType::try_from([82, 32, 83, 116]), Err(Error::InvalidFormat));
    assert_eq!(ChunkType::try_from([82, 117, 0, 116]), Err(Error::InvalidFormat));
    assert_eq!(ChunkType::try_from([82, 117, 83, 255]), Err(Error::InvalidFormat));
}

#[test]
fn chunk_type_from_bytes_knows_the_edges_of_the_alphabet() {
    assert!(ChunkType::try_from([b'A', b'Z', b'a', b'z']).is_ok());
    assert_eq!(ChunkType::try_from([b'A' - 1, b'Z', b'a', b'z']), Err(Error::InvalidFormat));
    assert_eq!(ChunkType::try_from([b'A', b'Z' + 1, b'a', b'z']), Err(Error::InvalidFormat));
    assert_eq!(ChunkType::try_from([b'A', b'Z', b'a' - 1, b'z']), Err(Error::InvalidFormat));
    assert_eq!(ChunkType::try_from([b'A', b'Z', b'a', b'z' + 1]), Err(Error::InvalidFormat));
}

#[test]
fn chunk_type_from_str_refuses_short_text() {
    assert_eq!(ChunkType::from_str(""), Err(Error::InvalidFormat));
    assert_eq!(ChunkType::from_str("R"), Err(Error::InvalidFormat));
    assert_eq!(ChunkType::from_str("Ru"), Err(Error::InvalidFormat));
    assert_eq!(ChunkType::from_str("RuS"), Err(Error::InvalidFormat));
}

#[test]
fn chunk_type_from_str_refuses_long_text() {
    assert_eq!(ChunkType::from_str("RuStt"), Err(Error::InvalidFormat));
    assert_eq!(ChunkType::from_str("RuStRuSt"), Err(Error::InvalidFormat));
}

#[test]
fn chunk_type_from_str_refuses_what_is_no_ascii_letter() {
    assert_eq!(ChunkType::from_str("Ru t"), Err(Error::InvalidFormat));
    assert_eq!(ChunkType::from_str("Ru_t"), Err(Error::InvalidFormat));
    assert_eq!(ChunkType::from_str("R\u{e9}St"), Err(Error::InvalidFormat));
    assert_eq!(ChunkType::from_str("\u{e9}\u{e9}"), Err(Error::InvalidFormat));
    assert_eq!(ChunkType::from_str("\u{1f600}"), Err(Error::InvalidFormat));
}

#[test]
fn chunk_type_text_round_trip() {
    for text in ["RuSt", "IHDR", "IEND", "teSt", "FrSt", "zzzz", "AAAA"] {
        let chunk_type = ChunkType::from_str(text).unwrap();
        assert_eq!(chunk_type.bytes().to_vec(), text.as_bytes().to_vec());
        assert_eq!(chunk_type.to_string(), text);
        assert_eq!(ChunkType::try_from(chunk_type.bytes()), Ok(chunk_type));
    }
}

#[test]
fn chunk_type_case_matrix() {
    let chunk_type = ChunkType::from_str("RuSt").unwrap();
    assert!(chunk_type.is_critical());
    assert!(!chunk_type.is_public());
    assert!(chunk_type.is_reserved_bit_valid());
    assert!(chunk_type.is_safe_to_copy());

    assert!(!ChunkType::from_str("ruSt").unwrap().is_critical());
    assert!(!ChunkType::from_str("Rust").unwrap().is_reserved_bit_valid());
}

#[test]
fn chunk_type_equality_is_case_sensitive() {
    let small = ChunkType::from_str("rust").unwrap();
    let mixed = ChunkType::from_str("RuSt").unwrap();
    assert!(small != mixed);
    assert!(mixed == ChunkType::from_str("RuSt").unwrap());
    assert!(mixed != ChunkType::from_str("RuSu").unwrap());
}

#[test]
fn chunk_type_has_text() {
    let chunk_type = ChunkType::from_str("RuSt").unwrap();
    assert!(chunk_type.has_text("RuSt"));
    assert!(!chunk_type.has_text("rust"));
    assert!(!chunk_type.has_text("RuS"));
    assert!(!chunk_type.has_text("RuSt "));
    assert!(!chunk_type.has_text("RuS\u{e9}"));
    assert!(!chunk_type.has_text(""));
}

#[test]
fn chunk_type_through_the_from_str_trait() {
    let made: Result<ChunkType, Error> = FromStr::from_str("RuSt");
    assert_eq!(made.unwrap().bytes(), [82, 117, 83, 116]);
    let parsed: ChunkType = "teSt".parse().unwrap();
    assert_eq!(parsed.bytes(), *b"teSt");

    let short: Result<ChunkType, Error> = FromStr::from_str("Ru");
    assert_eq!(short, Err(Error::InvalidFormat));
    let long: Result<ChunkType, Error> = "RuStt".parse();
    assert_eq!(long, Err(Error::InvalidFormat));
    let digit: Result<ChunkType, Error> = "Ru1t".parse();
    assert_eq!(digit, Err(Error::InvalidFormat));
}
