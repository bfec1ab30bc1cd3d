use pngme::chunk::Chunk;
use pngme::chunk_type::ChunkType;
use pngme::error::PngError;

fn testing_chunk() -> Chunk {
    let data_length: u32 = 42;
    let chunk_type = "RuSt".as_bytes();
    let message_bytes = "This is where your secret message will be!".as_bytes();
    let crc: u32 = 2882656334;

    let chunk_data: Vec<u8> = data_length
        .to_be_bytes()
        .iter()
        .chain(chunk_type.iter())
        .chain(message_bytes.iter())
        .chain(crc.to_be_bytes().iter())
        .copied()
        .collect();

    Chunk::parse(&chunk_data).unwrap()
}

#[test]
fn test_new_chunk() {
    let chunk_type = ChunkType::from_string("RuSt").unwrap();
    let data = "This is where your secret message will be!"
        .as_bytes()
        .to_vec();
    let chunk = Chunk::new(chunk_type, data);
    assert_eq!(chunk.length(), 42);
    assert_eq!(chunk.crc(), 2882656334);
}

#[test]
fn test_chunk_length() {
    let chunk = testing_chunk();
    assert_eq!(chunk.length(), 42);
}

#[test]
fn test_chunk_type() {
    let chunk = testing_chunk();
    assert_eq!(chunk.chunk_type().to_string(), String::from("RuSt"));
}

#[test]
fn test_chunk_string() {
    let chunk = testing_chunk();
    let chunk_string = chunk.data_as_string().unwrap();
    let expected_chunk_string = String::from("This is where your secret message will be!");
    assert_eq!(chunk_string, expected_chunk_string);
}

#[test]
fn test_chunk_crc() {
    let chunk = testing_chunk();
    assert_eq!(chunk.crc(), 2882656334);
}

#[test]
fn test_valid_chunk_from_bytes() {
    let data_length: u32 = 42;
    let chunk_type = "RuSt".as_bytes();
    let message_bytes = "This is where your secret message will be!".as_bytes();
    let crc: u32 = 2882656334;

    let chunk_data: Vec<u8> = data_length
        .to_be_bytes()
        .iter()
        .chain(chunk_type.iter())
        .chain(message_bytes.iter())
        .chain(crc.to_be_bytes().iter())
        .copied()
        .collect();

    let chunk = Chunk::parse(&chunk_data).unwrap();

    let chunk_string = chunk.data_as_string().unwrap();
    let expected_chunk_string = String::from("This is where your secret message will be!");

    assert_eq!(chunk.length(), 42);
    assert_eq!(chunk.chunk_type().to_string(), String::from("RuSt"));
    assert_eq!(chunk_string, expected_chunk_string);
    assert_eq!(chunk.crc(), 2882656334);
}

#[test]
fn test_invalid_chunk_from_bytes() {
    let data_length: u32 = 42;
    let chunk_type = "RuSt".as_bytes();
    let message_bytes = "This is where your secret message will be!".as_bytes();
    let crc: u32 = 2882656333;

    let chunk_data: Vec<u8> = data_length
        .to_be_bytes()
        .iter()
        .chain(chunk_type.iter())
        .chain(message_bytes.iter())
        .chain(crc.to_be_bytes().iter())
        .copied()
        .collect();

    let chunk = Chunk::parse(&chunk_data);

    assert!(chunk.is_err());
}

#[test]
pub fn test_chunk_trait_impls() {
    let data_length: u32 = 42;
    let chunk_type = "RuSt".as_bytes();
    let message_bytes = "This is where your secret message will be!".as_bytes();
    let crc: u32 = 2882656334;

    let chunk_data: Vec<u8> = data_length
        .to_be_bytes()
        .iter()
        .chain(chunk_type.iter())
        .chain(message_bytes.iter())
        .chain(crc.to_be_bytes().iter())
        .copied()
        .collect();

    let chunk: Chunk = Chunk::parse(&chunk_data).unwrap();

    let _chunk_string = format!("{:?}", chunk);
}

#[test]
fn test_chunk_checksum_mismatch_reports_both_values() {
    let data_length: u32 = 42;
    let chunk_type = "RuSt".as_bytes();
    let message_bytes = "This is where your secret message will be!".as_bytes();
    let crc: u32 = 2882656333;

    let chunk_data: Vec<u8> = data_length
        .to_be_bytes()
        .iter()
        .chain(chunk_type.iter())
        .chain(message_bytes.iter())
        .chain(crc.to_be_bytes().iter())
        .copied()
        .collect();

    let err = Chunk::parse(&chunk_data).unwrap_err();
    assert_eq!(
        err,
        PngError::ChecksumMismatch { expected: 2882656334, actual: 2882656333 }
    );
}

#[test]
fn test_chunk_parse_truncated() {
    assert_eq!(Chunk::parse(&[]).unwrap_err(), PngError::Truncated);
    let eleven = [0u8; 11];
    assert_eq!(Chunk::parse(&eleven).unwrap_err(), PngError::Truncated);
}

#[test]
fn test_chunk_round_trip() {
    let chunk_type = ChunkType::from_string("TeSt").unwrap();
    let chunk = Chunk::new(chunk_type, vec![1, 2, 3, 4, 5]);
    let bytes = chunk.as_bytes();
    let reparsed = Chunk::parse(&bytes).unwrap();
    assert_eq!(reparsed.length(), chunk.length());
    assert_eq!(reparsed.chunk_type().bytes(), chunk.chunk_type().bytes());
    assert_eq!(reparsed.data(), chunk.data());
    assert_eq!(reparsed.crc(), chunk.crc());
    assert_eq!(reparsed.as_bytes(), bytes);
}

#[test]
fn test_chunk_crc_deterministic() {
    let a = Chunk::new(ChunkType::from_string("RuSt").unwrap(), vec![9, 8, 7]);
    let b = Chunk::new(ChunkType::from_string("RuSt").unwrap(), vec![9, 8, 7]);
    assert_eq!(a.crc(), b.crc());
}

#[test]
fn test_chunk_crc_changes_on_bit_flip() {
    let base = Chunk::new(ChunkType::from_string("RuSt").unwrap(), vec![9, 8, 7]);
    // One bit flipped in the data.
    let flipped_data = Chunk::new(ChunkType::from_string("RuSt").unwrap(), vec![9, 8, 6]);
    assert_ne!(base.crc(), flipped_data.crc());
    // One bit flipped in the type tag ('t' = 0x74, 'u' = 0x75).
    let flipped_type = Chunk::new(ChunkType::from_string("RuSu").unwrap(), vec![9, 8, 7]);
    assert_ne!(base.crc(), flipped_type.crc());
}

#[test]
fn test_chunk_data_as_string_invalid_encoding() {
    let chunk = Chunk::new(ChunkType::from_string("RuSt").unwrap(), vec![0xff, 0xfe]);
    assert_eq!(chunk.data_as_string().unwrap_err(), PngError::InvalidEncoding);
}
