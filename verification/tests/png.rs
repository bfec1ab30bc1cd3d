use pngme::chunk::Chunk;
use pngme::chunk_type::ChunkType;
use pngme::error::PngError;
use pngme::png::Png;

const SIGNATURE: [u8; 8] = [0x89, 0x50, 0x4e, 0x47, 0x0d, 0x0a, 0x1a, 0x0a];

fn chunk_of(tag: &str, data: &[u8]) -> Chunk {
    Chunk::new(ChunkType::from_string(tag).unwrap(), data.to_vec())
}

#[test]
fn test_png_header() {
    assert_eq!(Png::header(), SIGNATURE);
}

#[test]
fn test_png_parse_empty() {
    let png = Png::parse(&SIGNATURE).unwrap();
    assert_eq!(png.chunks().len(), 0);
    assert_eq!(png.as_bytes(), SIGNATURE.to_vec());
}

#[test]
fn test_png_parse_bad_signature() {
    let mut bytes = SIGNATURE.to_vec();
    bytes[0] = 0x88;
    assert_eq!(Png::parse(&bytes).unwrap_err(), PngError::BadSignature);
    // Fewer than eight bytes cannot hold the signature.
    assert_eq!(Png::parse(&SIGNATURE[..7]).unwrap_err(), PngError::BadSignature);
}

#[test]
fn test_png_parse_truncated_chunk() {
    let mut bytes = SIGNATURE.to_vec();
    // A declared length of 5 with no data or CRC behind it.
    bytes.extend_from_slice(&[0, 0, 0, 5]);
    assert_eq!(Png::parse(&bytes).unwrap_err(), PngError::Truncated);
}

#[test]
fn test_png_parse_checksum_mismatch() {
    let chunk = chunk_of("RuSt", b"hello");
    let mut bytes = SIGNATURE.to_vec();
    let mut frame = chunk.as_bytes();
    let last = frame.len() - 1;
    frame[last] ^= 1;
    bytes.extend_from_slice(&frame);
    assert!(matches!(
        Png::parse(&bytes).unwrap_err(),
        PngError::ChecksumMismatch { .. }
    ));
}

#[test]
fn test_png_round_trip() {
    let chunks = vec![
        chunk_of("FrSt", b"I am the first chunk"),
        chunk_of("miDl", b"I am another chunk"),
        chunk_of("LASt", b"I am the last chunk"),
    ];
    let png = Png::from_chunks(chunks);
    let bytes = png.as_bytes();
    let reparsed = Png::parse(&bytes).unwrap();
    assert_eq!(reparsed.chunks().len(), 3);
    assert_eq!(reparsed.as_bytes(), bytes);
    for (a, b) in png.chunks().iter().zip(reparsed.chunks().iter()) {
        assert_eq!(a.as_bytes(), b.as_bytes());
    }
}

#[test]
fn test_png_append_find_remove() {
    let mut png = Png::from_chunks(vec![chunk_of("FrSt", b"I am the first chunk")]);
    let tag = ChunkType::from_string("RuSt").unwrap();
    png.append_chunk(chunk_of("RuSt", b"Message"));

    let found = png.chunk_by_type(&tag).unwrap();
    assert_eq!(found.data(), b"Message");

    let removed = png.remove_chunk(&tag).unwrap();
    assert_eq!(removed.data(), b"Message");
    assert!(png.chunk_by_type(&tag).is_none());
    assert_eq!(png.remove_chunk(&tag).unwrap_err(), PngError::NotFound);
    assert_eq!(png.chunks().len(), 1);
}

#[test]
fn test_png_remove_first_of_equal_tags() {
    let mut png = Png::from_chunks(vec![
        chunk_of("RuSt", b"first"),
        chunk_of("RuSt", b"second"),
    ]);
    let tag = ChunkType::from_string("RuSt").unwrap();
    let removed = png.remove_chunk(&tag).unwrap();
    assert_eq!(removed.data(), b"first");
    let still_there = png.chunk_by_type(&tag).unwrap();
    assert_eq!(still_there.data(), b"second");
}

#[test]
fn test_single_chunk_parse_permissive_container_walk_strict() {
    // A frame whose declared length (41) disagrees with its data size (42).
    // The single-chunk parse takes the data boundary from the slice length
    // and accepts it; the container walk trusts the declared length to find
    // the chunk's extent and rejects the stream.
    let message = "This is where your secret message will be!".as_bytes();
    let frame: Vec<u8> = 41u32
        .to_be_bytes()
        .iter()
        .chain("RuSt".as_bytes().iter())
        .chain(message.iter())
        .chain(2882656334u32.to_be_bytes().iter())
        .copied()
        .collect();

    let chunk = Chunk::parse(&frame).unwrap();
    assert_eq!(chunk.length(), 41);
    assert_eq!(chunk.data().len(), 42);

    let mut bytes = SIGNATURE.to_vec();
    bytes.extend_from_slice(&frame);
    assert!(Png::parse(&bytes).is_err());
}

#[test]
fn test_png_from_chunks_keeps_order() {
    let png = Png::from_chunks(vec![
        chunk_of("OnEa", b"1"),
        chunk_of("TwOb", b"2"),
        chunk_of("ThRc", b"3"),
    ]);
    let tags: Vec<String> = png.chunks().iter().map(|c| c.chunk_type().to_string()).collect();
    assert_eq!(tags, vec!["OnEa", "TwOb", "ThRc"]);
}
