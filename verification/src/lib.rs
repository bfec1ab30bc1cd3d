//! Chunk-level editing of PNG byte streams: parsing a stream into its
//! checksummed chunks, appending, finding and removing chunks by their
//! four-byte type tag, and serializing the sequence back byte-exactly.

pub mod chunk;
pub mod chunk_type;
pub mod commands;
pub mod crc32;
pub mod error;
pub mod png;
pub mod wire;
