use vstd::prelude::*;

verus! {

/// The closed set of failures this library can report.
///
/// Parse failures (`BadSignature`, `Truncated`, `ChecksumMismatch`) are
/// terminal for the call that raised them: no partial container or chunk is
/// ever returned alongside one.
#[derive(Debug, Clone, Copy, PartialEq, Eq, Structural)]
pub enum PngError {
    /// The first eight bytes of a container were not the PNG signature.
    BadSignature,
    /// Fewer bytes were available than a chunk frame demands.
    Truncated,
    /// The stored CRC of a chunk disagrees with the CRC computed over its
    /// type tag and data.
    ChecksumMismatch { expected: u32, actual: u32 },
    /// A chunk-type string was not exactly four ASCII-alphabetic bytes.
    InvalidFormat,
    /// Chunk data was not valid UTF-8 when text decoding was requested.
    InvalidEncoding,
    /// No chunk of the requested type exists in the container.
    NotFound,
}

} // verus!
