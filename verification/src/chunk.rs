use vstd::prelude::*;
use vstd::slice::{slice_subrange, slice_to_vec};
use vstd::utf8::{decode_utf8, valid_utf8};

use crate::chunk_type::ChunkType;
use crate::crc32::{crc32_checksum, spec_crc32};
use crate::error::PngError;
use crate::wire::{
    push_bytes, spec_u32_from_be_bytes, spec_u32_to_be_bytes, u32_from_be_bytes, u32_to_be_bytes,
    lemma_u32_to_from_be_bytes,
};

verus! {

/// The smallest byte count a chunk frame can have: a 4-byte length field,
/// a 4-byte type tag, no data, and a 4-byte CRC.
pub const MIN_CHUNK_LENGTH: usize = 12;

/// The mathematical content of one chunk record: the stored length field,
/// the four tag bytes, the data bytes, and the stored CRC.
pub ghost struct ChunkView {
    pub length: u32,
    pub type_bytes: Seq<u8>,
    pub data: Seq<u8>,
    pub crc: u32,
}

impl ChunkView {
    /// The wire form: big-endian length field, tag, data, big-endian CRC.
    pub open spec fn wire_bytes(self) -> Seq<u8> {
        spec_u32_to_be_bytes(self.length) + self.type_bytes + self.data + spec_u32_to_be_bytes(
            self.crc,
        )
    }

    /// Well-formed: four tag bytes, and a CRC that covers tag ++ data.
    /// Both construction paths of `Chunk` establish this; the length field
    /// is deliberately unconstrained (a parsed chunk stores the length
    /// field it read, which the permissive single-chunk parse does not
    /// hold to the data size).
    pub open spec fn wf(self) -> bool {
        &&& self.type_bytes.len() == 4
        &&& self.crc == spec_crc32(self.type_bytes + self.data)
    }
}

/// The chunk a fresh construction from a tag and data bytes yields: the
/// length field is the data size truncated to 32 bits, and the CRC covers
/// tag ++ data.
pub open spec fn spec_chunk_of(tag: Seq<u8>, data: Seq<u8>) -> ChunkView {
    ChunkView {
        length: data.len() as u32,
        type_bytes: tag,
        data: data,
        crc: spec_crc32(tag + data),
    }
}

/// Single-chunk parse of a complete frame. The data boundary comes from the
/// slice length alone (everything between the 8-byte prefix and the 4-byte
/// CRC trailer); the embedded length field is stored but not trusted, so a
/// frame whose length field disagrees with its data size still parses.
pub open spec fn spec_parse_chunk(b: Seq<u8>) -> Result<ChunkView, PngError> {
    if b.len() < 12 {
        Err(PngError::Truncated)
    } else {
        let c = ChunkView {
            length: spec_u32_from_be_bytes(b.subrange(0, 4)),
            type_bytes: b.subrange(4, 8),
            data: b.subrange(8, b.len() - 4),
            crc: spec_u32_from_be_bytes(b.subrange(b.len() - 4, b.len() as int)),
        };
        let computed = spec_crc32(c.type_bytes + c.data);
        if c.crc != computed {
            Err(PngError::ChecksumMismatch { expected: computed, actual: c.crc })
        } else {
            Ok(c)
        }
    }
}

/// One PNG chunk record. The stored CRC always covers the tag bytes
/// followed by the data bytes, whichever construction path produced the
/// chunk; the stored length field is whatever that path supplied.
#[derive(Debug)]
pub struct Chunk {
    length: u32,
    chunk_type: ChunkType,
    data: Vec<u8>,
    crc: u32,
}

impl View for Chunk {
    type V = ChunkView;

    closed spec fn view(&self) -> ChunkView {
        ChunkView {
            length: self.length,
            type_bytes: self.chunk_type@,
            data: self.data@,
            crc: self.crc,
        }
    }
}

impl Chunk {
    #[verifier::type_invariant]
    spec fn type_inv(self) -> bool {
        self@.wf()
    }

    /// Builds a chunk from a tag and data bytes; never fails. The length
    /// field is set to the data size and the CRC is computed over
    /// tag ++ data.
    pub fn new(chunk_type: ChunkType, data: Vec<u8>) -> (r: Chunk)
        ensures
            r@ == spec_chunk_of(chunk_type@, data@),
            r@.wf(),
    {
        let length = #[verifier::truncate] (data.len() as u32);
        let tag = chunk_type.bytes();
        let mut combined: Vec<u8> = Vec::new();
        push_bytes(&mut combined, tag.as_slice());
        push_bytes(&mut combined, data.as_slice());
        let crc = crc32_checksum(combined.as_slice());
        proof {
            assert(combined@ =~= chunk_type@ + data@);
        }
        Chunk { length, chunk_type, data, crc }
    }

    /// Parses one complete chunk frame, exactly as `spec_parse_chunk`
    /// describes it: fewer than 12 bytes are `Truncated`, a stored CRC that
    /// disagrees with the one computed over tag ++ data is a
    /// `ChecksumMismatch`, and anything else succeeds.
    pub fn parse(bytes: &[u8]) -> (r: Result<Chunk, PngError>)
        ensures
            match r {
                Ok(c) => spec_parse_chunk(bytes@) == Ok::<ChunkView, PngError>(c@) && c@.wf(),
                Err(e) => spec_parse_chunk(bytes@) == Err::<ChunkView, PngError>(e),
            },
    {
        if bytes.len() < MIN_CHUNK_LENGTH {
            return Err(PngError::Truncated);
        }
        let length = u32_from_be_bytes(slice_subrange(bytes, 0, 4));
        let tag_slice = slice_subrange(bytes, 4, 8);
        let chunk_type = ChunkType::new([tag_slice[0], tag_slice[1], tag_slice[2], tag_slice[3]]);
        let data: Vec<u8> = slice_to_vec(slice_subrange(bytes, 8, bytes.len() - 4));
        let stored = u32_from_be_bytes(slice_subrange(bytes, bytes.len() - 4, bytes.len()));
        let mut combined: Vec<u8> = Vec::new();
        push_bytes(&mut combined, tag_slice);
        push_bytes(&mut combined, data.as_slice());
        let computed = crc32_checksum(combined.as_slice());
        proof {
            assert(chunk_type@ =~= bytes@.subrange(4, 8));
            assert(combined@ =~= bytes@.subrange(4, 8) + bytes@.subrange(8, bytes@.len() - 4));
        }
        if stored != computed {
            return Err(PngError::ChecksumMismatch { expected: computed, actual: stored });
        }
        let c = Chunk { length, chunk_type, data, crc: stored };
        proof {
            assert(spec_parse_chunk(bytes@) == Ok::<ChunkView, PngError>(c@));
        }
        Ok(c)
    }

    /// The stored length field.
    pub fn length(&self) -> (r: u32)
        ensures
            r == self@.length,
    {
        self.length
    }

    /// The chunk's type tag.
    pub fn chunk_type(&self) -> (r: &ChunkType)
        ensures
            r@ == self@.type_bytes,
    {
        &self.chunk_type
    }

    /// The raw data bytes.
    pub fn data(&self) -> (r: &[u8])
        ensures
            r@ == self@.data,
    {
        self.data.as_slice()
    }

    /// The stored CRC, which covers tag ++ data.
    pub fn crc(&self) -> (r: u32)
        ensures
            r == self@.crc,
    {
        self.crc
    }

    /// The data decoded as text; fails with `InvalidEncoding` exactly when
    /// the data is not valid UTF-8.
    pub fn data_as_string(&self) -> (r: Result<String, PngError>)
        ensures
            match r {
                Ok(s) => valid_utf8(self@.data) && s@ == decode_utf8(self@.data),
                Err(e) => e == PngError::InvalidEncoding && !valid_utf8(self@.data),
            },
    {
        match vec_to_utf8_string(&self.data) {
            Some(s) => Ok(s),
            None => Err(PngError::InvalidEncoding),
        }
    }

    /// The canonical wire form: big-endian length field, tag, data,
    /// big-endian CRC.
    pub fn as_bytes(&self) -> (r: Vec<u8>)
        ensures
            r@ == self@.wire_bytes(),
    {
        let mut out: Vec<u8> = Vec::new();
        let length_bytes = u32_to_be_bytes(self.length);
        push_bytes(&mut out, length_bytes.as_slice());
        let tag = self.chunk_type.bytes();
        push_bytes(&mut out, tag.as_slice());
        push_bytes(&mut out, self.data.as_slice());
        let crc_bytes = u32_to_be_bytes(self.crc);
        push_bytes(&mut out, crc_bytes.as_slice());
        proof {
            assert(out@ =~= self@.wire_bytes());
        }
        out
    }
}

/// Relies on `String::from_utf8`: it succeeds exactly on valid UTF-8 input
/// and decodes it; vstd's `valid_utf8` and `decode_utf8` model that
/// judgement.
#[verifier::external_body]
fn vec_to_utf8_string(bytes: &Vec<u8>) -> (r: Option<String>)
    ensures
        match r {
            Some(s) => valid_utf8(bytes@) && s@ == decode_utf8(bytes@),
            None => !valid_utf8(bytes@),
        },
{
    match String::from_utf8(bytes.clone()) {
        Ok(s) => Some(s),
        Err(_) => None,
    }
}

/// Round trip: the wire form of a chunk whose CRC covers tag ++ data parses
/// back to exactly that chunk, whatever its length field holds.
pub proof fn lemma_chunk_round_trip(length: u32, tag: Seq<u8>, data: Seq<u8>)
    requires
        tag.len() == 4,
    ensures
        ({
            let c = ChunkView { length, type_bytes: tag, data, crc: spec_crc32(tag + data) };
            spec_parse_chunk(c.wire_bytes()) == Ok::<ChunkView, PngError>(c)
        }),
{
    let c = ChunkView { length, type_bytes: tag, data, crc: spec_crc32(tag + data) };
    let w = c.wire_bytes();
    lemma_u32_to_from_be_bytes(length);
    lemma_u32_to_from_be_bytes(c.crc);
    assert(w.len() == 12 + data.len());
    assert(w.subrange(0, 4) =~= spec_u32_to_be_bytes(length));
    assert(w.subrange(4, 8) =~= tag);
    assert(w.subrange(8, w.len() - 4) =~= data);
    assert(w.subrange(w.len() - 4, w.len() as int) =~= spec_u32_to_be_bytes(c.crc));
}

/// A wire form whose trailing four bytes store anything but the CRC of
/// tag ++ data is rejected as a `ChecksumMismatch` that reports both values.
pub proof fn lemma_chunk_checksum_rejected(length: u32, tag: Seq<u8>, data: Seq<u8>, stored: u32)
    requires
        tag.len() == 4,
    ensures
        stored != spec_crc32(tag + data) ==> spec_parse_chunk(
            spec_u32_to_be_bytes(length) + tag + data + spec_u32_to_be_bytes(stored),
        ) == Err::<ChunkView, PngError>(
            PngError::ChecksumMismatch { expected: spec_crc32(tag + data), actual: stored },
        ),
{
    let w = spec_u32_to_be_bytes(length) + tag + data + spec_u32_to_be_bytes(stored);
    lemma_u32_to_from_be_bytes(length);
    lemma_u32_to_from_be_bytes(stored);
    assert(w.len() == 12 + data.len());
    assert(w.subrange(0, 4) =~= spec_u32_to_be_bytes(length));
    assert(w.subrange(4, 8) =~= tag);
    assert(w.subrange(8, w.len() - 4) =~= data);
    assert(w.subrange(w.len() - 4, w.len() as int) =~= spec_u32_to_be_bytes(stored));
}

} // verus!
