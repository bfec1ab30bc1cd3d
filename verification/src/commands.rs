use vstd::prelude::*;
use vstd::utf8::{decode_utf8, valid_utf8};

use crate::chunk::{spec_chunk_of, Chunk, ChunkView};
use crate::chunk_type::ChunkType;
use crate::error::PngError;
use crate::png::{
    spec_find_chunk, spec_has_chunk, spec_parse_png, spec_png_bytes, Png,
};

verus! {

/// Parses a container, appends a chunk built from the tag and the message
/// bytes, and serializes the result; parse failures pass through.
pub fn encode(contents: &[u8], chunk_type: ChunkType, message: Vec<u8>) -> (r: Result<
    Vec<u8>,
    PngError,
>)
    ensures
        match r {
            Ok(out) => spec_parse_png(contents@) matches Ok(chunks) && out@ == spec_png_bytes(
                chunks.push(spec_chunk_of(chunk_type@, message@)),
            ),
            Err(e) => spec_parse_png(contents@) == Err::<Seq<ChunkView>, PngError>(e),
        },
{
    match Png::parse(contents) {
        Ok(mut png) => {
            png.append_chunk(Chunk::new(chunk_type, message));
            Ok(png.as_bytes())
        },
        Err(e) => Err(e),
    }
}

/// Parses a container and decodes the data of the first chunk carrying the
/// tag as text: `NotFound` when no chunk carries it, `InvalidEncoding` when
/// its data is not valid UTF-8, and parse failures pass through.
pub fn decode(contents: &[u8], chunk_type: &ChunkType) -> (r: Result<String, PngError>)
    ensures
        match r {
            Ok(s) => spec_parse_png(contents@) matches Ok(chunks) && spec_has_chunk(
                chunks,
                chunk_type@,
            ) && {
                let data = chunks[spec_find_chunk(chunks, chunk_type@)].data;
                valid_utf8(data) && s@ == decode_utf8(data)
            },
            Err(e) => match spec_parse_png(contents@) {
                Ok(chunks) => {
                    if !spec_has_chunk(chunks, chunk_type@) {
                        e == PngError::NotFound
                    } else {
                        e == PngError::InvalidEncoding && !valid_utf8(
                            chunks[spec_find_chunk(chunks, chunk_type@)].data,
                        )
                    }
                },
                Err(pe) => e == pe,
            },
        },
{
    match Png::parse(contents) {
        Ok(png) => match png.chunk_by_type(chunk_type) {
            Some(chunk) => chunk.data_as_string(),
            None => Err(PngError::NotFound),
        },
        Err(e) => Err(e),
    }
}

/// Parses a container, removes the first chunk carrying the tag, and
/// serializes the rest: `NotFound` when no chunk carries it, and parse
/// failures pass through.
pub fn remove(contents: &[u8], chunk_type: &ChunkType) -> (r: Result<Vec<u8>, PngError>)
    ensures
        match r {
            Ok(out) => spec_parse_png(contents@) matches Ok(chunks) && spec_has_chunk(
                chunks,
                chunk_type@,
            ) && out@ == spec_png_bytes(chunks.remove(spec_find_chunk(chunks, chunk_type@))),
            Err(e) => match spec_parse_png(contents@) {
                Ok(chunks) => e == PngError::NotFound && !spec_has_chunk(chunks, chunk_type@),
                Err(pe) => e == pe,
            },
        },
{
    match Png::parse(contents) {
        Ok(mut png) => match png.remove_chunk(chunk_type) {
            Ok(_) => Ok(png.as_bytes()),
            Err(e) => Err(e),
        },
        Err(e) => Err(e),
    }
}

} // verus!
