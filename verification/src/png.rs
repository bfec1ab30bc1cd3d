use vstd::prelude::*;
use vstd::slice::slice_subrange;

use crate::chunk::{
    spec_parse_chunk, Chunk, ChunkView, lemma_chunk_round_trip,
};
use crate::chunk_type::ChunkType;
use crate::crc32::spec_crc32;
use crate::error::PngError;
use crate::wire::{
    push_bytes, spec_u32_from_be_bytes, spec_u32_to_be_bytes, u32_from_be_bytes,
    lemma_u32_to_from_be_bytes,
};

verus! {

/// The fixed eight-byte signature every PNG stream begins with.
pub open spec fn spec_signature() -> Seq<u8> {
    seq![0x89u8, 0x50u8, 0x4eu8, 0x47u8, 0x0du8, 0x0au8, 0x1au8, 0x0au8]
}

/// The views of a sequence of chunks, in order.
pub open spec fn seq_views(chunks: Seq<Chunk>) -> Seq<ChunkView> {
    chunks.map_values(|c: Chunk| c@)
}

/// A chunk with its CRC field set to the checksum of its tag and data.
pub open spec fn spec_with_crc(c: ChunkView) -> ChunkView {
    ChunkView {
        length: c.length,
        type_bytes: c.type_bytes,
        data: c.data,
        crc: spec_crc32(c.type_bytes + c.data),
    }
}

/// The wire forms of a chunk sequence, concatenated in order.
pub open spec fn spec_chunks_bytes(chunks: Seq<ChunkView>) -> Seq<u8>
    decreases chunks.len(),
{
    if chunks.len() == 0 {
        Seq::empty()
    } else {
        chunks[0].wire_bytes() + spec_chunks_bytes(chunks.drop_first())
    }
}

/// The wire form of a whole container: the signature, then every chunk.
pub open spec fn spec_png_bytes(chunks: Seq<ChunkView>) -> Seq<u8> {
    spec_signature() + spec_chunks_bytes(chunks)
}

/// The container walk over everything after the signature. Unlike the
/// single-chunk parse, the walk trusts each chunk's declared length field
/// to find the chunk's extent: it slices exactly 12 + declared bytes and
/// hands them to the single-chunk parse. Running out of bytes at any point
/// is `Truncated`; an exhausted input is an empty sequence.
pub open spec fn spec_parse_chunks(b: Seq<u8>) -> Result<Seq<ChunkView>, PngError>
    decreases b.len(),
{
    if b.len() == 0 {
        Ok(Seq::empty())
    } else if b.len() < 4 {
        Err(PngError::Truncated)
    } else {
        let frame = 12 + spec_u32_from_be_bytes(b.subrange(0, 4)) as int;
        if b.len() < frame {
            Err(PngError::Truncated)
        } else {
            match spec_parse_chunk(b.subrange(0, frame)) {
                Ok(c) => match spec_parse_chunks(b.skip(frame)) {
                    Ok(rest) => Ok(seq![c] + rest),
                    Err(e) => Err(e),
                },
                Err(e) => Err(e),
            }
        }
    }
}

/// Whole-container parse: `BadSignature` unless the first eight bytes are
/// the PNG signature, then the container walk over the rest.
pub open spec fn spec_parse_png(b: Seq<u8>) -> Result<Seq<ChunkView>, PngError> {
    if b.len() < 8 || b.subrange(0, 8) != spec_signature() {
        Err(PngError::BadSignature)
    } else {
        spec_parse_chunks(b.skip(8))
    }
}

/// The index of the first chunk whose tag equals `tag`, or the sequence
/// length if there is none.
pub open spec fn spec_find_chunk(chunks: Seq<ChunkView>, tag: Seq<u8>) -> int
    decreases chunks.len(),
{
    if chunks.len() == 0 {
        0
    } else if chunks[0].type_bytes == tag {
        0
    } else {
        1 + spec_find_chunk(chunks.drop_first(), tag)
    }
}

/// Whether some chunk in the sequence carries `tag`.
pub open spec fn spec_has_chunk(chunks: Seq<ChunkView>, tag: Seq<u8>) -> bool {
    spec_find_chunk(chunks, tag) < chunks.len()
}

/// `spec_find_chunk` is in range, lands on a matching chunk when one
/// exists, and nothing before it matches.
pub proof fn lemma_find_chunk_properties(chunks: Seq<ChunkView>, tag: Seq<u8>)
    ensures
        0 <= spec_find_chunk(chunks, tag) <= chunks.len(),
        spec_has_chunk(chunks, tag) ==> chunks[spec_find_chunk(chunks, tag)].type_bytes == tag,
        forall|j: int|
            0 <= j < spec_find_chunk(chunks, tag) ==> (#[trigger] chunks[j]).type_bytes != tag,
    decreases chunks.len(),
{
    if chunks.len() > 0 && chunks[0].type_bytes != tag {
        lemma_find_chunk_properties(chunks.drop_first(), tag);
        assert forall|j: int|
            0 <= j < spec_find_chunk(chunks, tag) implies (#[trigger] chunks[j]).type_bytes
            != tag by {
            if j > 0 {
                assert(chunks.drop_first()[j - 1] == chunks[j]);
            }
        }
    }
}

/// Appending to a sequence free of `tag` a chunk that carries `tag`: the
/// appended chunk is the first match, and removing it restores the old
/// sequence, in which the tag is still absent.
pub proof fn lemma_append_find_remove(chunks: Seq<ChunkView>, c: ChunkView)
    requires
        !spec_has_chunk(chunks, c.type_bytes),
    ensures
        spec_has_chunk(chunks.push(c), c.type_bytes),
        spec_find_chunk(chunks.push(c), c.type_bytes) == chunks.len(),
        chunks.push(c)[spec_find_chunk(chunks.push(c), c.type_bytes)] == c,
        chunks.push(c).remove(spec_find_chunk(chunks.push(c), c.type_bytes)) == chunks,
{
    lemma_find_chunk_push(chunks, c, c.type_bytes);
    assert(chunks.push(c)[chunks.len() as int] == c);
    assert(chunks.push(c).remove(chunks.len() as int) =~= chunks);
}

/// Pushing a chunk that carries `tag` onto a sequence free of `tag` puts
/// the first match at the old length.
proof fn lemma_find_chunk_push(chunks: Seq<ChunkView>, c: ChunkView, tag: Seq<u8>)
    requires
        !spec_has_chunk(chunks, tag),
        c.type_bytes == tag,
    ensures
        spec_find_chunk(chunks.push(c), tag) == chunks.len(),
    decreases chunks.len(),
{
    lemma_find_chunk_properties(chunks, tag);
    if chunks.len() == 0 {
        assert(chunks.push(c)[0] == c);
    } else {
        assert(chunks.push(c)[0] == chunks[0]);
        assert(chunks[0].type_bytes != tag);
        assert(chunks.push(c).drop_first() =~= chunks.drop_first().push(c));
        assert(spec_find_chunk(chunks, tag) == 1 + spec_find_chunk(chunks.drop_first(), tag));
        lemma_find_chunk_properties(chunks.drop_first(), tag);
        lemma_find_chunk_push(chunks.drop_first(), c, tag);
    }
}

/// Concatenating one more chunk's wire form on the right.
proof fn lemma_chunks_bytes_push(chunks: Seq<ChunkView>, c: ChunkView)
    ensures
        spec_chunks_bytes(chunks.push(c)) == spec_chunks_bytes(chunks) + c.wire_bytes(),
    decreases chunks.len(),
{
    if chunks.len() == 0 {
        assert(chunks.push(c)[0] == c);
        assert(chunks.push(c).drop_first() =~= Seq::<ChunkView>::empty());
        assert(spec_chunks_bytes(chunks.push(c)) == c.wire_bytes() + spec_chunks_bytes(
            Seq::<ChunkView>::empty(),
        ));
        assert(c.wire_bytes() + Seq::<u8>::empty() =~= c.wire_bytes());
        assert(spec_chunks_bytes(chunks) + c.wire_bytes() =~= c.wire_bytes());
    } else {
        assert(chunks.push(c)[0] == chunks[0]);
        assert(chunks.push(c).drop_first() =~= chunks.drop_first().push(c));
        lemma_chunks_bytes_push(chunks.drop_first(), c);
        assert(chunks[0].wire_bytes() + (spec_chunks_bytes(chunks.drop_first())
            + c.wire_bytes()) =~= (chunks[0].wire_bytes() + spec_chunks_bytes(
            chunks.drop_first(),
        )) + c.wire_bytes());
    }
}

/// An ordered sequence of chunks behind the fixed PNG signature. Parsing
/// validates the signature and every chunk; serializing emits the
/// signature and every chunk's wire form, in order.
#[derive(Debug)]
pub struct Png {
    chunks: Vec<Chunk>,
}

impl View for Png {
    type V = Seq<ChunkView>;

    closed spec fn view(&self) -> Seq<ChunkView> {
        seq_views(self.chunks@)
    }
}

impl Png {
    /// The fixed signature, `89 50 4E 47 0D 0A 1A 0A`.
    pub fn header() -> (r: [u8; 8])
        ensures
            r@ == spec_signature(),
    {
        let r: [u8; 8] = [0x89u8, 0x50u8, 0x4eu8, 0x47u8, 0x0du8, 0x0au8, 0x1au8, 0x0au8];
        proof {
            assert(r@ =~= spec_signature());
        }
        r
    }

    /// Wraps an explicit chunk sequence; the signature is implicit.
    pub fn from_chunks(chunks: Vec<Chunk>) -> (r: Png)
        ensures
            r@ == seq_views(chunks@),
    {
        Png { chunks }
    }

    /// Parses a complete byte buffer, exactly as `spec_parse_png` describes
    /// it: the signature is checked first, then the container walk parses
    /// chunk after chunk until the input is exhausted.
    pub fn parse(bytes: &[u8]) -> (r: Result<Png, PngError>)
        ensures
            match r {
                Ok(p) => spec_parse_png(bytes@) == Ok::<Seq<ChunkView>, PngError>(p@),
                Err(e) => spec_parse_png(bytes@) == Err::<Seq<ChunkView>, PngError>(e),
            },
    {
        let n = bytes.len();
        if n < 8 {
            return Err(PngError::BadSignature);
        }
        let header = Self::header();
        let mut h: usize = 0;
        while h < 8
            invariant
                h <= 8,
                n == bytes@.len(),
                8 <= n,
                header@ == spec_signature(),
                forall|j: int| 0 <= j < h ==> bytes@[j] == spec_signature()[j],
            decreases 8 - h,
        {
            if bytes[h] != header[h] {
                proof {
                    assert(bytes@.subrange(0, 8)[h as int] != spec_signature()[h as int]);
                }
                return Err(PngError::BadSignature);
            }
            h = h + 1;
        }
        proof {
            assert(bytes@.subrange(0, 8) =~= spec_signature());
        }
        let mut chunks: Vec<Chunk> = Vec::new();
        let mut idx: usize = 8;
        while idx < n
            invariant
                8 <= idx <= n,
                n == bytes@.len(),
                bytes@.subrange(0, 8) == spec_signature(),
                spec_parse_chunks(bytes@.skip(8)) == match spec_parse_chunks(
                    bytes@.skip(idx as int),
                ) {
                    Ok(rest) => Ok::<Seq<ChunkView>, PngError>(seq_views(chunks@) + rest),
                    Err(e) => Err::<Seq<ChunkView>, PngError>(e),
                },
            decreases n - idx,
        {
            let ghost tail = bytes@.skip(idx as int);
            let rem = n - idx;
            if rem < 4 {
                proof {
                    assert(0 < tail.len() < 4);
                    assert(spec_parse_chunks(tail) == Err::<Seq<ChunkView>, PngError>(
                        PngError::Truncated,
                    ));
                }
                return Err(PngError::Truncated);
            }
            proof {
                assert(tail.subrange(0, 4) =~= bytes@.subrange(idx as int, idx + 4));
            }
            let declared = u32_from_be_bytes(slice_subrange(bytes, idx, idx + 4));
            if rem < 12 || rem - 12 < declared as usize {
                proof {
                    assert(tail.len() < 12 + declared as int);
                    assert(spec_parse_chunks(tail) == Err::<Seq<ChunkView>, PngError>(
                        PngError::Truncated,
                    ));
                }
                return Err(PngError::Truncated);
            }
            let frame = 12 + declared as usize;
            proof {
                assert(tail.subrange(0, frame as int) =~= bytes@.subrange(
                    idx as int,
                    idx + frame,
                ));
            }
            match Chunk::parse(slice_subrange(bytes, idx, idx + frame)) {
                Ok(c) => {
                    proof {
                        assert(tail.skip(frame as int) =~= bytes@.skip(idx + frame));
                        assert(seq_views(chunks@.push(c)) =~= seq_views(chunks@).push(c@));
                        if let Ok(rest) = spec_parse_chunks(bytes@.skip(idx + frame)) {
                            assert(seq_views(chunks@).push(c@) + rest =~= seq_views(chunks@) + (
                            seq![c@] + rest));
                        }
                    }
                    chunks.push(c);
                    idx = idx + frame;
                },
                Err(e) => {
                    proof {
                        assert(spec_parse_chunk(tail.subrange(0, frame as int)) == Err::<
                            ChunkView,
                            PngError,
                        >(e));
                        assert(spec_parse_chunks(tail) == Err::<Seq<ChunkView>, PngError>(e));
                    }
                    return Err(e);
                },
            }
        }
        proof {
            assert(bytes@.skip(idx as int).len() == 0);
            assert(seq_views(chunks@) + Seq::<ChunkView>::empty() =~= seq_views(chunks@));
        }
        Ok(Png { chunks })
    }

    /// Adds a chunk at the end of the sequence; nothing else changes.
    pub fn append_chunk(&mut self, chunk: Chunk)
        ensures
            final(self)@ == old(self)@.push(chunk@),
    {
        proof {
            assert(seq_views(old(self).chunks@.push(chunk)) =~= seq_views(old(self).chunks@).push(
                chunk@,
            ));
        }
        self.chunks.push(chunk);
    }

    /// The index of the first chunk carrying `tag`, if any.
    fn index_of(&self, tag: &ChunkType) -> (r: Option<usize>)
        ensures
            match r {
                Some(i) => spec_has_chunk(self@, tag@) && i == spec_find_chunk(self@, tag@),
                None => !spec_has_chunk(self@, tag@),
            },
    {
        let mut i: usize = 0;
        while i < self.chunks.len()
            invariant
                i <= self.chunks@.len(),
                self@ == seq_views(self.chunks@),
                forall|j: int| 0 <= j < i ==> (#[trigger] self@[j]).type_bytes != tag@,
            decreases self.chunks@.len() - i,
        {
            if self.chunks[i].chunk_type().matches(tag) {
                proof {
                    lemma_find_chunk_properties(self@, tag@);
                    assert(self@[i as int].type_bytes == tag@);
                }
                return Some(i);
            }
            i = i + 1;
        }
        proof {
            lemma_find_chunk_properties(self@, tag@);
            if spec_has_chunk(self@, tag@) {
                assert(self@[spec_find_chunk(self@, tag@)].type_bytes == tag@);
            }
        }
        None
    }

    /// The first chunk carrying `tag`, or nothing; the container is not
    /// changed.
    pub fn chunk_by_type(&self, tag: &ChunkType) -> (r: Option<&Chunk>)
        ensures
            match r {
                Some(c) => spec_has_chunk(self@, tag@) && c@ == self@[spec_find_chunk(
                    self@,
                    tag@,
                )],
                None => !spec_has_chunk(self@, tag@),
            },
    {
        match self.index_of(tag) {
            Some(i) => Some(&self.chunks[i]),
            None => None,
        }
    }

    /// Removes and returns the first chunk carrying `tag`; `NotFound`, with
    /// the container unchanged, when no chunk carries it.
    pub fn remove_chunk(&mut self, tag: &ChunkType) -> (r: Result<Chunk, PngError>)
        ensures
            match r {
                Ok(c) => {
                    &&& spec_has_chunk(old(self)@, tag@)
                    &&& c@ == old(self)@[spec_find_chunk(old(self)@, tag@)]
                    &&& final(self)@ == old(self)@.remove(spec_find_chunk(old(self)@, tag@))
                },
                Err(e) => {
                    &&& e == PngError::NotFound
                    &&& !spec_has_chunk(old(self)@, tag@)
                    &&& final(self)@ == old(self)@
                },
            },
    {
        match self.index_of(tag) {
            Some(i) => {
                let c = self.chunks.remove(i);
                proof {
                    assert(seq_views(old(self).chunks@.remove(i as int)) =~= seq_views(
                        old(self).chunks@,
                    ).remove(i as int));
                }
                Ok(c)
            },
            None => Err(PngError::NotFound),
        }
    }

    /// A read-only view of the chunk sequence in its current order.
    pub fn chunks(&self) -> (r: &[Chunk])
        ensures
            seq_views(r@) == self@,
    {
        self.chunks.as_slice()
    }

    /// The wire form of the whole container: the signature, then every
    /// chunk's wire form in order.
    pub fn as_bytes(&self) -> (r: Vec<u8>)
        ensures
            r@ == spec_png_bytes(self@),
    {
        let mut out: Vec<u8> = Vec::new();
        let header = Self::header();
        push_bytes(&mut out, header.as_slice());
        proof {
            assert(out@ =~= spec_signature() + spec_chunks_bytes(seq_views(
                self.chunks@.take(0),
            )));
        }
        let mut i: usize = 0;
        while i < self.chunks.len()
            invariant
                i <= self.chunks@.len(),
                self@ == seq_views(self.chunks@),
                out@ == spec_signature() + spec_chunks_bytes(seq_views(
                    self.chunks@.take(i as int),
                )),
            decreases self.chunks@.len() - i,
        {
            let chunk_bytes = self.chunks[i].as_bytes();
            push_bytes(&mut out, chunk_bytes.as_slice());
            proof {
                let taken = seq_views(self.chunks@.take(i as int));
                assert(seq_views(self.chunks@.take(i + 1)) =~= taken.push(
                    self.chunks@[i as int]@,
                ));
                lemma_chunks_bytes_push(taken, self.chunks@[i as int]@);
                assert((spec_signature() + spec_chunks_bytes(taken)) + chunk_bytes@
                    =~= spec_signature() + (spec_chunks_bytes(taken) + chunk_bytes@));
            }
            i = i + 1;
        }
        proof {
            assert(self.chunks@.take(self.chunks@.len() as int) =~= self.chunks@);
        }
        out
    }
}

/// Round trip: serializing a chunk sequence, each chunk given the CRC of
/// its tag and data, and parsing the result back yields exactly that
/// sequence — provided every chunk's length field equals its data size,
/// which the container walk trusts to find chunk boundaries.
#[verifier::rlimit(100)]
pub proof fn lemma_png_round_trip(chunks: Seq<ChunkView>)
    requires
        forall|i: int| 0 <= i < chunks.len() ==> (#[trigger] chunks[i]).type_bytes.len() == 4,
        forall|i: int| 0 <= i < chunks.len() ==> (#[trigger] chunks[i]).length
            == chunks[i].data.len(),
    ensures
        ({
            let cs = chunks.map_values(|c: ChunkView| spec_with_crc(c));
            spec_parse_png(spec_png_bytes(cs)) == Ok::<Seq<ChunkView>, PngError>(cs)
        }),
{
    let cs = chunks.map_values(|c: ChunkView| spec_with_crc(c));
    assert forall|i: int| 0 <= i < cs.len() implies (#[trigger] cs[i]).wf() && cs[i].length
        == cs[i].data.len() by {
        assert(cs[i] == spec_with_crc(chunks[i]));
    }
    lemma_parse_chunks_of_bytes(cs);
    let b = spec_png_bytes(cs);
    assert(b.len() >= 8);
    assert(b.subrange(0, 8) =~= spec_signature());
    assert(b.skip(8) =~= spec_chunks_bytes(cs));
    assert(spec_parse_png(b) == spec_parse_chunks(spec_chunks_bytes(cs)));
}

/// The container walk inverts serialization for well-formed,
/// length-consistent chunk sequences.
#[verifier::rlimit(50)]
proof fn lemma_parse_chunks_of_bytes(chunks: Seq<ChunkView>)
    requires
        forall|i: int| 0 <= i < chunks.len() ==> (#[trigger] chunks[i]).wf(),
        forall|i: int| 0 <= i < chunks.len() ==> (#[trigger] chunks[i]).length
            == chunks[i].data.len(),
    ensures
        spec_parse_chunks(spec_chunks_bytes(chunks)) == Ok::<Seq<ChunkView>, PngError>(chunks),
    decreases chunks.len(),
{
    if chunks.len() == 0 {
        assert(spec_chunks_bytes(chunks).len() == 0);
        assert(chunks =~= Seq::<ChunkView>::empty());
        assert(spec_parse_chunks(spec_chunks_bytes(chunks)) == Ok::<Seq<ChunkView>, PngError>(
            chunks,
        ));
    } else {
        let c = chunks[0];
        let rest = chunks.drop_first();
        let b = spec_chunks_bytes(chunks);
        let frame = c.wire_bytes().len() as int;
        lemma_u32_to_from_be_bytes(c.length);
        assert(b == c.wire_bytes() + spec_chunks_bytes(rest));
        assert(c.wire_bytes().len() == 12 + c.data.len());
        assert(b.len() == frame + spec_chunks_bytes(rest).len());
        assert(b.subrange(0, 4) =~= spec_u32_to_be_bytes(c.length));
        assert(spec_u32_from_be_bytes(b.subrange(0, 4)) == c.length);
        assert(12 + spec_u32_from_be_bytes(b.subrange(0, 4)) as int == frame);
        assert(b.subrange(0, frame) =~= c.wire_bytes());
        lemma_chunk_round_trip(c.length, c.type_bytes, c.data);
        assert(ChunkView { length: c.length, type_bytes: c.type_bytes, data: c.data, crc: c.crc }
            == c);
        assert(spec_parse_chunk(b.subrange(0, frame)) == Ok::<ChunkView, PngError>(c));
        assert(b.skip(frame) =~= spec_chunks_bytes(rest));
        assert forall|i: int| 0 <= i < rest.len() implies (#[trigger] rest[i]).wf() && rest[i].length
            == rest[i].data.len() by {
            assert(rest[i] == chunks[i + 1]);
        }
        lemma_parse_chunks_of_bytes(rest);
        assert(spec_parse_chunks(b.skip(frame)) == Ok::<Seq<ChunkView>, PngError>(rest));
        assert(spec_parse_chunks(b) == Ok::<Seq<ChunkView>, PngError>(seq![c] + rest));
        assert(seq![c] + rest =~= chunks);
    }
}

} // verus!
