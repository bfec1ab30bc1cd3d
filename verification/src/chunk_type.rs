use vstd::prelude::*;
use vstd::string::StringSliceAdditionalSpecFns;
use vstd::utf8::{decode_utf8, valid_utf8};

use crate::error::PngError;

verus! {

/// Whether a byte is an ASCII letter, `A`-`Z` (65-90) or `a`-`z` (97-122).
pub open spec fn spec_is_ascii_alphabetic(b: u8) -> bool {
    (65 <= b && b <= 90) || (97 <= b && b <= 122)
}

/// What `String::from_utf8_lossy` decodes a byte sequence to. The value is
/// left unspecified; it depends on the bytes alone, and on valid UTF-8 it
/// agrees with `decode_utf8` (see `ChunkType::to_string`).
pub uninterp spec fn spec_lossy_decode(bytes: Seq<u8>) -> Seq<char>;

/// A four-byte PNG chunk type tag. Construction from raw bytes never fails:
/// validity is a queryable property, not a precondition. The case bit
/// (bit 5) of each byte encodes one flag of the tag.
#[derive(Debug, Clone, Copy, PartialEq, Eq)]
pub struct ChunkType {
    data: [u8; 4],
}

impl View for ChunkType {
    type V = Seq<u8>;

    closed spec fn view(&self) -> Seq<u8> {
        self.data@
    }
}

/// Relates the tested bit to the mask form the flag specs use.
proof fn lemma_bit5_mask(x: u8)
    ensures
        ((x >> 5) & 1 == 1) <==> (x & 0x20 != 0),
{
    assert((((x >> 5) & 1 == 1) <==> (x & 0x20 != 0))) by (bit_vector);
}

impl ChunkType {
    /// Wraps four raw tag bytes, stored as given.
    pub fn new(data: [u8; 4]) -> (r: ChunkType)
        ensures
            r@ == data@,
    {
        ChunkType { data }
    }

    /// The stored tag bytes.
    pub fn bytes(&self) -> (r: [u8; 4])
        ensures
            r@ == self@,
    {
        self.data
    }

    /// A tag is valid when all four bytes are ASCII letters and the
    /// reserved bit (bit 5 of the third byte) is clear.
    pub open spec fn spec_is_valid(self) -> bool {
        spec_is_ascii_alphabetic(self@[0]) && spec_is_ascii_alphabetic(self@[1])
            && spec_is_ascii_alphabetic(self@[2]) && spec_is_ascii_alphabetic(self@[3])
            && self@[2] & 0x20 == 0
    }

    /// Bit 5 of the first byte clear: the chunk is critical.
    pub open spec fn spec_is_critical(self) -> bool {
        self@[0] & 0x20 == 0
    }

    /// Bit 5 of the second byte clear: the chunk is public.
    pub open spec fn spec_is_public(self) -> bool {
        self@[1] & 0x20 == 0
    }

    /// Bit 5 of the third byte clear: the reserved bit is in its valid state.
    pub open spec fn spec_is_reserved_bit_valid(self) -> bool {
        self@[2] & 0x20 == 0
    }

    /// Bit 5 of the fourth byte set: the chunk is safe to copy.
    pub open spec fn spec_is_safe_to_copy(self) -> bool {
        self@[3] & 0x20 != 0
    }

    pub fn is_valid(&self) -> (r: bool)
        ensures
            r == self.spec_is_valid(),
    {
        is_ascii_alphabetic(self.data[0]) && is_ascii_alphabetic(self.data[1])
            && is_ascii_alphabetic(self.data[2]) && is_ascii_alphabetic(self.data[3])
            && self.is_reserved_bit_valid()
    }

    pub fn is_critical(&self) -> (r: bool)
        ensures
            r == self.spec_is_critical(),
    {
        proof {
            lemma_bit5_mask(self@[0]);
        }
        Self::get_bit_at(self.data[0], 5) == false
    }

    pub fn is_public(&self) -> (r: bool)
        ensures
            r == self.spec_is_public(),
    {
        proof {
            lemma_bit5_mask(self@[1]);
        }
        Self::get_bit_at(self.data[1], 5) == false
    }

    pub fn is_reserved_bit_valid(&self) -> (r: bool)
        ensures
            r == self.spec_is_reserved_bit_valid(),
    {
        proof {
            lemma_bit5_mask(self@[2]);
        }
        Self::get_bit_at(self.data[2], 5) == false
    }

    pub fn is_safe_to_copy(&self) -> (r: bool)
        ensures
            r == self.spec_is_safe_to_copy(),
    {
        proof {
            lemma_bit5_mask(self@[3]);
        }
        Self::get_bit_at(self.data[3], 5) == true
    }

    /// Whether bit `n` of `byte`, counted from the least significant end,
    /// is set. Only bit 5 is ever queried through the public surface.
    fn get_bit_at(byte: u8, n: u8) -> (r: bool)
        requires
            n < 8,
        ensures
            r == ((byte >> n) & 1 == 1),
    {
        proof {
            assert(n < 8 ==> ((byte & (1u8 << n) != 0) <==> ((byte >> n) & 1 == 1)))
                by (bit_vector);
        }
        byte & (1u8 << n) != 0
    }

    /// Whether two tags hold the same four bytes.
    pub fn matches(&self, other: &ChunkType) -> (r: bool)
        ensures
            r == (self@ == other@),
    {
        let r = self.data[0] == other.data[0] && self.data[1] == other.data[1] && self.data[2]
            == other.data[2] && self.data[3] == other.data[3];
        proof {
            if r {
                assert(self@ =~= other@);
            }
        }
        r
    }

    /// Builds a tag from a string, which must hold exactly four
    /// ASCII-alphabetic bytes; anything else is an `InvalidFormat` error.
    pub fn from_string(s: &str) -> (r: Result<ChunkType, PngError>)
        ensures
            match r {
                Ok(ct) => {
                    &&& s.spec_bytes().len() == 4
                    &&& ct@ == s.spec_bytes()
                    &&& spec_is_ascii_alphabetic(ct@[0])
                    &&& spec_is_ascii_alphabetic(ct@[1])
                    &&& spec_is_ascii_alphabetic(ct@[2])
                    &&& spec_is_ascii_alphabetic(ct@[3])
                },
                Err(e) => {
                    &&& e == PngError::InvalidFormat
                    &&& !(s.spec_bytes().len() == 4 && (forall|i: int|
                        0 <= i < 4 ==> spec_is_ascii_alphabetic(s.spec_bytes()[i])))
                },
            },
    {
        let bytes = s.as_bytes();
        if bytes.len() != 4 {
            return Err(PngError::InvalidFormat);
        }
        let data: [u8; 4] = [bytes[0], bytes[1], bytes[2], bytes[3]];
        if is_ascii_alphabetic(data[0]) && is_ascii_alphabetic(data[1]) && is_ascii_alphabetic(
            data[2],
        ) && is_ascii_alphabetic(data[3]) {
            let ct = ChunkType { data };
            proof {
                assert(ct@ =~= s.spec_bytes());
            }
            Ok(ct)
        } else {
            Err(PngError::InvalidFormat)
        }
    }

    /// The tag decoded as text, invalid sequences replaced with the
    /// substitution character; never fails.
    ///
    /// Relies on `String::from_utf8_lossy`: the result depends on the bytes
    /// alone, and valid UTF-8 is decoded without replacement.
    #[verifier::external_body]
    pub fn to_string(&self) -> (r: String)
        ensures
            r@ == spec_lossy_decode(self@),
            valid_utf8(self@) ==> r@ == decode_utf8(self@),
    {
        String::from_utf8_lossy(&self.data).into_owned()
    }
}

/// Whether a byte is an ASCII letter.
fn is_ascii_alphabetic(b: u8) -> (r: bool)
    ensures
        r == spec_is_ascii_alphabetic(b),
{
    (65 <= b && b <= 90) || (97 <= b && b <= 122)
}

} // verus!
