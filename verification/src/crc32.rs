use vstd::prelude::*;

verus! {

/// The CRC-32/ISO-HDLC checksum of a byte sequence: the PNG chunk checksum.
///
/// The value is left unspecified here; the `crc` crate computes it, and the
/// contracts of this library only track which bytes it covers.
pub uninterp spec fn spec_crc32(bytes: Seq<u8>) -> u32;

/// Relies on `crc::Crc::<u32>::checksum` with the `CRC_32_ISO_HDLC`
/// algorithm: the checksum depends on the input bytes alone.
#[verifier::external_body]
pub(crate) fn crc32_checksum(bytes: &[u8]) -> (r: u32)
    ensures
        r == spec_crc32(bytes@),
{
    crc::Crc::<u32>::new(&crc::CRC_32_ISO_HDLC).checksum(bytes)
}

} // verus!
