//! The CRC-32 that guards every chunk.

use vstd::prelude::*;

verus! {

/// The CRC-32/ISO-HDLC check value of `bytes`: polynomial `0x04c11db7`,
/// initial value and final xor `0xffffffff`, input and output reflected.
/// This is the checksum that PNG prescribes.
pub uninterp spec fn crc32(bytes: Seq<u8>) -> u32;

/// Calls `crc::Crc::<u32>::checksum` on an engine built from
/// `crc::CRC_32_ISO_HDLC`.
///
/// Trusted: the result is a function of the bytes alone, named [`crc32`].
/// The engine reads its input front to back through a lookup table and
/// indexes nothing out of bounds, so it returns for every slice.
#[verifier::external_body]
fn crc32_iso_hdlc(bytes: &[u8]) -> (sum: u32)
    ensures
        sum == crc32(bytes@),
{
    crc::Crc::<u32>::new(&crc::CRC_32_ISO_HDLC).checksum(bytes)
}

/// The checksum of `bytes`.
pub fn checksum(bytes: &[u8]) -> (sum: u32)
    ensures
        sum == crc32(bytes@),
{
    crc32_iso_hdlc(bytes)
}

} // verus!
