//! The checksum that guards a chunk.
use vstd::prelude::*;

verus! {

/// The CRC-32 checksum (IEEE 802.3) of `bytes`, as `crc32fast::hash` computes
/// it. The checksum is not defined here: it is named, so that contracts can
/// say of which bytes a checksum was taken.
pub uninterp spec fn crc32(bytes: Seq<u8>) -> u32;

/// Calls `crc32fast::hash`. Trusted: the checksum it returns is determined by
/// the bytes alone, whichever of its implementations the crate picks for the
/// processor at hand.
#[verifier::external_body]
pub(crate) fn crc32_of(bytes: &[u8]) -> (sum: u32)
    ensures
        sum == crc32(bytes@),
{
    crc32fast::hash(bytes)
}

} // verus!
