//! CRC-32 integrity checksums and the checksum field embedded in a
//! patch container's footer.

use vstd::prelude::*;

verus! {

/// The CRC-32 (ISO-HDLC variant) of a byte sequence, as the `crc` crate
/// computes it. The value is a pure function of the bytes alone.
pub uninterp spec fn crc32_of(data: Seq<u8>) -> u32;

/// Relies on `crc::Crc::<u32>::checksum` with the `CRC_32_ISO_HDLC`
/// algorithm: the checksum is a pure function of the input bytes.
#[verifier::external_body]
pub fn checksum(data: &[u8]) -> (r: u32)
    ensures
        r == crc32_of(data@),
{
    let algorithm = crc::Crc::<u32>::new(&crc::CRC_32_ISO_HDLC);
    algorithm.checksum(data)
}

/// The checksum is deterministic: equal byte sequences always map to the
/// same 32-bit value, in this run and in any other.
pub proof fn lemma_checksum_deterministic(a: Seq<u8>, b: Seq<u8>)
    requires
        a == b,
    ensures
        crc32_of(a) == crc32_of(b),
{
}

} // verus!
