//! The binary-diff patch container: its raw bytes, the checksum it
//! expects its pre-patch source to have, and the application of its delta
//! to matching source bytes.
//!
//! The last 12 bytes of a container form its footer; the 4 bytes that
//! begin the footer hold, little-endian, the CRC-32 of the expected
//! source. A shorter buffer is malformed and carries no checksum at all.

use vstd::prelude::*;
use vstd::bytes::spec_u32_from_le_bytes;
use vstd::bytes::u32_from_le_bytes;
use vstd::slice::slice_subrange;
use crate::checksum::{checksum, crc32_of};

verus! {

/// Everything that can go wrong inside this library's verified core.
#[derive(Clone, Copy, Debug, PartialEq, Eq, Structural)]
pub enum PatchError {
    /// The container is shorter than its 12-byte footer, so it holds no
    /// checksum field.
    MalformedContainer,
    /// The delta could not be decoded against the supplied source bytes.
    DecodeFailure,
}

/// A container holds a checksum field only when it can hold its footer.
pub open spec fn container_well_formed(c: Seq<u8>) -> bool {
    c.len() >= 12
}

/// The 4 bytes of the checksum field: offset `len - 12` through `len - 8`.
pub open spec fn checksum_field(c: Seq<u8>) -> Seq<u8>
    recommends
        container_well_formed(c),
{
    c.subrange(c.len() - 12, c.len() - 8)
}

/// The checksum a container expects its pre-patch source to have.
pub open spec fn expected_checksum_spec(c: Seq<u8>) -> u32
    recommends
        container_well_formed(c),
{
    spec_u32_from_le_bytes(checksum_field(c))
}

/// Whether source bytes are compatible with a container: their CRC-32
/// equals the container's expected checksum.
pub open spec fn verification_of(source: Seq<u8>, c: Seq<u8>) -> bool
    recommends
        container_well_formed(c),
{
    crc32_of(source) == expected_checksum_spec(c)
}

/// What decoding the container's delta against given source bytes
/// yields: the transformed output, or nothing when the delta's own
/// structural checks reject the pair. The result is a pure function of
/// the two byte sequences; the `flips` decoder computes it.
pub uninterp spec fn bps_apply(patch: Seq<u8>, source: Seq<u8>) -> Option<Seq<u8>>;

/// Relies on `flips::BpsPatch::apply`: decoding a BPS delta depends on
/// the patch bytes and the source bytes alone, and either yields the
/// output bytes or reports that the delta cannot be read against this
/// source.
#[verifier::external_body]
pub(crate) fn apply_delta(patch: &Vec<u8>, source: &Vec<u8>) -> (r: Result<Vec<u8>, PatchError>)
    ensures
        (match r {
            Ok(out) => bps_apply(patch@, source@) == Some(out@),
            Err(e) => e == PatchError::DecodeFailure && bps_apply(patch@, source@) is None,
        }),
{
    match flips::BpsPatch::new(patch.as_slice()).apply(source.as_slice()) {
        Ok(out) => Ok(out.to_bytes()),
        Err(_) => Err(PatchError::DecodeFailure),
    }
}

/// The checksum embedded in a container's footer, or
/// `MalformedContainer` for a buffer too short to hold one.
pub fn expected_checksum(container: &Vec<u8>) -> (r: Result<u32, PatchError>)
    ensures
        container_well_formed(container@)
            ==> r == Ok::<u32, PatchError>(expected_checksum_spec(container@)),
        !container_well_formed(container@)
            ==> r == Err::<u32, PatchError>(PatchError::MalformedContainer),
{
    let n = container.len();
    if n < 12 {
        return Err(PatchError::MalformedContainer);
    }
    let field = slice_subrange(container.as_slice(), n - 12, n - 8);
    let r: u32 = u32_from_le_bytes(field);
    Ok(r)
}

/// Whether `source` passes the container's integrity gate: its CRC-32
/// equals the embedded expected checksum. Pure: no state is read or
/// changed beyond the two buffers.
pub fn verify_source(source: &Vec<u8>, container: &Vec<u8>) -> (r: Result<bool, PatchError>)
    ensures
        container_well_formed(container@)
            ==> r == Ok::<bool, PatchError>(verification_of(source@, container@)),
        !container_well_formed(container@)
            ==> r == Err::<bool, PatchError>(PatchError::MalformedContainer),
{
    let expected = match expected_checksum(container) {
        Ok(v) => v,
        Err(e) => {
            return Err(e);
        },
    };
    let actual = checksum(source);
    Ok(actual == expected)
}

/// Verification is a pure predicate: identical inputs always yield the
/// identical verdict, in this call, the next one, and any other run.
pub proof fn lemma_verification_pure(s1: Seq<u8>, c1: Seq<u8>, s2: Seq<u8>, c2: Seq<u8>)
    requires
        s1 == s2,
        c1 == c2,
    ensures
        verification_of(s1, c1) == verification_of(s2, c2),
{
}

/// One binary-diff unit: immutable raw bytes plus what the footer says
/// about the source they transform.
pub struct PatchContainer {
    bytes: Vec<u8>,
}

impl View for PatchContainer {
    type V = Seq<u8>;

    closed spec fn view(&self) -> Seq<u8> {
        self.bytes@
    }
}

impl PatchContainer {
    /// Wrap raw container bytes; nothing is parsed until the checksum is
    /// asked for.
    pub fn new(bytes: Vec<u8>) -> (c: Self)
        ensures
            c@ == bytes@,
    {
        PatchContainer { bytes }
    }

    /// The container can hold its 12-byte footer.
    pub fn well_formed(&self) -> (r: bool)
        ensures
            r == container_well_formed(self@),
    {
        self.bytes.len() >= 12
    }

    /// The checksum this container expects its pre-patch source to have.
    pub fn expected_checksum(&self) -> (r: Result<u32, PatchError>)
        ensures
            container_well_formed(self@)
                ==> r == Ok::<u32, PatchError>(expected_checksum_spec(self@)),
            !container_well_formed(self@)
                ==> r == Err::<u32, PatchError>(PatchError::MalformedContainer),
    {
        expected_checksum(&self.bytes)
    }

    /// Whether `source` passes this container's integrity gate.
    pub fn verify_source(&self, source: &Vec<u8>) -> (r: Result<bool, PatchError>)
        ensures
            container_well_formed(self@)
                ==> r == Ok::<bool, PatchError>(verification_of(source@, self@)),
            !container_well_formed(self@)
                ==> r == Err::<bool, PatchError>(PatchError::MalformedContainer),
    {
        verify_source(source, &self.bytes)
    }

    /// Decode this container's delta against `source` and hand back the
    /// transformed bytes; `DecodeFailure` when the delta's internal
    /// checks reject the pair, which checksum equality alone does not
    /// rule out.
    pub fn apply(&self, source: &Vec<u8>) -> (r: Result<Vec<u8>, PatchError>)
        ensures
            r matches Ok(out) ==> bps_apply(self@, source@) == Some(out@),
            r is Err ==> r == Err::<Vec<u8>, PatchError>(PatchError::DecodeFailure)
                && bps_apply(self@, source@) is None,
    {
        apply_delta(&self.bytes, source)
    }
}

} // verus!
