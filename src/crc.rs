//! The running CRC-32 of an entry's content, computed by `crc32fast`.
use vstd::prelude::*;

verus! {

#[verifier::external_type_specification]
#[verifier::external_body]
pub struct ExHasher(crc32fast::Hasher);

/// The bytes that have been fed to a hasher since it was created.
pub uninterp spec fn crc_input(h: crc32fast::Hasher) -> Seq<u8>;

/// The CRC-32 (IEEE) of a byte sequence.
pub uninterp spec fn crc32_of(bytes: Seq<u8>) -> u32;

/// Relies on `crc32fast::Hasher::new`: a fresh hasher has seen no bytes.
pub assume_specification[ crc32fast::Hasher::new ]() -> (r: crc32fast::Hasher)
    ensures
        crc_input(r) == Seq::<u8>::empty(),
;

/// Relies on `crc32fast::Hasher::update`: the slice is appended to what the
/// hasher has seen; its byte counter is a `u64` that must not overflow.
pub assume_specification[ crc32fast::Hasher::update ](h: &mut crc32fast::Hasher, buf: &[u8])
    requires
        crc_input(*old(h)).len() + buf@.len() <= u64::MAX,
    ensures
        crc_input(*final(h)) == crc_input(*old(h)) + buf@,
;

/// Relies on `crc32fast::Hasher::finalize`: the CRC-32 of everything the hasher
/// has seen, which is the initial state 0 when it has seen nothing.
pub assume_specification[ crc32fast::Hasher::finalize ](h: crc32fast::Hasher) -> (r: u32)
    ensures
        r == crc32_of(crc_input(h)),
        crc_input(h).len() == 0 ==> r == 0,
;

} // verus!
