//! Names of events and exposed values, and their SHA-256 name hashes.

use vstd::prelude::*;
use vstd::string::StringSliceAdditionalSpecFns;

verus! {

/// The SHA-256 digest of a byte string, as computed by `sha2_const`.
pub uninterp spec fn sha256_digest(data: Seq<u8>) -> Seq<u8>;

/// Calls `sha2_const::Sha256::new().update(data).finalize()`.
/// Trusted: the result is `sha256_digest` of the input bytes. The crate
/// adds the input's bit length to a `u64`, which overflows (and panics in
/// debug builds) from 2^61 bytes on, so longer inputs are excluded.
#[verifier::external_body]
fn sha256(data: &[u8]) -> (digest: [u8; 32])
    requires
        data@.len() < 0x2000_0000_0000_0000,
    ensures
        digest@ == sha256_digest(data@),
{
    sha2_const::Sha256::new().update(data).finalize()
}

/// The hash under which an event or an exposed value with this name is
/// registered: the SHA-256 digest of the name's UTF-8 bytes.
pub fn name_hash(name: &str) -> (hash: [u8; 32])
    requires
        name.spec_bytes().len() < 0x2000_0000_0000_0000,
    ensures
        hash@ == sha256_digest(name.spec_bytes()),
{
    sha256(name.as_bytes())
}

} // verus!
