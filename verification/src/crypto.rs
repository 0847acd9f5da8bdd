//! The two cryptographic primitives that the library takes from outside:
//! the Keccak-256 hash and the recovery of a public key from a signature
//! on the curve secp256k1. Neither is proved here. Each is given a name in
//! specifications, so that what the library computes from them is stated
//! exactly.

use vstd::prelude::*;

verus! {

/// The Keccak-256 digest of `data`: 32 bytes.
pub uninterp spec fn keccak256_digest(data: Seq<u8>) -> Seq<u8>;

/// The uncompressed public key, 64 bytes without the leading tag, that
/// signed `digest` with the signature (`r`, `s`) and the given recovery
/// bit; `None` where there is no such key.
pub uninterp spec fn ecdsa_recover(r: Seq<u8>, s: Seq<u8>, recovery_bit: u8, digest: Seq<u8>) -> Option<
    Seq<u8>,
>;

/// What the outside library says of a signature from which it recovers no
/// key.
pub open spec fn spec_invalid_signature_text() -> Seq<char> {
    "invalid EC signature"@
}

/// Calls `keccak_hash::keccak`: the result is the Keccak-256 digest of
/// `data`, a function of the bytes alone.
#[verifier::external_body]
pub(crate) fn keccak256(data: &[u8]) -> (digest: [u8; 32])
    ensures
        digest@ == keccak256_digest(data@),
{
    keccak_hash::keccak(data).0
}

/// Calls `parity_crypto::publickey::recover` on the signature made of `r`,
/// `s` and the recovery bit by `Signature::from_rsv`. The outcome is a
/// function of the four arguments alone: the 64 bytes of the public key,
/// or, where the library finds none, its error as text. With a digest of
/// 32 bytes every failure inside is turned into the library's
/// `Error::InvalidSignature`, whose `Display` is the text stated here.
#[verifier::external_body]
pub(crate) fn recover_public(r: &[u8; 32], s: &[u8; 32], recovery_bit: u8, digest: &[u8; 32]) -> (res:
    Result<[u8; 64], String>)
    ensures
        match res {
            Ok(public) => ecdsa_recover(r@, s@, recovery_bit, digest@) == Some(public@),
            Err(text) => ecdsa_recover(r@, s@, recovery_bit, digest@) is None && text@
                == spec_invalid_signature_text(),
        },
{
    let signature = parity_crypto::publickey::Signature::from_rsv(
        &ethereum_types::H256(*r),
        &ethereum_types::H256(*s),
        recovery_bit,
    );
    match parity_crypto::publickey::recover(&signature, &ethereum_types::H256(*digest)) {
        Ok(public) => Ok(public.0),
        Err(e) => Err(format!("{}", e)),
    }
}

} // verus!
