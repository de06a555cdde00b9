//! Cryptographic operations used by the message framing
use vstd::prelude::*;

verus! {

/// The SHA-256 digest of `data`.
pub uninterp spec fn sha256_of(data: Seq<u8>) -> Seq<u8>;

/// Relies on sha2's `Sha256::digest`: the 32-byte SHA-256 digest of `data`,
/// a function of the input bytes alone.
#[verifier::external_body]
fn sha256(data: &[u8]) -> (r: Vec<u8>)
    ensures
        r@ == sha256_of(data@),
        r@.len() == 32,
{
    <sha2::Sha256 as sha2::Digest>::digest(data).to_vec()
}

/// The message checksum of `payload`: the first four bytes of its double SHA-256.
pub open spec fn checksum_of(payload: Seq<u8>) -> Seq<u8> {
    Seq::new(4, |i: int| sha256_of(sha256_of(payload))[i])
}

/// The checksum is a function of the payload bytes alone, and is exactly four bytes.
pub proof fn lemma_checksum_deterministic(a: Seq<u8>, b: Seq<u8>)
    requires
        a == b,
    ensures
        checksum_of(a) == checksum_of(b),
        checksum_of(a).len() == 4,
{
}

/// Computes the checksum (of the payload `payload`) that is carried in a message's header.
///
/// The result is exactly four bytes and depends on the payload bytes alone.
pub fn checksum(payload: &[u8]) -> (r: [u8; 4])
    ensures
        r@ == checksum_of(payload@),
        r@.len() == 4,
{
    let first = sha256(payload);
    let hash = sha256(first.as_slice());
    let r: [u8; 4] = [hash[0], hash[1], hash[2], hash[3]];
    assert(r@ =~= checksum_of(payload@));
    r
}

} // verus!
