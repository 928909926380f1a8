//! Content digests, the archive's deduplication key.
use vstd::prelude::*;
use sha2::Digest;

verus! {

/// Length in bytes of a content digest (SHA-512).
pub const DIGEST_LEN: usize = 64;

/// The SHA-512 digest of a byte sequence.
pub uninterp spec fn sha512_of(b: Seq<u8>) -> Seq<u8>;

/// Relies on `sha2::Sha512::digest`: the digest depends on the bytes alone
/// and is 64 bytes long.
#[verifier::external_body]
fn sha512(b: &[u8]) -> (r: Vec<u8>)
    ensures
        r@ == sha512_of(b@),
        r@.len() == DIGEST_LEN,
{
    sha2::Sha512::digest(b).to_vec()
}

/// The content digest of a file's bytes. It depends on nothing but the bytes:
/// not on the file's name, path or timestamps.
pub fn get_file_hash(content: &Vec<u8>) -> (r: Vec<u8>)
    ensures
        r@ == sha512_of(content@),
        r@.len() == DIGEST_LEN,
{
    sha512(content.as_slice())
}

/// Hashing the same content twice gives the same digest, and the digest has
/// a fixed length.
pub proof fn lemma_digest_deterministic(a: Seq<u8>, b: Seq<u8>)
    requires
        a == b,
    ensures
        sha512_of(a) == sha512_of(b),
{
}

} // verus!
