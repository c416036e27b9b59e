//! The hash function that keys content-addressed and confidential storage.

use vstd::prelude::*;

verus! {

/// Length of a digest in bytes.
pub const DIGEST_SIZE: usize = 32;

/// The Blake3 digest of the input, as `blake3::hash` computes it.
pub uninterp spec fn blake3_digest(input: Seq<u8>) -> Seq<u8>;

/// Calls `blake3::hash` and copies the 32 bytes out of the `Hash` that it
/// returns.
#[verifier::external_body]
fn blake3_hash(input: &[u8]) -> (digest: [u8; 32])
    ensures
        digest@ == blake3_digest(input@),
{
    *blake3::hash(input).as_bytes()
}

/// The digest of the data.
pub fn digest_bytes(data: &[u8]) -> (digest: [u8; 32])
    ensures
        digest@ == blake3_digest(data@),
        digest@.len() == DIGEST_SIZE,
{
    blake3_hash(data)
}

/// The first `n` bytes of a digest.
pub fn truncated(digest: &[u8; 32], n: usize) -> (head: Vec<u8>)
    requires
        n <= DIGEST_SIZE,
    ensures
        head@ == digest@.subrange(0, n as int),
{
    let mut head: Vec<u8> = Vec::new();
    let mut i: usize = 0;
    while i < n
        invariant
            i <= n <= 32,
            head@ == digest@.subrange(0, i as int),
        decreases n - i,
    {
        head.push(digest[i]);
        assert(head@ =~= digest@.subrange(0, i + 1));
        i += 1;
    }
    head
}

} // verus!
