//! SHA-256 over data that arrives in pieces, and the checks made with a
//! digest: that a text is the one whose digest was kept, and that a file
//! read back is exactly the one that was imported.
use vstd::prelude::*;
use vstd::utf8::encode_utf8;
use sha2::Digest;
use crate::crypto::{constant_time_eq, sha256, sha256_digest};
use crate::error::{VaultError, invalid_input};

verus! {

/// A SHA-256 hasher of the `sha2` crate (`sha2::Sha256`). Verus refuses a
/// declaration of that type, which is an alias of a generic core wrapper,
/// so it is held here, out of Verus's sight.
#[verifier::external_body]
pub struct Sha256Hasher {
    inner: sha2::Sha256,
}

/// The bytes a hasher has taken in so far.
pub uninterp spec fn sha256_absorbed(hasher: Sha256Hasher) -> Seq<u8>;

/// `sha2::Sha256::new()`: a hasher that has taken in nothing.
#[verifier::external_body]
fn sha256_start() -> (result: Sha256Hasher)
    ensures
        sha256_absorbed(result) == Seq::<u8>::empty(),
{
    Sha256Hasher { inner: sha2::Sha256::new() }
}

/// `Digest::update`: the hasher takes in `data` after what it had.
#[verifier::external_body]
fn sha256_absorb(hasher: &mut Sha256Hasher, data: &[u8])
    ensures
        sha256_absorbed(*final(hasher)) == sha256_absorbed(*old(hasher)) + data@,
{
    hasher.inner.update(data)
}

/// `Digest::finalize`: the digest of everything the hasher took in, the
/// same as `Sha256::digest` of those bytes at once (which the crate
/// computes as a fresh hasher, one update and this finalization).
#[verifier::external_body]
fn sha256_finish(hasher: Sha256Hasher) -> (result: [u8; 32])
    ensures
        result@ == sha256(sha256_absorbed(hasher)),
{
    hasher.inner.finalize().into()
}

/// A SHA-256 digest computed over data fed in pieces.
pub struct DigestStream {
    hasher: Sha256Hasher,
}

impl DigestStream {
    /// The bytes fed so far, in order.
    pub closed spec fn absorbed(&self) -> Seq<u8> {
        sha256_absorbed(self.hasher)
    }

    /// Nothing fed yet.
    pub fn new() -> (result: Self)
        ensures
            result.absorbed() == Seq::<u8>::empty(),
    {
        DigestStream { hasher: sha256_start() }
    }

    /// Feeds the next piece.
    pub fn absorb(&mut self, chunk: &[u8])
        ensures
            final(self).absorbed() == old(self).absorbed() + chunk@,
    {
        sha256_absorb(&mut self.hasher, chunk);
    }

    /// The digest of all the pieces fed, in order.
    pub fn finish(self) -> (result: [u8; 32])
        ensures
            result@ == sha256(self.absorbed()),
    {
        sha256_finish(self.hasher)
    }
}

/// The SHA-256 digest of a text's UTF-8 bytes.
pub fn text_digest(text: &str) -> (result: [u8; 32])
    ensures
        result@ == sha256(encode_utf8(text@)),
{
    sha256_digest(text.as_bytes())
}

/// Whether `text` is the text whose digest was kept: its UTF-8 bytes hash
/// to `expected`, compared without early exit.
pub fn text_matches_digest(text: &str, expected: &[u8; 32]) -> (result: bool)
    ensures
        result == (sha256(encode_utf8(text@)) == expected@),
{
    let digest = text_digest(text);
    constant_time_eq(&digest, expected)
}

} // verus!
