//! Content addressing: the key of an object is the URL-safe, unpadded
//! base64 text of the SHA-256 digest of its bytes.
//!
//! The digest is the `sha2` crate's. It is computed incrementally, so that
//! an upload of any size can be hashed while it is written out, chunk by
//! chunk.

use crate::encoding::{base64_url_unpadded, encode_url_unpadded, is_url_safe};
use sha2::Digest;
use vstd::prelude::*;

verus! {

/// `sha2::Sha256`, a running hash. Nothing is seen inside it.
#[verifier::external_type_specification]
#[verifier::external_body]
pub struct ExSha256(sha2::Sha256);

/// Number of bytes of a SHA-256 digest.
pub const DIGEST_LEN: usize = 32;

/// Number of characters of an object key.
pub const KEY_LEN: usize = 43;

/// The SHA-256 digest of `message`.
pub uninterp spec fn sha256(message: Seq<u8>) -> Seq<u8>;

/// The bytes that a hasher has been fed since it was made, in order.
pub uninterp spec fn absorbed(hasher: sha2::Sha256) -> Seq<u8>;

/// The key under which `content` is stored.
pub open spec fn spec_content_key(content: Seq<u8>) -> Seq<char> {
    base64_url_unpadded(sha256(content))
}

/// `sha2::Sha256::new`, of the `Digest` trait.
///
/// Trusted: a new hasher has been fed nothing.
#[verifier::external_body]
fn hasher_new() -> (hasher: sha2::Sha256)
    ensures
        absorbed(hasher) == Seq::<u8>::empty(),
{
    sha2::Sha256::new()
}

/// `sha2::Sha256::update`, of the `Digest` trait.
///
/// Trusted: the hasher has then been fed `data` after all it was fed
/// before.
#[verifier::external_body]
fn hasher_update(hasher: &mut sha2::Sha256, data: &[u8])
    ensures
        absorbed(*final(hasher)) == absorbed(*old(hasher)) + data@,
{
    hasher.update(data)
}

/// `sha2::Sha256::finalize`, of the `Digest` trait.
///
/// Trusted: the result is the SHA-256 digest of everything the hasher was
/// fed, and is 32 bytes long.
#[verifier::external_body]
fn hasher_finalize(hasher: sha2::Sha256) -> (digest: Vec<u8>)
    ensures
        digest@ == sha256(absorbed(hasher)),
        digest@.len() == DIGEST_LEN,
{
    hasher.finalize().to_vec()
}

/// The hashing half of a writer that hashes what it writes.
///
/// Whoever owns the sink writes a buffer to it, learns how many bytes the
/// sink took, and reports that here. The digest is then that of exactly the
/// bytes that the sink took, in order.
pub struct HashWriter {
    hasher: sha2::Sha256,
}

impl View for HashWriter {
    type V = Seq<u8>;

    /// The bytes recorded so far.
    closed spec fn view(&self) -> Seq<u8> {
        absorbed(self.hasher)
    }
}

impl HashWriter {
    /// A writer that has recorded nothing.
    pub fn new() -> (writer: Self)
        ensures
            writer@ == Seq::<u8>::empty(),
    {
        HashWriter { hasher: hasher_new() }
    }

    /// Records that the sink took the first `accepted` bytes of `buf`.
    pub fn record(&mut self, buf: &[u8], accepted: usize)
        requires
            accepted <= buf@.len(),
        ensures
            final(self)@ == old(self)@ + buf@.subrange(0, accepted as int),
    {
        let taken = vstd::slice::slice_subrange(buf, 0, accepted);
        hasher_update(&mut self.hasher, taken);
    }

    /// Ends the recording: the digest of all bytes recorded.
    pub fn finish(self) -> (digest: Vec<u8>)
        ensures
            digest@ == sha256(self@),
            digest@.len() == DIGEST_LEN,
    {
        hasher_finalize(self.hasher)
    }
}

/// The key that a digest gives.
pub fn key_of_digest(digest: &[u8]) -> (key: String)
    requires
        digest@.len() == DIGEST_LEN,
    ensures
        key@ == base64_url_unpadded(digest@),
        key@.len() == KEY_LEN,
        is_url_safe(key@),
{
    encode_url_unpadded(digest)
}

/// The key under which `content` is stored: a function of the bytes alone,
/// 43 characters long, each of the URL-safe alphabet.
pub fn content_key(content: &[u8]) -> (key: String)
    ensures
        key@ == spec_content_key(content@),
        key@.len() == KEY_LEN,
        is_url_safe(key@),
{
    let mut writer = HashWriter::new();
    writer.record(content, content.len());
    assert(content@.subrange(0, content@.len() as int) =~= content@);
    let digest = writer.finish();
    key_of_digest(digest.as_slice())
}

} // verus!
