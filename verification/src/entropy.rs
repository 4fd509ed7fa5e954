//! Random numbers, from the thread-local generator of `rand`.
//!
//! Nothing is known of a random number but its size. What depends on one
//! is decided by a function that takes it as an argument.

use rand::RngCore;
use vstd::prelude::*;

verus! {

/// `rand::thread_rng` and `RngCore::fill_bytes`: overwrites `buf` with
/// random bytes.
///
/// Trusted: the buffer keeps its length.
#[verifier::external_body]
pub(crate) fn fill_random(buf: &mut Vec<u8>)
    ensures
        final(buf)@.len() == old(buf)@.len(),
{
    rand::thread_rng().fill_bytes(buf.as_mut_slice())
}

/// `rand::thread_rng` and `RngCore::next_u32`: a random number.
#[verifier::external_body]
pub(crate) fn random_u32() -> (n: u32) {
    rand::thread_rng().next_u32()
}

} // verus!
