//! Random numbers from the thread's generator.

use rand::Rng;
use vstd::prelude::*;

verus! {

/// `rand::thread_rng` and `Rng::gen`: some number. Nothing is claimed of it.
#[verifier::external_body]
pub(crate) fn random_u64() -> u64 {
    rand::thread_rng().gen()
}

/// `rand::thread_rng` and `Rng::fill`: `count` bytes. Nothing is claimed of
/// them but their number.
#[verifier::external_body]
pub(crate) fn random_bytes(count: usize) -> (bytes: Vec<u8>)
    ensures
        bytes@.len() == count,
{
    let mut bytes = vec![0u8; count];
    rand::thread_rng().fill(&mut bytes[..]);
    bytes
}

} // verus!
