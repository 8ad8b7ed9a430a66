//! Random bytes.

use rand::RngCore;
use vstd::prelude::*;

verus! {

/// `rand`'s `thread_rng().fill_bytes`: what it fills in is up to chance.
#[verifier::external_body]
fn fill_random(bytes: &mut Vec<u8>)
    ensures
        final(bytes)@.len() == old(bytes)@.len(),
{
    rand::thread_rng().fill_bytes(bytes)
}

/// `count` random bytes.
pub(crate) fn random_bytes(count: usize) -> (r: Vec<u8>)
    ensures
        r@.len() == count,
{
    let mut bytes: Vec<u8> = vec![0u8; count];
    fill_random(&mut bytes);
    bytes
}

} // verus!
