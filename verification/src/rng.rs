//! The engine's two uses of randomness: picking the peer asked for the
//! best fork, and drawing fresh request identifiers.

use vstd::prelude::*;

verus! {

/// Relies on `rand::Rng::gen_range` over the system randomness source:
/// returns a uniformly drawn value of the non-empty range, so the index
/// always falls inside the set.
#[verifier::external_body]
pub fn choose_index(n: usize) -> (r: usize)
    requires
        n > 0,
    ensures
        r < n,
{
    rand::Rng::gen_range(&mut rand::rngs::OsRng, 0..n)
}

/// Relies on `rand::Rng::gen` over the thread-local generator: a fresh
/// arbitrary identifier.  Nothing is assumed of its value.
#[verifier::external_body]
pub fn gen_u32() -> (r: u32) {
    rand::Rng::gen(&mut rand::thread_rng())
}

} // verus!
