//! The source of randomness.

use vstd::prelude::*;

verus! {

/// Flips a fair coin: one call of `rand::random::<bool>()`, which draws from
/// the generator of the calling thread.
///
/// The outcome depends on the state of that generator and on nothing the
/// caller holds, so nothing is stated about it. The generator is seeded from
/// the operating system on its first use in a thread and panics if that
/// fails.
#[verifier::external_body]
pub(crate) fn flip() -> (heads: bool) {
    rand::random()
}

} // verus!
