//! Random numbers.

use vstd::prelude::*;

verus! {

/// `rand::random::<u64>()`: a number drawn from the thread's generator.
/// Nothing is claimed of it.
#[verifier::external_body]
pub(crate) fn random_u64() -> (raw: u64) {
    rand::random::<u64>()
}

} // verus!
