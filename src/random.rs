use vstd::prelude::*;
use rand::Rng;

verus! {

/// Relies on `rand::Rng::gen` over the thread-local generator: any `u64`
/// may come back.
#[verifier::external_body]
pub(crate) fn random_u64() -> (r: u64) {
    rand::thread_rng().gen::<u64>()
}

/// Relies on `rand::Rng::gen_range` over the thread-local generator: a value
/// in `0..bound`, which panics only on an empty range.
#[verifier::external_body]
pub(crate) fn random_below(bound: u64) -> (r: u64)
    requires
        bound > 0,
    ensures
        r < bound,
{
    rand::thread_rng().gen_range(0..bound)
}

} // verus!
