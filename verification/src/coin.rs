use vstd::prelude::*;

verus! {

/// Draws a fair coin from the thread-local generator, `rand::random::<bool>()`.
///
/// Nothing is claimed of the outcome: it comes from the generator's state.
/// `rand` panics here only where the operating system's entropy source fails
/// while the generator is seeded; no argument of the call can rule that out.
#[verifier::external_body]
pub(crate) fn coin_flip() -> bool {
    rand::random::<bool>()
}

} // verus!
