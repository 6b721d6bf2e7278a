use vstd::prelude::*;

verus! {

/// Implemented by the state types of this crate alone, so that no other type
/// can stand as a protocol state.
pub trait Sealed {}

} // verus!
