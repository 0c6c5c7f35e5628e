use vstd::prelude::*;

verus! {

/// Calls `rand::random_range(low..=high)` on bytes: a value drawn from the thread-local
/// generator. The contract claims only what holds of every draw, that it lies in the range;
/// which value comes out rests on chance and is left unsaid.
#[verifier::external_body]
pub(crate) fn random_range_inclusive(low: u8, high: u8) -> (r: u8)
    requires
        low <= high,
    ensures
        low <= r <= high,
{
    rand::random_range(low..=high)
}

} // verus!
