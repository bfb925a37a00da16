//! Random choices, drawn from the `rand` crate.

use vstd::prelude::*;

verus! {

/// `rand::random::<bool>()`: a fair coin; nothing is known of the outcome.
#[verifier::external_body]
pub(crate) fn random_bool() -> (r: bool) {
    rand::random::<bool>()
}

/// `rand::random::<usize>()`: any `usize`; nothing is known of the outcome.
#[verifier::external_body]
pub(crate) fn random_usize() -> (r: usize) {
    rand::random::<usize>()
}

/// `SliceRandom::choose` on a non-empty list with `thread_rng()`: one of
/// its elements, drawn at random. That it is an element of the list is all
/// that is stated; which one rests on chance.
#[verifier::external_body]
pub(crate) fn choose_one(items: &Vec<usize>) -> (r: usize)
    requires
        items@.len() > 0,
    ensures
        items@.contains(r),
{
    *rand::seq::SliceRandom::choose(items.as_slice(), &mut rand::thread_rng()).unwrap()
}

} // verus!
