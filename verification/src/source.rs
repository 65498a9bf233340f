//! The randomness source: the only calls into the `rand` crate, each behind a
//! trusted wrapper whose contract states what holds of every outcome.

use vstd::prelude::*;

use rand::RngExt;
use rand::seq::SliceRandom;

verus! {

/// Relies on rand::RngExt::random_range over the non-empty range 1..10: the
/// result lies in the range. Uses the thread-local generator of rand::rng.
#[verifier::external_body]
pub(crate) fn draw_diagonal() -> (d: usize)
    ensures
        1 <= d <= 9,
{
    rand::rng().random_range(1..10)
}

/// Relies on rand::RngExt::random::<bool>: nothing is promised of the
/// outcome.
#[verifier::external_body]
pub(crate) fn coin_flip() -> (b: bool) {
    rand::rng().random()
}

/// Relies on rand::seq::SliceRandom::shuffle: it permutes the slice in
/// place, so the multiset of its elements is unchanged.
#[verifier::external_body]
pub(crate) fn shuffle(values: &mut Vec<usize>)
    ensures
        final(values)@.to_multiset() == old(values)@.to_multiset(),
{
    values.shuffle(&mut rand::rng());
}

} // verus!
