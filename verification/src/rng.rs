//! Wrappers around the random-shuffle operations. Nothing is assumed about
//! the order that comes back, only that the elements are preserved.

use vstd::prelude::*;
use rand::seq::SliceRandom;

verus! {

/// Relies on rand's SliceRandom::shuffle: an in-place sequence of swaps
/// driven by the thread-local generator, so the elements are permuted and
/// none is added or lost.
#[verifier::external_body]
pub(crate) fn shuffle_vec<T>(v: &mut Vec<T>)
    ensures
        final(v)@.len() == old(v)@.len(),
        final(v)@.to_multiset() == old(v)@.to_multiset(),
{
    v.shuffle(&mut rand::thread_rng());
}

/// Relies on rand's SliceRandom::choose_multiple: with `amount` equal to the
/// slice's length it yields every element exactly once, in an unspecified
/// order.
#[verifier::external_body]
pub(crate) fn random_order(v: &Vec<usize>) -> (r: Vec<usize>)
    ensures
        r@.len() == v@.len(),
        r@.to_multiset() == v@.to_multiset(),
{
    let n = v.len();
    v.choose_multiple(&mut rand::thread_rng(), n).copied().collect()
}

} // verus!
