use rand::Rng;
use rand::seq::SliceRandom;
use vstd::prelude::*;

verus! {

/// Draws `true` with probability `numerator / denominator`, through
/// `rand::Rng::random_ratio` on the thread-local generator. The outcome is
/// random; the contract states what `rand` guarantees for the two certain
/// ratios (never for `0 / d`, always for `d / d`).
#[verifier::external_body]
pub(crate) fn random_ratio(numerator: u32, denominator: u32) -> (r: bool)
    requires
        0 < denominator,
        numerator <= denominator,
    ensures
        numerator == 0 ==> !r,
        numerator == denominator ==> r,
{
    rand::rng().random_ratio(numerator, denominator)
}

/// A uniformly random index below `len`, through `rand::Rng::random_range`
/// on the thread-local generator. Only the range is stated: the value is random.
#[verifier::external_body]
pub(crate) fn random_index(len: usize) -> (r: usize)
    requires
        len > 0,
    ensures
        r < len,
{
    rand::rng().random_range(0..len)
}

/// Shuffles the vector in place with `rand::seq::SliceRandom::shuffle` on the
/// thread-local generator. The order that comes out is random; the contract
/// states that the result is a permutation of the input.
#[verifier::external_body]
pub(crate) fn shuffle_in_place(v: &mut Vec<usize>)
    ensures
        final(v)@.len() == old(v)@.len(),
        final(v)@.to_multiset() == old(v)@.to_multiset(),
{
    v.as_mut_slice().shuffle(&mut rand::rng());
}

} // verus!
