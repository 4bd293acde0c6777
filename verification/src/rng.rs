//! Randomness and fresh identifiers, taken from `rand` and `uuid`.

use vstd::prelude::*;
use rand::seq::SliceRandom;
use rand::Rng;
use crate::models::card::Suit;

verus! {

/// Picks one suit of a non-empty slice at random.
///
/// Trusted: calls `rand::seq::SliceRandom::choose` with the thread-local
/// generator, which returns `Some` of an element of the slice whenever the
/// slice is non-empty. Which element comes back is left open.
#[verifier::external_body]
pub(crate) fn choose_suit(suits: &[Suit]) -> (r: Suit)
    requires
        suits@.len() > 0,
    ensures
        suits@.contains(r),
{
    *suits.choose(&mut rand::thread_rng()).unwrap()
}

/// Shuffles a deck in place.
///
/// Trusted: calls `rand::seq::SliceRandom::shuffle` with the thread-local
/// generator; its source only swaps elements, so the result is a permutation
/// of the input. Which permutation is left open.
#[verifier::external_body]
pub(crate) fn shuffle_suits(deck: &mut Vec<Suit>)
    ensures
        final(deck)@.len() == old(deck)@.len(),
        final(deck)@.to_multiset() == old(deck)@.to_multiset(),
{
    deck.as_mut_slice().shuffle(&mut rand::thread_rng())
}

/// A random integer in `lo..=hi`.
///
/// Trusted: calls `rand::Rng::gen_range` on an inclusive range with the
/// thread-local generator; it panics on an empty range (excluded here) and
/// otherwise returns a value inside the range. Which value is left open.
#[verifier::external_body]
pub(crate) fn random_between(lo: i32, hi: i32) -> (r: i32)
    requires
        lo <= hi,
    ensures
        lo <= r <= hi,
{
    rand::thread_rng().gen_range(lo..=hi)
}

/// A fresh random identifier, as the 128-bit value of a version-4 UUID.
///
/// Trusted: calls `uuid::Uuid::new_v4` and converts with `Uuid::as_u128`.
/// The source masks a random value so that the version nibble (bits 76..80)
/// is 4 and the variant bits (62..64) are 0b10; that is all the contract
/// states. The other bits are left open.
#[verifier::external_body]
pub(crate) fn new_v4_id() -> (r: u128)
    ensures
        (r >> 76u128) & 0xfu128 == 4u128,
        (r >> 62u128) & 0x3u128 == 2u128,
{
    uuid::Uuid::new_v4().as_u128()
}

} // verus!
