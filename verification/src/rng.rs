//! The simulation's single source of randomness, used by the food and
//! bomb spawners for rejection-sampled cell placement and for picking a
//! food kind.

use vstd::prelude::*;

verus! {

/// Relies on rand::random: draws a value from the thread-local
/// generator. Nothing can be promised of a random value.
pub assume_specification<T>[ rand::random::<T> ]() -> (r: T)
    where
        rand::distributions::Standard: rand::distributions::Distribution<T>,
;

/// Draws a uniform-ish value below `n` by reducing a random `u32`.
pub(crate) fn random_below(n: u32) -> (r: u32)
    requires
        n >= 1,
    ensures
        r < n,
{
    rand::random::<u32>() % n
}

} // verus!
