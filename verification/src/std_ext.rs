//! Calls into `std` for which `vstd` has no specification. Each function here
//! makes one such call; its contract is taken from the documentation of `std`
//! and is not proved.

use std::collections::HashMap;
use std::hash::BuildHasher;
use vstd::prelude::*;

verus! {

/// `HashMap::with_hasher`: the new map is empty and keeps `hash_builder` to
/// hash its keys with.
#[verifier::external_body]
pub(crate) fn hash_map_with_hasher<H: BuildHasher>(hash_builder: H) -> (table: HashMap<u64, usize, H>)
    ensures
        table@ == (Map::<u64, usize>::empty()),
{
    HashMap::with_hasher(hash_builder)
}

/// `HashMap::shrink_to_fit`: the map gives back spare capacity and holds the
/// same keys with the same values as before.
#[verifier::external_body]
pub(crate) fn hash_map_shrink_to_fit<H: BuildHasher>(table: &mut HashMap<u64, usize, H>)
    ensures
        final(table)@ == old(table)@,
{
    table.shrink_to_fit()
}

/// `Vec::shrink_to_fit`: the vector gives back spare capacity and holds the
/// same elements in the same order as before.
#[verifier::external_body]
pub(crate) fn vec_shrink_to_fit<T>(vec: &mut Vec<T>)
    ensures
        final(vec)@ == old(vec)@,
{
    vec.shrink_to_fit()
}

} // verus!
