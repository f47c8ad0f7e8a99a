use rand::rngs::SmallRng;
use rand::{RngCore, SeedableRng};
use std::collections::hash_map::DefaultHasher;
use std::hash::Hash;
use vstd::prelude::*;

verus! {

/// The small pseudo-random generator of `rand`; opaque here.
#[verifier::external_type_specification]
#[verifier::external_body]
pub struct ExSmallRng(SmallRng);

/// Calls `SmallRng::seed_from_u64` of `rand`. Nothing is claimed of the
/// generator: `rand` documents its algorithm as platform dependent.
#[verifier::external_body]
pub(crate) fn small_rng_from_seed(seed: u64) -> SmallRng {
    SmallRng::seed_from_u64(seed)
}

/// Calls `RngCore::next_u64` of `rand` on a `SmallRng`. Any `u64` may come
/// back, so nothing is claimed of the result.
#[verifier::external_body]
pub(crate) fn next_draw(rng: &mut SmallRng) -> u64 {
    rng.next_u64()
}

/// Calls `Hash::hash` of a `u64` on a `DefaultHasher`. The bytes it writes
/// are not documented, so nothing is claimed of the hasher afterwards.
#[verifier::external_body]
pub(crate) fn hash_u64_into(value: u64, state: &mut DefaultHasher) {
    value.hash(state)
}

/// Calls `Hash::hash` of an `[i64; 2]` on a `DefaultHasher`. The bytes it
/// writes are not documented, so nothing is claimed of the hasher afterwards.
#[verifier::external_body]
pub(crate) fn hash_pair_into(value: [i64; 2], state: &mut DefaultHasher) {
    value.hash(state)
}

} // verus!
