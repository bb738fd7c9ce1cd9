//! Random values for jittered back-off.
use std::collections::hash_map::RandomState;
use std::hash::BuildHasher;
use vstd::prelude::*;

verus! {

/// A new hasher state: calls `RandomState::new` of std, whose keys std
/// seeds per process and advances on every creation. Nothing is stated of
/// the state.
#[verifier::external_body]
fn new_random_state() -> RandomState {
    RandomState::new()
}

/// The hash of `value` under `state`: calls `BuildHasher::hash_one` of std.
/// Nothing is stated of the result: it depends on the state's random keys.
#[verifier::external_body]
fn hash_under(state: &RandomState, value: u64) -> u64 {
    state.hash_one(value)
}

/// A fresh pseudo-random 64-bit value: the hash of a constant under a newly
/// created hasher state.
pub(crate) fn fresh_entropy() -> u64 {
    let state = new_random_state();
    hash_under(&state, 0)
}

} // verus!
