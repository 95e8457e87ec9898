//! Deterministic random number generators of the simulation systems.
//!
//! Every system seeds a fresh `SmallRng` from the current tick (and, for systems
//! that act per entity, from the entity id), so a run is reproducible tick by tick
//! on a given platform.

use rand::rngs::SmallRng;
use rand::seq::SliceRandom;
use rand::SeedableRng;
use vstd::prelude::*;

use crate::grid::AxialCoord;

verus! {

/// The fast generator of the `rand` crate; its state is opaque here.
#[verifier::external_type_specification]
#[verifier::external_body]
pub struct ExSmallRng(SmallRng);

/// Reduction modulo 2^64, the result of wrapping `u64` arithmetic.
pub open spec fn wrap_u64(x: int) -> int {
    x % 0x1_0000_0000_0000_0000
}

/// Seed of the behaviour generator of one entity at one tick.
pub open spec fn spec_ai_seed(tick: u64, entity_id: u64) -> int {
    wrap_u64(wrap_u64(wrap_u64(tick * 97) + entity_id) * 53)
}

/// Seed of the city-founding generator at one tick.
pub open spec fn spec_civilization_seed(tick: u64) -> int {
    wrap_u64(tick * 911)
}

/// Seed of the trade generator of one entity at one tick.
pub open spec fn spec_economy_seed(tick: u64, entity_id: u64) -> int {
    wrap_u64(wrap_u64(wrap_u64(tick * 131) + entity_id * 7) * 59)
}

/// Seed of the battle generator at one tick.
pub open spec fn spec_warfare_seed(tick: u64) -> int {
    wrap_u64(tick * 257)
}

/// Seed of the behaviour generator of one entity at one tick.
pub fn ai_seed(tick: u64, entity_id: u64) -> (seed: u64)
    ensures
        seed == spec_ai_seed(tick, entity_id),
{
    tick.wrapping_mul(97).wrapping_add(entity_id).wrapping_mul(53)
}

/// Seed of the city-founding generator at one tick.
pub fn civilization_seed(tick: u64) -> (seed: u64)
    ensures
        seed == spec_civilization_seed(tick),
{
    tick.wrapping_mul(911)
}

/// Seed of the trade generator of one entity at one tick. The entity id is scaled
/// by 7 without wrapping.
pub fn economy_seed(tick: u64, entity_id: u64) -> (seed: u64)
    requires
        entity_id * 7 <= u64::MAX,
    ensures
        seed == spec_economy_seed(tick, entity_id),
{
    tick.wrapping_mul(131).wrapping_add(entity_id * 7).wrapping_mul(59)
}

/// Seed of the battle generator at one tick.
pub fn warfare_seed(tick: u64) -> (seed: u64)
    ensures
        seed == spec_warfare_seed(tick),
{
    tick.wrapping_mul(257)
}

/// Calls `SeedableRng::seed_from_u64` for `SmallRng`. The generator's state, and
/// so every value it yields, is left unsaid: its algorithm differs between 32-bit
/// and 64-bit platforms.
#[verifier::external_body]
fn small_rng_from_seed(seed: u64) -> SmallRng {
    SmallRng::seed_from_u64(seed)
}

/// Calls `SliceRandom::shuffle` on the cells. Claimed: the result holds the same
/// cells, each as often as before, in some order (the implementation only swaps
/// elements); which order comes out depends on the generator and is left unsaid.
#[verifier::external_body]
pub(crate) fn shuffle_coords(coords: &mut Vec<AxialCoord>, rng: &mut SmallRng)
    ensures
        final(coords)@.to_multiset() == old(coords)@.to_multiset(),
{
    coords.as_mut_slice().shuffle(rng)
}

/// The behaviour generator of one entity at one tick, seeded with `ai_seed`.
pub fn ai_rng(tick: u64, entity_id: u64) -> SmallRng {
    small_rng_from_seed(ai_seed(tick, entity_id))
}

/// The city-founding generator of one tick, seeded with `civilization_seed`.
pub fn civilization_rng(tick: u64) -> SmallRng {
    small_rng_from_seed(civilization_seed(tick))
}

/// The trade generator of one entity at one tick, seeded with `economy_seed`.
pub fn economy_rng(tick: u64, entity_id: u64) -> SmallRng
    requires
        entity_id * 7 <= u64::MAX,
{
    small_rng_from_seed(economy_seed(tick, entity_id))
}

/// The battle generator of one tick, seeded with `warfare_seed`.
pub fn warfare_rng(tick: u64) -> SmallRng {
    small_rng_from_seed(warfare_seed(tick))
}

} // verus!
