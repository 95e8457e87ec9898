//! Entity components of the simulation that carry no measurements.

use vstd::prelude::*;

use crate::nation::Nation;

verus! {

/// Who an entity is.
#[derive(Debug, Clone)]
pub struct Identity {
    pub id: u64,
    pub name: String,
    pub faction: Faction,
    pub nation: Nation,
}

/// Factions an entity can belong to.
#[derive(Debug, Clone, Copy, PartialEq, Eq, Hash, Structural)]
pub enum Faction {
    Neutral,
    MerchantGuild,
    BanditClans,
    ExplorersLeague,
    SettlersUnion,
    TempleOfSuns,
}

/// Landscapes of the world.
#[derive(Debug, Clone, Copy, PartialEq, Eq, Hash, Structural)]
pub enum Biome {
    Forest,
    Plains,
    Desert,
    Village,
    Market,
}

/// A stack of items in an inventory.
#[derive(Debug, Clone)]
pub struct ItemStack {
    pub item: ItemKind,
    pub quantity: u32,
}

/// Kinds of items, each with its name.
#[derive(Debug, Clone)]
pub enum ItemKind {
    Resource(String),
    Equipment(String),
    Artifact(String),
}

/// Long-term aims of an entity.
#[derive(Debug, Clone, Copy, PartialEq, Eq, Structural)]
pub enum GoalKind {
    Wealth,
    Glory,
    Survival,
    Influence,
}

/// What an entity is doing.
#[derive(Debug, Clone, Copy, PartialEq, Eq, Hash, Structural)]
pub enum BehaviorState {
    Idle,
    Explore,
    Gather,
    Trade,
    Hunt,
    Rest,
}

/// The current activity of an entity.
#[derive(Debug, Clone, Copy)]
pub struct Behavior {
    pub state: BehaviorState,
}

/// Marks a hex cell as a battlefield for a number of further ticks.
#[derive(Debug, Clone, Copy)]
pub struct InCombat {
    pub ticks_remaining: u32,
}

/// The two nations fighting over a battlefield cell.
#[derive(Debug, Clone, Copy)]
pub struct Combatants {
    pub nation_a: Nation,
    pub nation_b: Nation,
}

/// Remaining ticks after one countdown step, never below zero.
pub open spec fn counted_down(ticks: u32) -> u32 {
    if ticks == 0 {
        0
    } else {
        (ticks - 1) as u32
    }
}

impl InCombat {
    /// Counts one tick of fighting down; answers whether the fight is over, so
    /// that the cell stops being a battlefield.
    pub fn countdown(&mut self) -> (finished: bool)
        ensures
            final(self).ticks_remaining == counted_down(old(self).ticks_remaining),
            finished == (final(self).ticks_remaining == 0),
    {
        self.ticks_remaining = self.ticks_remaining.saturating_sub(1);
        self.ticks_remaining == 0
    }
}

/// Counts every battlefield down by one tick and answers the positions, in
/// increasing order, of those whose fight is over; these stop being battlefields.
pub fn combat_cleanup_system(fights: &mut Vec<InCombat>) -> (finished: Vec<usize>)
    ensures
        final(fights)@.len() == old(fights)@.len(),
        forall|i: int|
            0 <= i < final(fights)@.len() ==> (#[trigger] final(fights)@[i]).ticks_remaining
                == counted_down(old(fights)@[i].ticks_remaining),
        forall|a: int, b: int| 0 <= a < b < finished@.len() ==> finished@[a] < finished@[b],
        forall|i: int|
            0 <= i < old(fights)@.len() ==> (finished@.contains(i as usize) <==> counted_down(
                old(fights)@[i].ticks_remaining,
            ) == 0),
        forall|a: int| 0 <= a < finished@.len() ==> finished@[a] < old(fights)@.len(),
{
    let mut finished: Vec<usize> = Vec::new();
    let mut i: usize = 0;
    while i < fights.len()
        invariant
            0 <= i <= fights@.len(),
            fights@.len() == old(fights)@.len(),
            forall|k: int|
                0 <= k < i ==> (#[trigger] fights@[k]).ticks_remaining == counted_down(
                    old(fights)@[k].ticks_remaining,
                ),
            forall|k: int| i <= k < fights@.len() ==> #[trigger] fights@[k] == old(fights)@[k],
            forall|a: int, b: int| 0 <= a < b < finished@.len() ==> finished@[a] < finished@[b],
            forall|a: int| 0 <= a < finished@.len() ==> finished@[a] < i,
            forall|k: int|
                0 <= k < i ==> (finished@.contains(k as usize) <==> counted_down(
                    old(fights)@[k].ticks_remaining,
                ) == 0),
        decreases fights@.len() - i,
    {
        let mut fight = fights[i];
        let done = fight.countdown();
        fights.set(i, fight);
        let ghost before = finished@;
        if done {
            finished.push(i);
        }
        proof {
            assert forall|k: int|
                0 <= k < i + 1 implies (finished@.contains(k as usize) <==> counted_down(
                old(fights)@[k].ticks_remaining,
            ) == 0) by {
                if finished@.contains(k as usize) {
                    let a = choose|a: int| 0 <= a < finished@.len() && finished@[a] == k as usize;
                    if a < before.len() {
                        assert(before.contains(k as usize));
                    }
                }
                if k < i && before.contains(k as usize) {
                    let a = choose|a: int| 0 <= a < before.len() && before[a] == k as usize;
                    assert(finished@[a] == k as usize);
                }
                if k == i && done {
                    assert(finished@[before.len() as int] == k as usize);
                }
            }
        }
        i = i + 1;
    }
    finished
}

/// A fight that starts with `n >= 1` ticks remaining ends on exactly the `n`-th
/// countdown step: the remaining ticks after `k` steps are `n - k` until they reach
/// zero.
pub open spec fn counted_down_n(ticks: u32, k: nat) -> u32
    decreases k,
{
    if k == 0 {
        ticks
    } else {
        counted_down(counted_down_n(ticks, (k - 1) as nat))
    }
}

/// Battlefield lifetime: a cell put in combat with `n >= 1` remaining ticks is
/// still fighting after fewer than `n` countdown steps and done after the `n`-th.
pub proof fn law_combat_lasts_its_ticks(n: u32, k: nat)
    requires
        n >= 1,
    ensures
        k < n ==> counted_down_n(n, k) == n - k && counted_down_n(n, k) != 0,
        k >= n ==> counted_down_n(n, k) == 0,
    decreases k,
{
    if k > 0 {
        law_combat_lasts_its_ticks(n, (k - 1) as nat);
    }
}

} // verus!
