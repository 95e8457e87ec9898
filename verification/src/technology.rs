//! Eras, weapons and technologies a nation advances through.

use vstd::prelude::*;

verus! {

/// The eras of history, in order.
#[derive(Debug, Clone, Copy, PartialEq, Eq, Hash, Structural)]
pub enum Era {
    Dawn,
    Ancient,
    Classical,
    Medieval,
    Industrial,
    Modern,
    Nuclear,
}

/// Position of an era in history, starting at zero.
pub open spec fn era_index(e: Era) -> int {
    match e {
        Era::Dawn => 0,
        Era::Ancient => 1,
        Era::Classical => 2,
        Era::Medieval => 3,
        Era::Industrial => 4,
        Era::Modern => 5,
        Era::Nuclear => 6,
    }
}

/// The era that follows `e`, if any.
pub open spec fn spec_next_era(e: Era) -> Option<Era> {
    match e {
        Era::Dawn => Some(Era::Ancient),
        Era::Ancient => Some(Era::Classical),
        Era::Classical => Some(Era::Medieval),
        Era::Medieval => Some(Era::Industrial),
        Era::Industrial => Some(Era::Modern),
        Era::Modern => Some(Era::Nuclear),
        Era::Nuclear => None,
    }
}

/// The era reached from `e` after `n` advances, if history lasts that long.
pub open spec fn era_after(e: Era, n: nat) -> Option<Era>
    decreases n,
{
    if n == 0 {
        Some(e)
    } else {
        match era_after(e, (n - 1) as nat) {
            Some(prev) => spec_next_era(prev),
            None => None,
        }
    }
}

impl Era {
    pub open spec fn spec_label(self) -> Seq<char> {
        match self {
            Era::Dawn => "Stone Age"@,
            Era::Ancient => "Bronze Age"@,
            Era::Classical => "Classical Era"@,
            Era::Medieval => "Medieval Era"@,
            Era::Industrial => "Industrial Era"@,
            Era::Modern => "Modern Era"@,
            Era::Nuclear => "Nuclear/Future"@,
        }
    }

    /// Display name of the era.
    pub fn label(&self) -> (res: &'static str)
        ensures
            res@ == self.spec_label(),
    {
        match self {
            Era::Dawn => "Stone Age",
            Era::Ancient => "Bronze Age",
            Era::Classical => "Classical Era",
            Era::Medieval => "Medieval Era",
            Era::Industrial => "Industrial Era",
            Era::Modern => "Modern Era",
            Era::Nuclear => "Nuclear/Future",
        }
    }

    /// The era that follows this one; `None` for the nuclear era, the last.
    pub fn next(&self) -> (res: Option<Era>)
        ensures
            res == spec_next_era(*self),
    {
        match self {
            Era::Dawn => Some(Era::Ancient),
            Era::Ancient => Some(Era::Classical),
            Era::Classical => Some(Era::Medieval),
            Era::Medieval => Some(Era::Industrial),
            Era::Industrial => Some(Era::Modern),
            Era::Modern => Some(Era::Nuclear),
            Era::Nuclear => None,
        }
    }
}

/// Era progression: each era but the last is followed by the era one step later in
/// history, the nuclear era is followed by none, and every era is reached from the
/// dawn after as many advances as its position.
pub proof fn law_eras_advance_in_order(e: Era)
    ensures
        spec_next_era(e) is Some ==> era_index(spec_next_era(e)->0) == era_index(e) + 1,
        spec_next_era(e) is None <==> e == Era::Nuclear,
        era_after(Era::Dawn, era_index(e) as nat) == Some(e),
        era_after(Era::Dawn, 7) is None,
{
    reveal_with_fuel(era_after, 8);
}

/// The tier of a tech tree that belongs to `era`: the position of the first tier,
/// among tiers belonging to `eras` in order, whose era is `era`.
pub fn tier_position(eras: &Vec<Era>, era: Era) -> (res: Option<usize>)
    ensures
        match res {
            Some(i) => {
                &&& i < eras@.len()
                &&& eras@[i as int] == era
                &&& forall|j: int| 0 <= j < i ==> eras@[j] != era
            },
            None => forall|j: int| 0 <= j < eras@.len() ==> eras@[j] != era,
        },
{
    let mut i: usize = 0;
    while i < eras.len()
        invariant
            0 <= i <= eras@.len(),
            forall|j: int| 0 <= j < i ==> eras@[j] != era,
        decreases eras@.len() - i,
    {
        if eras[i] == era {
            return Some(i);
        }
        i = i + 1;
    }
    None
}

/// The tier a nation works towards from `era`: that of the era after it, found as
/// `tier_position` finds it; `None` in the last era.
pub fn next_tier_position(eras: &Vec<Era>, era: Era) -> (res: Option<usize>)
    ensures
        match spec_next_era(era) {
            None => res is None,
            Some(next) => match res {
                Some(i) => {
                    &&& i < eras@.len()
                    &&& eras@[i as int] == next
                    &&& forall|j: int| 0 <= j < i ==> eras@[j] != next
                },
                None => forall|j: int| 0 <= j < eras@.len() ==> eras@[j] != next,
            },
        },
{
    match era.next() {
        Some(next) => tier_position(eras, next),
        None => None,
    }
}

/// Weapons of war, from the weakest.
#[derive(Debug, Clone, Copy, PartialEq, Eq, Hash, Structural)]
pub enum WeaponTier {
    KnappedStone,
    PolishedStone,
    Bow,
    Crossbow,
    Gunpowder,
    SteelArmor,
    ModernArmor,
    NuclearArsenal,
}

impl WeaponTier {
    pub open spec fn spec_label(self) -> Seq<char> {
        match self {
            WeaponTier::KnappedStone => "Knapped Stone"@,
            WeaponTier::PolishedStone => "Polished Stone"@,
            WeaponTier::Bow => "Bow"@,
            WeaponTier::Crossbow => "Crossbow"@,
            WeaponTier::Gunpowder => "Gunpowder"@,
            WeaponTier::SteelArmor => "Steel Armor"@,
            WeaponTier::ModernArmor => "Modern Tank"@,
            WeaponTier::NuclearArsenal => "Nuclear Arsenal"@,
        }
    }

    /// Display name of the weapon.
    pub fn label(&self) -> (res: &'static str)
        ensures
            res@ == self.spec_label(),
    {
        match self {
            WeaponTier::KnappedStone => "Knapped Stone",
            WeaponTier::PolishedStone => "Polished Stone",
            WeaponTier::Bow => "Bow",
            WeaponTier::Crossbow => "Crossbow",
            WeaponTier::Gunpowder => "Gunpowder",
            WeaponTier::SteelArmor => "Steel Armor",
            WeaponTier::ModernArmor => "Modern Tank",
            WeaponTier::NuclearArsenal => "Nuclear Arsenal",
        }
    }
}

/// Technologies a nation can unlock.
#[derive(Debug, Clone, Copy, PartialEq, Eq, Hash, Structural)]
pub enum Tech {
    Knapping,
    PolishedTools,
    Archery,
    Siegecraft,
    Metallurgy,
    GunpowderChemistry,
    Ballistics,
    NuclearPhysics,
}

impl Tech {
    pub open spec fn spec_label(self) -> Seq<char> {
        match self {
            Tech::Knapping => "Knapping"@,
            Tech::PolishedTools => "Polished Tools"@,
            Tech::Archery => "Archery"@,
            Tech::Siegecraft => "Siegecraft"@,
            Tech::Metallurgy => "Metallurgy"@,
            Tech::GunpowderChemistry => "Gunpowder Chemistry"@,
            Tech::Ballistics => "Ballistics"@,
            Tech::NuclearPhysics => "Nuclear Physics"@,
        }
    }

    /// Display name of the technology.
    pub fn label(&self) -> (res: &'static str)
        ensures
            res@ == self.spec_label(),
    {
        match self {
            Tech::Knapping => "Knapping",
            Tech::PolishedTools => "Polished Tools",
            Tech::Archery => "Archery",
            Tech::Siegecraft => "Siegecraft",
            Tech::Metallurgy => "Metallurgy",
            Tech::GunpowderChemistry => "Gunpowder Chemistry",
            Tech::Ballistics => "Ballistics",
            Tech::NuclearPhysics => "Nuclear Physics",
        }
    }
}

/// `known` after each of `unlocks`, in order, is appended unless already known.
pub open spec fn with_unlocks(known: Seq<Tech>, unlocks: Seq<Tech>) -> Seq<Tech>
    decreases unlocks.len(),
{
    if unlocks.len() == 0 {
        known
    } else {
        let prev = with_unlocks(known, unlocks.drop_last());
        if prev.contains(unlocks.last()) {
            prev
        } else {
            prev.push(unlocks.last())
        }
    }
}

/// Adds the technologies of a newly reached era to those a nation knows: each one
/// not yet known is appended, in the order given.
pub fn unlock_techs(known: &mut Vec<Tech>, unlocks: &Vec<Tech>)
    ensures
        final(known)@ == with_unlocks(old(known)@, unlocks@),
{
    let mut i: usize = 0;
    while i < unlocks.len()
        invariant
            0 <= i <= unlocks@.len(),
            known@ == with_unlocks(old(known)@, unlocks@.take(i as int)),
        decreases unlocks@.len() - i,
    {
        let tech = unlocks[i];
        let mut present = false;
        let mut j: usize = 0;
        while j < known.len()
            invariant
                0 <= j <= known@.len(),
                present == exists|k: int| 0 <= k < j && known@[k] == tech,
            decreases known@.len() - j,
        {
            if known[j] == tech {
                present = true;
            }
            j = j + 1;
        }
        assert(unlocks@.take(i + 1).drop_last() =~= unlocks@.take(i as int));
        assert(unlocks@.take(i + 1).last() == tech);
        if !present {
            known.push(tech);
        } else {
            proof {
                let k = choose|k: int| 0 <= k < j && known@[k] == tech;
                assert(known@[k] == tech);
                assert(known@.contains(tech));
            }
        }
        i = i + 1;
    }
    assert(unlocks@.take(unlocks@.len() as int) =~= unlocks@);
}

/// Unlocking never forgets nor repeats a technology: what was known stays known in
/// its place, every unlocked technology is known afterwards, nothing else is added,
/// and a list without repeats stays without repeats.
pub proof fn law_unlocks_keep_techs_unique(known: Seq<Tech>, unlocks: Seq<Tech>)
    ensures
        with_unlocks(known, unlocks).len() >= known.len(),
        with_unlocks(known, unlocks).subrange(0, known.len() as int) == known,
        forall|t: Tech| #[trigger] unlocks.contains(t) ==> with_unlocks(known, unlocks).contains(t),
        forall|t: Tech|
            #[trigger] with_unlocks(known, unlocks).contains(t) ==> known.contains(t)
                || unlocks.contains(t),
        known.no_duplicates() ==> with_unlocks(known, unlocks).no_duplicates(),
    decreases unlocks.len(),
{
    if unlocks.len() > 0 {
        let init = unlocks.drop_last();
        let t0 = unlocks.last();
        law_unlocks_keep_techs_unique(known, init);
        let prev = with_unlocks(known, init);
        let next = with_unlocks(known, unlocks);
        if !prev.contains(t0) {
            assert(next == prev.push(t0));
            assert(next.subrange(0, known.len() as int) =~= prev.subrange(0, known.len() as int));
            assert(next[prev.len() as int] == t0);
            assert forall|t: Tech| #[trigger] next.contains(t) implies known.contains(t)
                || unlocks.contains(t) by {
                let k = choose|k: int| 0 <= k < next.len() && next[k] == t;
                if k < prev.len() {
                    assert(prev[k] == t);
                    assert(prev.contains(t));
                    if init.contains(t) {
                        let m = choose|m: int| 0 <= m < init.len() && init[m] == t;
                        assert(unlocks[m] == t);
                    }
                } else {
                    assert(unlocks[unlocks.len() - 1] == t);
                }
            }
            assert forall|t: Tech| #[trigger] unlocks.contains(t) implies next.contains(t) by {
                let m = choose|m: int| 0 <= m < unlocks.len() && unlocks[m] == t;
                if m < init.len() {
                    assert(init[m] == t);
                    assert(init.contains(t));
                    let k = choose|k: int| 0 <= k < prev.len() && prev[k] == t;
                    assert(next[k] == t);
                }
            }
        } else {
            assert forall|t: Tech| #[trigger] next.contains(t) implies known.contains(t)
                || unlocks.contains(t) by {
                if init.contains(t) {
                    let m = choose|m: int| 0 <= m < init.len() && init[m] == t;
                    assert(unlocks[m] == t);
                }
            }
            assert forall|t: Tech| #[trigger] unlocks.contains(t) implies next.contains(t) by {
                let m = choose|m: int| 0 <= m < unlocks.len() && unlocks[m] == t;
                if m < init.len() {
                    assert(init[m] == t);
                    assert(init.contains(t));
                }
            }
        }
    }
}

} // verus!
