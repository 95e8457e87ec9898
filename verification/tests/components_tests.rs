use engine::components::{combat_cleanup_system, InCombat};
use engine::technology::{unlock_techs, Era, Tech, WeaponTier};

#[test]
fn countdown_reports_finish() {
    let mut fight = InCombat { ticks_remaining: 2 };
    assert!(!fight.countdown());
    assert_eq!(fight.ticks_remaining, 1);
    assert!(fight.countdown());
    assert_eq!(fight.ticks_remaining, 0);
    assert!(fight.countdown());
    assert_eq!(fight.ticks_remaining, 0);
}

#[test]
fn combat_cleanup_removes_finished_fights() {
    let mut fights = vec![
        InCombat { ticks_remaining: 3 },
        InCombat { ticks_remaining: 1 },
        InCombat { ticks_remaining: 0 },
    ];
    let finished = combat_cleanup_system(&mut fights);
    assert_eq!(finished, vec![1, 2]);
    let left: Vec<u32> = fights.iter().map(|f| f.ticks_remaining).collect();
    assert_eq!(left, vec![2, 0, 0]);
}

#[test]
fn combat_lasts_five_ticks() {
    let mut fights = vec![InCombat { ticks_remaining: 5 }];
    for _ in 0..4 {
        assert!(combat_cleanup_system(&mut fights).is_empty());
    }
    assert_eq!(combat_cleanup_system(&mut fights), vec![0]);
}

#[test]
fn eras_advance_to_nuclear() {
    let mut era = Era::Dawn;
    let mut steps = 0;
    while let Some(next) = era.next() {
        era = next;
        steps += 1;
    }
    assert_eq!(era, Era::Nuclear);
    assert_eq!(steps, 6);
    assert_eq!(Era::Modern.next(), Some(Era::Nuclear));
}

#[test]
fn era_labels() {
    assert_eq!(Era::Dawn.label(), "Stone Age");
    assert_eq!(Era::Ancient.label(), "Bronze Age");
    assert_eq!(Era::Nuclear.label(), "Nuclear/Future");
}

#[test]
fn weapon_and_tech_labels() {
    assert_eq!(WeaponTier::ModernArmor.label(), "Modern Tank");
    assert_eq!(WeaponTier::NuclearArsenal.label(), "Nuclear Arsenal");
    assert_eq!(Tech::GunpowderChemistry.label(), "Gunpowder Chemistry");
    assert_eq!(Tech::Knapping.label(), "Knapping");
}

#[test]
fn unlock_techs_appends_only_new() {
    let mut known = vec![Tech::Knapping];
    unlock_techs(&mut known, &vec![Tech::Metallurgy, Tech::GunpowderChemistry, Tech::Knapping]);
    assert_eq!(known, vec![Tech::Knapping, Tech::Metallurgy, Tech::GunpowderChemistry]);
    unlock_techs(&mut known, &vec![Tech::Metallurgy, Tech::Metallurgy]);
    assert_eq!(known.len(), 3);
}

#[test]
fn unlock_techs_dedupes_within_unlocks() {
    let mut known = Vec::new();
    unlock_techs(&mut known, &vec![Tech::Archery, Tech::Archery, Tech::Ballistics]);
    assert_eq!(known, vec![Tech::Archery, Tech::Ballistics]);
}
