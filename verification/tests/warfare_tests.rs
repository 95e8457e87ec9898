use engine::grid::AxialCoord;
use engine::nation::{ordered_pair, Nation};
use engine::nuclear::NuclearBlasts;
use engine::rng::warfare_rng;
use engine::warfare::{
    alliance_join_requests, border_hexes, nuclear_strike, war_casualties, BattleRequest,
    NationPairSet,
};

fn c(q: i32, r: i32) -> AxialCoord {
    AxialCoord::new(q, r)
}

fn battle(a: Nation, b: Nation) -> BattleRequest {
    BattleRequest { nation_a: a, nation_b: b }
}

#[test]
fn ordered_pair_sorts_by_declaration() {
    assert_eq!(ordered_pair(Nation::Aqua, Nation::Sora), (Nation::Sora, Nation::Aqua));
    assert_eq!(ordered_pair(Nation::Sora, Nation::Aqua), (Nation::Sora, Nation::Aqua));
    assert_eq!(ordered_pair(Nation::Luna, Nation::Luna), (Nation::Luna, Nation::Luna));
}

#[test]
fn pair_set_insert_reports_novelty() {
    let mut seen = NationPairSet::new();
    assert!(!seen.contains((Nation::Tera, Nation::Sora)));
    assert!(seen.insert((Nation::Tera, Nation::Sora)));
    assert!(!seen.insert((Nation::Tera, Nation::Sora)));
    assert!(seen.contains((Nation::Tera, Nation::Sora)));
    assert!(!seen.contains((Nation::Sora, Nation::Tera)));
}

#[test]
fn ally_of_attacker_joins_against_defender() {
    let requests = vec![battle(Nation::Tera, Nation::Sora)];
    let alliances = vec![(Nation::Tera, Nation::Aqua)];
    let mut seen = NationPairSet::new();
    seen.insert(ordered_pair(Nation::Tera, Nation::Sora));
    let extra = alliance_join_requests(&requests, &alliances, &mut seen);
    assert_eq!(extra, vec![battle(Nation::Aqua, Nation::Sora)]);
    assert!(seen.contains((Nation::Sora, Nation::Aqua)));
}

#[test]
fn ally_of_defender_joins_against_attacker() {
    let requests = vec![battle(Nation::Tera, Nation::Sora)];
    let alliances = vec![(Nation::Sora, Nation::Luna)];
    let mut seen = NationPairSet::new();
    let extra = alliance_join_requests(&requests, &alliances, &mut seen);
    assert_eq!(extra, vec![battle(Nation::Tera, Nation::Luna)]);
}

#[test]
fn alliance_join_never_repeats_a_pair() {
    let requests = vec![battle(Nation::Tera, Nation::Sora)];
    let alliances = vec![(Nation::Tera, Nation::Aqua), (Nation::Aqua, Nation::Tera)];
    let mut seen = NationPairSet::new();
    let extra = alliance_join_requests(&requests, &alliances, &mut seen);
    assert_eq!(extra, vec![battle(Nation::Aqua, Nation::Sora)]);
}

#[test]
fn allies_fighting_each_other_call_no_one() {
    let requests = vec![battle(Nation::Tera, Nation::Sora)];
    let alliances = vec![(Nation::Tera, Nation::Sora)];
    let mut seen = NationPairSet::new();
    let extra = alliance_join_requests(&requests, &alliances, &mut seen);
    assert!(extra.is_empty());
}

#[test]
fn alliance_join_with_two_wars() {
    let requests = vec![battle(Nation::Tera, Nation::Sora), battle(Nation::Aqua, Nation::Solar)];
    let alliances = vec![(Nation::Tera, Nation::Luna), (Nation::Solar, Nation::Sora)];
    let mut seen = NationPairSet::new();
    seen.insert(ordered_pair(Nation::Tera, Nation::Sora));
    seen.insert(ordered_pair(Nation::Aqua, Nation::Solar));
    let extra = alliance_join_requests(&requests, &alliances, &mut seen);
    assert_eq!(
        extra,
        vec![
            battle(Nation::Luna, Nation::Sora),
            battle(Nation::Tera, Nation::Solar),
            battle(Nation::Aqua, Nation::Sora),
        ]
    );
}

#[test]
fn border_hexes_find_front_line() {
    let hexes = vec![
        (Nation::Tera, c(0, 0)),
        (Nation::Sora, c(1, 0)),
        (Nation::Tera, c(5, 5)),
        (Nation::Tera, c(0, 1)),
        (Nation::Sora, c(9, 9)),
    ];
    assert_eq!(border_hexes(&hexes, Nation::Tera, Nation::Sora), vec![0, 3]);
    assert_eq!(border_hexes(&hexes, Nation::Sora, Nation::Tera), vec![1]);
    assert!(border_hexes(&hexes, Nation::Tera, Nation::Luna).is_empty());
}

#[test]
fn war_casualties_are_clamped() {
    assert_eq!(war_casualties(10), 15_000);
    assert_eq!(war_casualties(3_000_000), 2_000_000);
    assert_eq!(war_casualties(20_000), 20_000);
}

#[test]
fn nuclear_strike_hits_twenty_shuffled_targets_and_center() {
    let targets: Vec<AxialCoord> = (0..30).map(|i| c(10 * i, 0)).collect();
    let mut blasts = NuclearBlasts::new();
    let mut rng = warfare_rng(5);
    nuclear_strike(&mut blasts, targets.clone(), c(-100, -100), &mut rng);
    assert_eq!(blasts.len(), 21 * 19);
    assert_eq!(blasts.get(c(-100, -100)), Some(8));
    assert_eq!(blasts.get(c(-98, -100)), Some(8));
    let hit: Vec<AxialCoord> = targets.iter().copied().filter(|t| blasts.get(*t).is_some()).collect();
    assert_eq!(hit.len(), 20);
    assert_ne!(hit, targets[..20].to_vec());
}

#[test]
fn nuclear_strike_with_few_targets_hits_all() {
    let targets = vec![c(0, 0), c(20, 0)];
    let mut blasts = NuclearBlasts::new();
    let mut rng = warfare_rng(1);
    nuclear_strike(&mut blasts, targets, c(0, 0), &mut rng);
    assert_eq!(blasts.len(), 38);
    assert_eq!(blasts.get(c(20, 2)), Some(8));
    assert_eq!(blasts.get(c(20, 3)), None);
}
