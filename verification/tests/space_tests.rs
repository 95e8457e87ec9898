use engine::nation::Nation;
use engine::resources::SpaceStage;
use engine::space::{SpacePhase, SpaceRace};

#[test]
fn space_race_starts_with_the_moon() {
    let race = SpaceRace::new();
    assert_eq!(race.phase(), SpacePhase::Lunar);
    assert_eq!(race.space_stage, SpaceStage::Moon);
    assert_eq!(race.leader(), Nation::Tera);
    assert!(race.winner.is_none());
    assert!(!race.frozen());
}

#[test]
fn space_race_runs_through_every_phase_in_order() {
    let mut race = SpaceRace::new();
    race.land_on_moon(Nation::Aqua);
    assert_eq!(race.phase(), SpacePhase::Mars);
    assert_eq!(race.space_stage, SpaceStage::Mars);
    assert_eq!(race.leader(), Nation::Aqua);

    race.complete_mars();
    assert!(race.mars_done);
    assert_eq!(race.phase(), SpacePhase::Jovian);
    assert_eq!(race.space_stage, SpaceStage::Jovian);

    race.complete_jovian();
    assert!(race.jovian_done);
    assert!(race.interstellar_mode);
    assert_eq!(race.phase(), SpacePhase::Interstellar);
    assert_eq!(race.space_stage, SpaceStage::Interstellar);
    assert!(!race.frozen());

    race.complete_interstellar();
    assert!(race.finished);
    assert!(!race.interstellar_mode);
    assert_eq!(race.phase(), SpacePhase::Idle);
    assert!(race.frozen());
    assert_eq!(race.leader(), Nation::Aqua);
}

#[test]
fn space_race_leader_is_the_moon_winner() {
    let mut race = SpaceRace::new();
    race.land_on_moon(Nation::Luna);
    assert_eq!(race.winner, Some(Nation::Luna));
    assert_eq!(race.leader(), Nation::Luna);
}
