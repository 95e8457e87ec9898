use engine::resources::{push_history, push_window, total_population, WorldTime};
use engine::rng::{ai_seed, civilization_seed, economy_seed, warfare_seed};
use engine::world::{engine_grid_radius, engine_tick_steps, EconomyMetadata, EpochCadence};

fn cadence() -> EpochCadence {
    EpochCadence {
        day_segments: vec!["Dawn", "Midday", "Dusk"],
        seasons: vec!["Flower Bloom", "Sunburst Peak", "Ashfall"],
    }
}

fn economy() -> EconomyMetadata {
    EconomyMetadata {
        circulation_cycle: vec![
            "Market Auction",
            "Guild Bidding",
            "Village Services",
            "Desert Expedition",
            "Market Reflux",
        ],
        stressors: vec![
            "Drought Pressure",
            "Bandit Raid",
            "Currency Devaluation",
            "Relic Shortage",
            "Plague Spread",
        ],
        catalysts: vec!["Temple Festival", "Explorer Breakthrough", "Guild Tariff Cut", "Union Harvest"],
    }
}

#[test]
fn epoch_for_tick_cycles() {
    let cal = cadence();
    assert_eq!(cal.epoch_for_tick(0), ("Dawn", "Flower Bloom"));
    assert_eq!(cal.epoch_for_tick(4), ("Midday", "Sunburst Peak"));
    assert_eq!(cal.epoch_for_tick(8), ("Dusk", "Ashfall"));
    assert_eq!(cal.epoch_for_tick(9), ("Dawn", "Flower Bloom"));
}

#[test]
fn epoch_repeats_every_nine_ticks() {
    let cal = cadence();
    for t in 0..50u64 {
        assert_eq!(cal.epoch_for_tick(t), cal.epoch_for_tick(t + 9));
    }
}

#[test]
fn pulse_for_tick_rotates_catalysts() {
    let eco = economy();
    assert_eq!(eco.pulse_for_tick(5), ("Explorer Breakthrough", "Guild Bidding", "Bandit Raid"));
    assert_eq!(eco.pulse_for_tick(7), ("Union Harvest", "Desert Expedition", "Relic Shortage"));
    assert_eq!(eco.pulse_for_tick(0), ("Temple Festival", "Market Auction", "Drought Pressure"));
}

#[test]
fn engine_clamps() {
    assert_eq!(engine_grid_radius(1), 4);
    assert_eq!(engine_grid_radius(30), 24);
    assert_eq!(engine_grid_radius(10), 10);
    assert_eq!(engine_grid_radius(i32::MIN), 4);
    assert_eq!(engine_tick_steps(0), 1);
    assert_eq!(engine_tick_steps(1000), 500);
    assert_eq!(engine_tick_steps(7), 7);
}

#[test]
fn world_time_starts_and_advances() {
    let mut time = WorldTime::default();
    assert_eq!(time.tick, 0);
    time.advance();
    time.advance();
    assert_eq!(time.tick, 2);
}

#[test]
fn push_history_thins_beyond_limit() {
    let mut history: Vec<u64> = (0..512).collect();
    push_history(&mut history, 512);
    assert_eq!(history.len(), 257);
    assert_eq!(history[0], 0);
    assert_eq!(history[1], 2);
    assert_eq!(*history.last().unwrap(), 512);
}

#[test]
fn push_history_below_limit_appends() {
    let mut history: Vec<u64> = (0..10).collect();
    push_history(&mut history, 99);
    assert_eq!(history.len(), 11);
    assert_eq!(history[10], 99);
}

#[test]
fn push_history_stays_bounded() {
    let mut history: Vec<u32> = Vec::new();
    for v in 0..5000u32 {
        push_history(&mut history, v);
        assert!(history.len() <= 512);
        assert_eq!(*history.last().unwrap(), v);
    }
}

#[test]
fn push_window_keeps_latest() {
    let mut window = vec![1, 2, 3];
    push_window(&mut window, 4, 3);
    assert_eq!(window, vec![2, 3, 4]);
    push_window(&mut window, 5, 10);
    assert_eq!(window, vec![2, 3, 4, 5]);
    push_window(&mut window, 6, 0);
    assert!(window.is_empty());
}

#[test]
fn total_population_skips_destroyed() {
    assert_eq!(total_population(&vec![(100, false), (50, true), (25, false)]), 125);
    assert_eq!(total_population(&vec![]), 0);
}

#[test]
fn total_population_saturates() {
    assert_eq!(total_population(&vec![(100, false), (50, true), (u64::MAX, false)]), u64::MAX);
}

#[test]
fn seeds_match_wrapping_formulas() {
    assert_eq!(ai_seed(1, 2), 5247);
    assert_eq!(ai_seed(u64::MAX, 0), 18446744073709546475);
    assert_eq!(civilization_seed(2), 1822);
    assert_eq!(economy_seed(1, 3), 8968);
    assert_eq!(warfare_seed(3), 771);
}

#[test]
fn default_calendar_names() {
    let cadence = EpochCadence::default();
    assert_eq!(cadence.day_segments, vec!["Dawn", "Midday", "Dusk"]);
    assert_eq!(cadence.seasons, vec!["Flower Bloom", "Sunburst Peak", "Ashfall"]);
    assert_eq!(cadence.epoch_for_tick(4), ("Midday", "Sunburst Peak"));
}

#[test]
fn default_economy_phrases() {
    let economy = EconomyMetadata::default();
    assert_eq!(economy.circulation_cycle.len(), 5);
    assert_eq!(economy.stressors[2], "Currency Devaluation");
    assert_eq!(
        economy.catalysts,
        vec!["Temple Festival", "Explorer Breakthrough", "Guild Tariff Cut", "Union Harvest"]
    );
    assert_eq!(
        economy.pulse_for_tick(5),
        ("Explorer Breakthrough", "Guild Bidding", "Bandit Raid")
    );
}
