//! Verified core of the TERA civilization simulation: nations, the hex map,
//! fallout, wars, eras and technologies, the event log and the calendar.

pub mod blocs;
pub mod components;
pub mod demography;
pub mod events;
pub mod grid;
pub mod localization;
pub mod nation;
pub mod nuclear;
pub mod resources;
pub mod rng;
pub mod space;
pub mod technology;
pub mod warfare;
pub mod world;

pub use blocs::BlocKind;
pub use components::{
    combat_cleanup_system, Behavior, BehaviorState, Biome, Combatants, Faction, GoalKind, Identity,
    InCombat, ItemKind, ItemStack,
};
pub use events::{EventActor, Sentiment, WorldEventLog, WorldEventTag};
pub use grid::{
    axial_distance, default_continent_centers, distance, hex_ball, land_coords, pentagon_centers,
    AxialCoord,
};
pub use localization::{
    behavior_color, behavior_label, faction_color, faction_label, format_number_commas, goal_label,
    sentiment_color, sentiment_label, TermColor,
};
pub use nation::{ordered_pair, Nation};
pub use nuclear::{mark_nuclear_blast, nuclear_decay_system, NuclearBlasts};
pub use resources::{push_history, push_window, total_population, SpaceStage, WorldTime};
pub use rng::{ai_rng, civilization_rng, economy_rng, warfare_rng};
pub use space::{SpacePhase, SpaceRace};
pub use technology::{unlock_techs, Era, Tech, WeaponTier};
pub use warfare::{
    alliance_join_requests, border_hexes, nuclear_strike, war_casualties, BattleRequest,
    NationPairSet,
};
pub use world::{engine_grid_radius, engine_tick_steps, EconomyMetadata, EpochCadence};
