//! The world's calendar and economic narrative, and the settings the engine accepts.

use vstd::prelude::*;

verus! {

/// Phrases that narrate the world economy.
#[derive(Debug, Clone)]
pub struct EconomyMetadata {
    pub circulation_cycle: Vec<&'static str>,
    pub stressors: Vec<&'static str>,
    pub catalysts: Vec<&'static str>,
}

/// The calendar: every tick is one segment of a day, and a season lasts one full
/// round of day segments.
#[derive(Debug, Clone)]
pub struct EpochCadence {
    pub day_segments: Vec<&'static str>,
    pub seasons: Vec<&'static str>,
}

impl EpochCadence {
    /// The calendar can be read: it names at least one day segment and one season.
    pub open spec fn readable(&self) -> bool {
        &&& self.day_segments@.len() > 0
        &&& self.seasons@.len() > 0
    }

    /// Day segment of a tick.
    pub open spec fn spec_day_segment(&self, tick: u64) -> &'static str {
        self.day_segments@[(tick as usize) as int % self.day_segments@.len() as int]
    }

    /// Season of a tick.
    pub open spec fn spec_season(&self, tick: u64) -> &'static str {
        self.seasons@[((tick / (self.day_segments@.len() as u64) as u64) as usize) as int
            % self.seasons@.len() as int]
    }

    /// The day segment and season of a tick: segments cycle every tick, and the
    /// season advances after each full cycle of segments.
    pub fn epoch_for_tick(&self, tick: u64) -> (res: (&'static str, &'static str))
        requires
            self.readable(),
        ensures
            res.0 == self.spec_day_segment(tick),
            res.1 == self.spec_season(tick),
    {
        let segments = self.day_segments.len();
        let day_segment = self.day_segments[(tick as usize) % segments];
        let season = self.seasons[((tick / segments as u64) as usize) % self.seasons.len()];
        (day_segment, season)
    }
}

/// The calendar repeats: on a platform where ticks fit in `usize`, a tick and the
/// tick one full year later (every segment of every season) fall on the same day
/// segment and season.
pub proof fn law_calendar_repeats_yearly(cadence: EpochCadence, tick: u64)
    requires
        cadence.readable(),
        tick + cadence.day_segments@.len() * cadence.seasons@.len() <= usize::MAX,
        tick + cadence.day_segments@.len() * cadence.seasons@.len() <= u64::MAX,
    ensures
        ({
            let later = (tick + cadence.day_segments@.len() * cadence.seasons@.len()) as u64;
            cadence.spec_day_segment(later) == cadence.spec_day_segment(tick)
                && cadence.spec_season(later) == cadence.spec_season(tick)
        }),
{
    let d = cadence.day_segments@.len() as int;
    let s = cadence.seasons@.len() as int;
    let t = tick as int;
    let q = t / d;
    let r = t % d;
    vstd::arithmetic::div_mod::lemma_fundamental_div_mod(t, d);
    assert(d * (q + s) == d * q + d * s) by (nonlinear_arith);
    let later = d * (q + s) + r;
    assert(later == t + d * s);
    vstd::arithmetic::div_mod::lemma_div_multiples_vanish_fancy(q + s, r, d);
    vstd::arithmetic::div_mod::lemma_mod_multiples_vanish(q + s, r, d);
    vstd::arithmetic::div_mod::lemma_small_mod(r as nat, d as nat);
    vstd::arithmetic::div_mod::lemma_mod_multiples_vanish(1, q, s);
    assert(later % d == t % d);
    assert(later / d == q + s);
    assert((q + s) % s == q % s);
    let lu = (tick + cadence.day_segments@.len() * cadence.seasons@.len()) as u64;
    assert(lu as int == later);
    assert((lu as usize) as int == later);
    assert((tick as usize) as int == t);
    assert(d <= d * s) by (nonlinear_arith)
        requires
            d > 0,
            s > 0,
    ;
    assert((cadence.day_segments@.len() as u64) as int == d);
    assert((lu / (cadence.day_segments@.len() as u64)) as int == q + s);
    assert((tick / (cadence.day_segments@.len() as u64)) as int == q);
    assert(((lu / (cadence.day_segments@.len() as u64)) as usize) as int == q + s);
    assert(((tick / (cadence.day_segments@.len() as u64)) as usize) as int == q);
}

/// A season lasts one full round of day segments: on a platform where the tick fits
/// in `usize`, tick `r` of day `k` (counting from zero, `r` below the number of day
/// segments) falls on the `r`-th day segment and on the season of day `k`, the
/// seasons taking turns day by day; so all ticks of one day share a season.
pub proof fn law_season_lasts_a_day(cadence: EpochCadence, k: u64, r: u64)
    requires
        cadence.readable(),
        r < cadence.day_segments@.len() <= usize::MAX,
        k * cadence.day_segments@.len() + r <= u64::MAX,
        k * cadence.day_segments@.len() + r <= usize::MAX,
    ensures
        ({
            let d = cadence.day_segments@.len() as int;
            let tick = (k * d + r) as u64;
            let first = (k * d) as u64;
            &&& cadence.spec_day_segment(tick) == cadence.day_segments@[r as int]
            &&& cadence.spec_season(tick) == cadence.seasons@[(k as int) % (cadence.seasons@.len() as int)]
            &&& cadence.spec_season(tick) == cadence.spec_season(first)
            &&& cadence.spec_day_segment(first) == cadence.day_segments@[0]
        }),
{
    let d = cadence.day_segments@.len() as int;
    let t = k * d + r;
    assert(0 <= k * d <= t) by (nonlinear_arith)
        requires
            d > 0,
            t == k * d + r,
            r >= 0,
            k >= 0,
    ;
    vstd::arithmetic::div_mod::lemma_fundamental_div_mod_converse(t, d, k as int, r as int);
    vstd::arithmetic::div_mod::lemma_fundamental_div_mod_converse(k * d, d, k as int, 0);
    let du = cadence.day_segments@.len() as u64;
    assert(du as int == d);
    let tick = t as u64;
    let first = (k * d) as u64;
    assert(tick as int == t);
    assert(first as int == k * d);
    assert((tick as usize) as int == t);
    assert((first as usize) as int == k * d);
    assert((tick / du) as int == k);
    assert((first / du) as int == k);
    assert(((tick / du) as usize) as int == k);
    assert(((first / du) as usize) as int == k);
}

impl EconomyMetadata {
    /// The phrases can be read: each list names at least one phrase.
    pub open spec fn readable(&self) -> bool {
        &&& self.circulation_cycle@.len() > 0
        &&& self.stressors@.len() > 0
        &&& self.catalysts@.len() > 0
    }

    /// The catalyst of a tick, and the circulation stage and stressor reported with it.
    pub open spec fn spec_pulse(&self, tick: u64) -> (&'static str, &'static str, &'static str) {
        let index = (tick as usize) as int % self.catalysts@.len() as int;
        (
            self.catalysts@[index],
            self.circulation_cycle@[index % self.circulation_cycle@.len() as int],
            self.stressors@[index % self.stressors@.len() as int],
        )
    }

    /// The phrases the world pulse reports at a tick: the catalysts rotate one per
    /// tick, and the circulation stage and stressor follow the catalyst's position.
    pub fn pulse_for_tick(&self, tick: u64) -> (res: (&'static str, &'static str, &'static str))
        requires
            self.readable(),
        ensures
            res == self.spec_pulse(tick),
    {
        let index = (tick as usize) % self.catalysts.len();
        let catalyst = self.catalysts[index];
        let circulation = self.circulation_cycle[index % self.circulation_cycle.len()];
        let stressor = self.stressors[index % self.stressors.len()];
        (catalyst, circulation, stressor)
    }
}

/// The text of each phrase of a list.
pub open spec fn phrase_texts(phrases: Seq<&'static str>) -> Seq<Seq<char>> {
    phrases.map_values(|p: &'static str| p@)
}

impl Default for EpochCadence {
    /// The world's calendar: three day segments (Dawn, Midday, Dusk) and three
    /// seasons (Flower Bloom, Sunburst Peak, Ashfall).
    fn default() -> (res: Self)
        ensures
            res.readable(),
            phrase_texts(res.day_segments@) == seq!["Dawn"@, "Midday"@, "Dusk"@],
            phrase_texts(res.seasons@) == seq!["Flower Bloom"@, "Sunburst Peak"@, "Ashfall"@],
    {
        let res = EpochCadence {
            day_segments: vec!["Dawn", "Midday", "Dusk"],
            seasons: vec!["Flower Bloom", "Sunburst Peak", "Ashfall"],
        };
        assert(phrase_texts(res.day_segments@) =~= seq!["Dawn"@, "Midday"@, "Dusk"@]);
        assert(phrase_texts(res.seasons@) =~= seq![
            "Flower Bloom"@,
            "Sunburst Peak"@,
            "Ashfall"@,
        ]);
        res
    }
}

impl Default for EconomyMetadata {
    /// The world's economic narrative: five circulation stages, five stressors and
    /// four catalysts.
    fn default() -> (res: Self)
        ensures
            res.readable(),
            phrase_texts(res.circulation_cycle@) == seq![
                "Market Auction"@,
                "Guild Bidding"@,
                "Village Services"@,
                "Desert Expedition"@,
                "Market Reflux"@,
            ],
            phrase_texts(res.stressors@) == seq![
                "Drought Pressure"@,
                "Bandit Raid"@,
                "Currency Devaluation"@,
                "Relic Shortage"@,
                "Plague Spread"@,
            ],
            phrase_texts(res.catalysts@) == seq![
                "Temple Festival"@,
                "Explorer Breakthrough"@,
                "Guild Tariff Cut"@,
                "Union Harvest"@,
            ],
    {
        let res = EconomyMetadata {
            circulation_cycle: vec![
                "Market Auction",
                "Guild Bidding",
                "Village Services",
                "Desert Expedition",
                "Market Reflux",
            ],
            stressors: vec![
                "Drought Pressure",
                "Bandit Raid",
                "Currency Devaluation",
                "Relic Shortage",
                "Plague Spread",
            ],
            catalysts: vec![
                "Temple Festival",
                "Explorer Breakthrough",
                "Guild Tariff Cut",
                "Union Harvest",
            ],
        };
        assert(phrase_texts(res.circulation_cycle@) =~= seq![
            "Market Auction"@,
            "Guild Bidding"@,
            "Village Services"@,
            "Desert Expedition"@,
            "Market Reflux"@,
        ]);
        assert(phrase_texts(res.stressors@) =~= seq![
            "Drought Pressure"@,
            "Bandit Raid"@,
            "Currency Devaluation"@,
            "Relic Shortage"@,
            "Plague Spread"@,
        ]);
        assert(phrase_texts(res.catalysts@) =~= seq![
            "Temple Festival"@,
            "Explorer Breakthrough"@,
            "Guild Tariff Cut"@,
            "Union Harvest"@,
        ]);
        res
    }
}

/// Smallest map radius the engine accepts.
pub const MIN_GRID_RADIUS: i32 = 4;

/// Largest map radius the engine accepts.
pub const MAX_GRID_RADIUS: i32 = 24;

/// Most simulation steps one request may run.
pub const MAX_TICK_STEPS: u32 = 500;

/// The map radius the engine builds for a requested radius: the request brought
/// into `MIN_GRID_RADIUS..=MAX_GRID_RADIUS`.
pub fn engine_grid_radius(requested: i32) -> (radius: i32)
    ensures
        radius == (if requested < MIN_GRID_RADIUS {
            MIN_GRID_RADIUS
        } else if requested > MAX_GRID_RADIUS {
            MAX_GRID_RADIUS
        } else {
            requested
        }),
{
    if requested < MIN_GRID_RADIUS {
        MIN_GRID_RADIUS
    } else if requested > MAX_GRID_RADIUS {
        MAX_GRID_RADIUS
    } else {
        requested
    }
}

/// The number of steps the engine runs for a request: at least one, at most
/// `MAX_TICK_STEPS`.
pub fn engine_tick_steps(requested: u32) -> (steps: u32)
    ensures
        steps == (if requested < 1 {
            1
        } else if requested > MAX_TICK_STEPS {
            MAX_TICK_STEPS
        } else {
            requested
        }),
{
    if requested < 1 {
        1
    } else if requested > MAX_TICK_STEPS {
        MAX_TICK_STEPS
    } else {
        requested
    }
}

} // verus!
