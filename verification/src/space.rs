//! The space race: from the first Moon landing to interstellar settlement.

use vstd::prelude::*;

use crate::nation::Nation;
use crate::resources::SpaceStage;

verus! {

/// What the space race works on in a tick.
#[derive(Debug, Clone, Copy, PartialEq, Eq, Structural)]
pub enum SpacePhase {
    /// Nations race to land on the Moon.
    Lunar,
    /// The Moon's winner settles Mars.
    Mars,
    /// The Moon's winner reaches the Jovian moons.
    Jovian,
    /// The Moon's winner migrates to the stars.
    Interstellar,
    /// Nothing is left to do.
    Idle,
}

/// The milestones of the space race, without the progress measures.
#[derive(Debug, Clone, Copy)]
pub struct SpaceRace {
    pub moon_done: bool,
    pub mars_done: bool,
    pub jovian_done: bool,
    pub interstellar_mode: bool,
    pub finished: bool,
    pub space_stage: SpaceStage,
    pub winner: Option<Nation>,
}

impl SpaceRace {
    /// The phase the race is in: the Moon race until it is won, then whichever
    /// of Mars and the Jovian moons the stage names, then interstellar migration
    /// while it runs.
    pub open spec fn spec_phase(self) -> SpacePhase {
        if !self.moon_done {
            SpacePhase::Lunar
        } else if self.space_stage == SpaceStage::Mars {
            SpacePhase::Mars
        } else if self.space_stage == SpaceStage::Jovian {
            SpacePhase::Jovian
        } else if self.interstellar_mode {
            SpacePhase::Interstellar
        } else {
            SpacePhase::Idle
        }
    }

    /// The milestones agree with each other: each one is reached only after the
    /// one before, the stage names the next destination, and the race has a winner
    /// from the Moon landing on.
    pub open spec fn consistent(self) -> bool {
        &&& self.finished ==> self.jovian_done && !self.interstellar_mode
        &&& self.interstellar_mode ==> self.jovian_done
        &&& self.jovian_done ==> self.mars_done && self.space_stage == SpaceStage::Interstellar
        &&& self.mars_done ==> self.moon_done
        &&& self.moon_done <==> self.winner is Some
        &&& !self.moon_done ==> self.space_stage == SpaceStage::Moon
        &&& self.moon_done && !self.mars_done ==> self.space_stage == SpaceStage::Mars
        &&& self.mars_done && !self.jovian_done ==> self.space_stage == SpaceStage::Jovian
        &&& self.jovian_done ==> (self.interstellar_mode || self.finished)
    }

    /// The race before it starts: nothing reached, the Moon next, no winner.
    pub fn new() -> (res: Self)
        ensures
            res.consistent(),
            res.spec_phase() == SpacePhase::Lunar,
            !res.moon_done && !res.mars_done && !res.jovian_done,
            !res.interstellar_mode && !res.finished,
            res.space_stage == SpaceStage::Moon,
            res.winner is None,
    {
        SpaceRace {
            moon_done: false,
            mars_done: false,
            jovian_done: false,
            interstellar_mode: false,
            finished: false,
            space_stage: SpaceStage::Moon,
            winner: None,
        }
    }

    /// The phase the race is in.
    pub fn phase(&self) -> (res: SpacePhase)
        ensures
            res == self.spec_phase(),
    {
        if !self.moon_done {
            SpacePhase::Lunar
        } else if self.space_stage == SpaceStage::Mars {
            SpacePhase::Mars
        } else if self.space_stage == SpaceStage::Jovian {
            SpacePhase::Jovian
        } else if self.interstellar_mode {
            SpacePhase::Interstellar
        } else {
            SpacePhase::Idle
        }
    }

    /// The nation leading the space age: the Moon's winner, or Tera before anyone won.
    pub fn leader(&self) -> (res: Nation)
        ensures
            res == (match self.winner {
                Some(n) => n,
                None => Nation::Tera,
            }),
    {
        match self.winner {
            Some(n) => n,
            None => Nation::Tera,
        }
    }

    /// The Moon race is won by `winner`, who turns to Mars.
    pub fn land_on_moon(&mut self, winner: Nation)
        requires
            !old(self).moon_done,
        ensures
            *final(self) == (SpaceRace {
                moon_done: true,
                winner: Some(winner),
                space_stage: SpaceStage::Mars,
                ..*old(self)
            }),
    {
        self.moon_done = true;
        self.winner = Some(winner);
        self.space_stage = SpaceStage::Mars;
    }

    /// Mars is settled; the Jovian moons come next.
    pub fn complete_mars(&mut self)
        ensures
            *final(self) == (SpaceRace {
                mars_done: true,
                space_stage: SpaceStage::Jovian,
                ..*old(self)
            }),
    {
        self.mars_done = true;
        self.space_stage = SpaceStage::Jovian;
    }

    /// The Jovian moons are reached; interstellar migration begins.
    pub fn complete_jovian(&mut self)
        ensures
            *final(self) == (SpaceRace {
                jovian_done: true,
                space_stage: SpaceStage::Interstellar,
                interstellar_mode: true,
                ..*old(self)
            }),
    {
        self.jovian_done = true;
        self.space_stage = SpaceStage::Interstellar;
        self.interstellar_mode = true;
    }

    /// Interstellar settlement is complete; the race is over.
    pub fn complete_interstellar(&mut self)
        ensures
            *final(self) == (SpaceRace { interstellar_mode: false, finished: true, ..*old(self) }),
    {
        self.interstellar_mode = false;
        self.finished = true;
    }

    /// The peace dividend stops once the race is won and no migration runs.
    pub fn frozen(&self) -> (res: bool)
        ensures
            res == (!self.interstellar_mode && self.finished),
    {
        !self.interstellar_mode && self.finished
    }
}

/// The race after the goal of its current phase is reached: the Moon goes to
/// `winner`, and each later phase opens the next one; an idle race stays as it is.
pub open spec fn phase_completed(race: SpaceRace, winner: Nation) -> SpaceRace {
    match race.spec_phase() {
        SpacePhase::Lunar => SpaceRace {
            moon_done: true,
            winner: Some(winner),
            space_stage: SpaceStage::Mars,
            ..race
        },
        SpacePhase::Mars => SpaceRace { mars_done: true, space_stage: SpaceStage::Jovian, ..race },
        SpacePhase::Jovian => SpaceRace {
            jovian_done: true,
            space_stage: SpaceStage::Interstellar,
            interstellar_mode: true,
            ..race
        },
        SpacePhase::Interstellar => SpaceRace { interstellar_mode: false, finished: true, ..race },
        SpacePhase::Idle => race,
    }
}

/// The race after `n` phase goals are reached, the Moon going to `winner`.
pub open spec fn phases_completed(race: SpaceRace, winner: Nation, n: nat) -> SpaceRace
    decreases n,
{
    if n == 0 {
        race
    } else {
        phase_completed(phases_completed(race, winner, (n - 1) as nat), winner)
    }
}

/// Position of a phase in the race.
pub open spec fn phase_index(p: SpacePhase) -> int {
    match p {
        SpacePhase::Lunar => 0,
        SpacePhase::Mars => 1,
        SpacePhase::Jovian => 2,
        SpacePhase::Interstellar => 3,
        SpacePhase::Idle => 4,
    }
}

/// Reaching a phase's goal keeps the milestones consistent and moves the race
/// exactly one phase on, until it is idle, where it stays.
pub proof fn law_space_race_advances_in_order(race: SpaceRace, winner: Nation)
    requires
        race.consistent(),
    ensures
        phase_completed(race, winner).consistent(),
        race.spec_phase() != SpacePhase::Idle ==> phase_index(
            phase_completed(race, winner).spec_phase(),
        ) == phase_index(race.spec_phase()) + 1,
        race.spec_phase() == SpacePhase::Idle ==> phase_completed(race, winner) == race,
{
}

/// From the start, the race passes through the Moon, Mars, the Jovian moons and
/// interstellar migration, one phase per goal reached, and is finished and idle
/// after the fourth, with the Moon's winner as the leader for good.
pub proof fn law_space_race_finishes_after_four_phases(winner: Nation, n: nat)
    ensures
        ({
            let start = SpaceRace {
                moon_done: false,
                mars_done: false,
                jovian_done: false,
                interstellar_mode: false,
                finished: false,
                space_stage: SpaceStage::Moon,
                winner: None,
            };
            let after = phases_completed(start, winner, n);
            &&& after.consistent()
            &&& n <= 4 ==> phase_index(after.spec_phase()) == n
            &&& n >= 4 ==> after.finished && after.spec_phase() == SpacePhase::Idle
            &&& n >= 1 ==> after.winner == Some(winner)
        }),
    decreases n,
{
    if n > 0 {
        law_space_race_finishes_after_four_phases(winner, (n - 1) as nat);
        let start = SpaceRace {
            moon_done: false,
            mars_done: false,
            jovian_done: false,
            interstellar_mode: false,
            finished: false,
            space_stage: SpaceStage::Moon,
            winner: None,
        };
        law_space_race_advances_in_order(phases_completed(start, winner, (n - 1) as nat), winner);
    }
}

} // verus!
