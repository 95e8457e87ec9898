//! World-level state: the clock, the space race stage, and bounded histories.

use vstd::prelude::*;

verus! {

/// Stages of the space age.
#[derive(Debug, Clone, Copy, PartialEq, Eq, Structural)]
pub enum SpaceStage {
    Moon,
    Mars,
    Jovian,
    Interstellar,
}

impl SpaceStage {
    pub open spec fn spec_label(self) -> Seq<char> {
        match self {
            SpaceStage::Moon => "Moon"@,
            SpaceStage::Mars => "Mars"@,
            SpaceStage::Jovian => "Jovian"@,
            SpaceStage::Interstellar => "Interstellar"@,
        }
    }

    /// Display name of the stage.
    pub fn label(&self) -> (res: &'static str)
        ensures
            res@ == self.spec_label(),
    {
        match self {
            SpaceStage::Moon => "Moon",
            SpaceStage::Mars => "Mars",
            SpaceStage::Jovian => "Jovian",
            SpaceStage::Interstellar => "Interstellar",
        }
    }
}

impl Default for SpaceStage {
    /// The race starts with the Moon.
    fn default() -> (res: Self)
        ensures
            res == SpaceStage::Moon,
    {
        SpaceStage::Moon
    }
}

/// The simulation clock, counted in ticks.
#[derive(Debug, Clone, Copy)]
pub struct WorldTime {
    pub tick: u64,
}

impl Default for WorldTime {
    /// The clock starts at tick zero.
    fn default() -> (res: Self)
        ensures
            res.tick == 0,
    {
        Self { tick: 0 }
    }
}

impl WorldTime {
    /// Moves the clock one tick forward, as each simulation step begins.
    pub fn advance(&mut self)
        requires
            old(self).tick < u64::MAX,
        ensures
            final(self).tick == old(self).tick + 1,
    {
        self.tick = self.tick + 1;
    }
}

/// Longest a chart history may grow before it is thinned.
pub const HISTORY_LIMIT: usize = 512;

/// Every other element of `s`, starting with the first.
pub open spec fn every_other<T>(s: Seq<T>) -> Seq<T> {
    Seq::new(((s.len() + 1) / 2) as nat, |i: int| s[2 * i])
}

/// The history after `value` is recorded: it is appended, and when the history
/// then exceeds `HISTORY_LIMIT` entries, every other entry is dropped, keeping
/// the first.
pub open spec fn history_pushed<T>(history: Seq<T>, value: T) -> Seq<T> {
    let s = history.push(value);
    if s.len() > HISTORY_LIMIT {
        every_other(s)
    } else {
        s
    }
}

/// Records a value in a chart history, thinning the history to every other entry
/// when it grows beyond `HISTORY_LIMIT`.
pub fn push_history<T: Copy>(history: &mut Vec<T>, value: T)
    ensures
        final(history)@ == history_pushed(old(history)@, value),
{
    history.push(value);
    if history.len() > HISTORY_LIMIT {
        let mut thinned: Vec<T> = Vec::new();
        let n: usize = history.len();
        let count: usize = n / 2 + n % 2;
        let mut k: usize = 0;
        while k < count
            invariant
                0 <= k <= count,
                count == (history@.len() + 1) / 2,
                2 * count <= history@.len() + 1,
                n == history@.len(),
                history@ == old(history)@.push(value),
                thinned@.len() == k,
                forall|j: int| 0 <= j < k ==> #[trigger] thinned@[j] == history@[2 * j],
            decreases count - k,
        {
            assert(2 * k < n);
            thinned.push(history[2 * k]);
            k = k + 1;
        }
        assert(thinned@ =~= every_other(history@));
        *history = thinned;
    }
}

/// Chart histories stay bounded and keep the newest value: recording into a
/// history of at most `HISTORY_LIMIT` entries leaves at most `HISTORY_LIMIT`
/// entries, the last of which is the recorded value.
pub proof fn law_history_bounded<T>(history: Seq<T>, value: T)
    requires
        history.len() <= HISTORY_LIMIT,
    ensures
        history_pushed(history, value).len() <= HISTORY_LIMIT,
        history_pushed(history, value).len() > 0,
        history_pushed(history, value).last() == value,
{
    let s = history.push(value);
    if s.len() > HISTORY_LIMIT {
        assert(s.len() == HISTORY_LIMIT + 1);
        assert(every_other(s).len() == 257);
        assert(every_other(s)[256] == s[512]);
    }
}

/// The window after `value` is appended and only the latest `limit` entries are kept.
pub open spec fn window_pushed<T>(history: Seq<T>, value: T, limit: nat) -> Seq<T> {
    let s = history.push(value);
    if s.len() > limit {
        s.subrange(s.len() - limit, s.len() as int)
    } else {
        s
    }
}

/// Appends a value to a sliding window, dropping the oldest entries beyond `limit`.
pub fn push_window<T>(history: &mut Vec<T>, value: T, limit: usize)
    ensures
        final(history)@ == window_pushed(old(history)@, value, limit as nat),
{
    history.push(value);
    if history.len() > limit {
        let excess = history.len() - limit;
        let ghost s = history@;
        let mut kept: Vec<T> = Vec::new();
        let mut rest = history.split_off(excess);
        proof {
            assert(rest@ =~= s.subrange(excess as int, s.len() as int));
        }
        std::mem::swap(&mut kept, &mut rest);
        *history = kept;
    }
}

/// Total population of the nations still standing, `(population, destroyed)` per
/// nation: the sum, saturated at `u64::MAX`.
pub open spec fn population_sum(nations: Seq<(u64, bool)>) -> int
    decreases nations.len(),
{
    if nations.len() == 0 {
        0
    } else {
        population_sum(nations.drop_last()) + if nations.last().1 {
            0
        } else {
            nations.last().0 as int
        }
    }
}

/// Total population of the nations not destroyed, given `(population, destroyed)`
/// per nation; the sum saturates at `u64::MAX`.
pub fn total_population(nations: &Vec<(u64, bool)>) -> (total: u64)
    ensures
        total == (if population_sum(nations@) > u64::MAX {
            u64::MAX as int
        } else {
            population_sum(nations@)
        }),
{
    let mut total: u64 = 0;
    let mut i: usize = 0;
    while i < nations.len()
        invariant
            0 <= i <= nations@.len(),
            total == (if population_sum(nations@.take(i as int)) > u64::MAX {
                u64::MAX as int
            } else {
                population_sum(nations@.take(i as int))
            }),
        decreases nations@.len() - i,
    {
        let (population, destroyed) = nations[i];
        if !destroyed {
            total = total.saturating_add(population);
        }
        assert(nations@.take(i + 1).drop_last() =~= nations@.take(i as int));
        proof {
            lemma_population_sum_nonneg(nations@.take(i as int));
        }
        i = i + 1;
    }
    assert(nations@.take(nations@.len() as int) =~= nations@);
    total
}

proof fn lemma_population_sum_nonneg(nations: Seq<(u64, bool)>)
    ensures
        population_sum(nations) >= 0,
    decreases nations.len(),
{
    if nations.len() > 0 {
        lemma_population_sum_nonneg(nations.drop_last());
    }
}

} // verus!
