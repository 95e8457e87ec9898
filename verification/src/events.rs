//! World events: their categories and the bounded log that keeps the latest ones.

use std::collections::VecDeque;
use vstd::prelude::*;

use crate::components::{BehaviorState, Biome, Faction};
use crate::localization::TermColor;
use crate::nation::Nation;

verus! {

/// Whether an event is good or bad news.
#[derive(Debug, Clone, Copy, PartialEq, Eq, Structural)]
pub enum Sentiment {
    Positive,
    Neutral,
    Negative,
}

/// The entity an event is about, with display labels.
#[derive(Debug, Clone)]
pub struct EventActor {
    pub id: u64,
    pub name: String,
    pub nation: Nation,
    pub faction: Faction,
    pub faction_label: String,
    pub biome: Biome,
    pub biome_label: String,
    pub behavior_hint: BehaviorState,
    pub behavior_hint_label: String,
}

/// The kinds of world events.
#[derive(Debug, Clone, Copy, PartialEq, Eq, Structural)]
pub enum WorldEventTag {
    Trade,
    Social,
    MacroShock,
    Warfare,
    EraShift,
    ScienceProgress,
    ScienceVictory,
    InterstellarProgress,
    InterstellarVictory,
}

impl WorldEventTag {
    pub open spec fn spec_category(self) -> Seq<char> {
        match self {
            WorldEventTag::Trade => "Trade"@,
            WorldEventTag::Social => "Social"@,
            WorldEventTag::MacroShock => "MacroShock"@,
            WorldEventTag::Warfare => "War"@,
            WorldEventTag::EraShift => "Era"@,
            WorldEventTag::ScienceProgress => "Science"@,
            WorldEventTag::ScienceVictory => "Science"@,
            WorldEventTag::InterstellarProgress => "Space"@,
            WorldEventTag::InterstellarVictory => "Space"@,
        }
    }

    /// The category an event of this kind is filed under.
    pub fn category(&self) -> (res: &'static str)
        ensures
            res@ == self.spec_category(),
    {
        match self {
            WorldEventTag::Trade => "Trade",
            WorldEventTag::Social => "Social",
            WorldEventTag::MacroShock => "MacroShock",
            WorldEventTag::Warfare => "War",
            WorldEventTag::EraShift => "Era",
            WorldEventTag::ScienceProgress => "Science",
            WorldEventTag::ScienceVictory => "Science",
            WorldEventTag::InterstellarProgress => "Space",
            WorldEventTag::InterstellarVictory => "Space",
        }
    }

    pub open spec fn spec_sentiment(self) -> Sentiment {
        match self {
            WorldEventTag::MacroShock => Sentiment::Negative,
            WorldEventTag::Warfare => Sentiment::Negative,
            _ => Sentiment::Positive,
        }
    }

    /// Shocks and wars are bad news; every other kind of event is good news.
    pub fn sentiment(&self) -> (res: Sentiment)
        ensures
            res == self.spec_sentiment(),
    {
        match self {
            WorldEventTag::Trade => Sentiment::Positive,
            WorldEventTag::Social => Sentiment::Positive,
            WorldEventTag::MacroShock => Sentiment::Negative,
            WorldEventTag::Warfare => Sentiment::Negative,
            WorldEventTag::EraShift => Sentiment::Positive,
            WorldEventTag::ScienceProgress => Sentiment::Positive,
            WorldEventTag::ScienceVictory => Sentiment::Positive,
            WorldEventTag::InterstellarProgress => Sentiment::Positive,
            WorldEventTag::InterstellarVictory => Sentiment::Positive,
        }
    }

    pub open spec fn spec_category_color(self) -> TermColor {
        match self {
            WorldEventTag::Trade => TermColor::BrightCyan,
            WorldEventTag::Social => TermColor::BrightMagenta,
            WorldEventTag::MacroShock => TermColor::BrightRed,
            WorldEventTag::Warfare => TermColor::Red,
            WorldEventTag::EraShift => TermColor::BrightBlue,
            WorldEventTag::ScienceProgress => TermColor::BrightCyan,
            WorldEventTag::ScienceVictory => TermColor::BrightCyan,
            WorldEventTag::InterstellarProgress => TermColor::White,
            WorldEventTag::InterstellarVictory => TermColor::White,
        }
    }

    /// Colour the category badge of an event of this kind is printed in.
    pub fn category_color(&self) -> (res: TermColor)
        ensures
            res == self.spec_category_color(),
    {
        match self {
            WorldEventTag::Trade => TermColor::BrightCyan,
            WorldEventTag::Social => TermColor::BrightMagenta,
            WorldEventTag::MacroShock => TermColor::BrightRed,
            WorldEventTag::Warfare => TermColor::Red,
            WorldEventTag::EraShift => TermColor::BrightBlue,
            WorldEventTag::ScienceProgress => TermColor::BrightCyan,
            WorldEventTag::ScienceVictory => TermColor::BrightCyan,
            WorldEventTag::InterstellarProgress => TermColor::White,
            WorldEventTag::InterstellarVictory => TermColor::White,
        }
    }
}

/// Whether two kinds of event belong together: the same kind, both science news
/// or both space news.
pub open spec fn same_news_family(a: WorldEventTag, b: WorldEventTag) -> bool {
    ||| a == b
    ||| (a is ScienceProgress || a is ScienceVictory) && (b is ScienceProgress || b is ScienceVictory)
    ||| (a is InterstellarProgress || a is InterstellarVictory) && (b is InterstellarProgress
        || b is InterstellarVictory)
}

/// Each kind of event is filed under a category of its own, except that science
/// progress and victory share one, as do interstellar progress and victory: two
/// kinds share a category exactly when they belong to the same family. In
/// particular only wars are filed under "War" and only macro shocks under
/// "MacroShock", and no category is empty.
pub proof fn law_categories_tell_kinds_apart(a: WorldEventTag, b: WorldEventTag)
    ensures
        a.spec_category() == b.spec_category() <==> same_news_family(a, b),
        a.spec_category() == "War"@ <==> a == WorldEventTag::Warfare,
        a.spec_category() == "MacroShock"@ <==> a == WorldEventTag::MacroShock,
        a.spec_category().len() > 0,
{
    reveal_strlit("Trade");
    reveal_strlit("Social");
    reveal_strlit("MacroShock");
    reveal_strlit("War");
    reveal_strlit("Era");
    reveal_strlit("Science");
    reveal_strlit("Space");
    assert("Trade"@[0] == 'T');
    assert("Social"@[0] == 'S' && "Social"@[1] == 'o');
    assert("MacroShock"@[0] == 'M');
    assert("War"@[0] == 'W');
    assert("Era"@[0] == 'E');
    assert("Science"@[0] == 'S' && "Science"@[1] == 'c');
    assert("Space"@[0] == 'S' && "Space"@[1] == 'p');
}

/// Only shocks and wars are bad news: an event is negative exactly when it is a
/// macro shock or a war, which are exactly the events filed under "MacroShock" and
/// "War"; every other event is positive, and none is neutral.
pub proof fn law_only_shocks_and_wars_are_bad_news(t: WorldEventTag)
    ensures
        t.spec_sentiment() == Sentiment::Negative <==> (t == WorldEventTag::MacroShock || t
            == WorldEventTag::Warfare),
        t.spec_sentiment() == Sentiment::Negative <==> (t.spec_category() == "MacroShock"@
            || t.spec_category() == "War"@),
        t.spec_sentiment() != Sentiment::Negative ==> t.spec_sentiment() == Sentiment::Positive,
{
    law_categories_tell_kinds_apart(t, t);
}

/// The log after `event` is appended to `events`: when the log is full (its length
/// has reached a capacity of at least one) the oldest event is dropped first.
pub open spec fn log_pushed<E>(events: Seq<E>, capacity: nat, event: E) -> Seq<E> {
    if events.len() == capacity && capacity > 0 {
        events.subrange(1, events.len() as int).push(event)
    } else {
        events.push(event)
    }
}

/// The log after `pushed` are appended, in order, to `events`.
pub open spec fn log_pushed_all<E>(events: Seq<E>, capacity: nat, pushed: Seq<E>) -> Seq<E>
    decreases pushed.len(),
{
    if pushed.len() == 0 {
        events
    } else {
        log_pushed(log_pushed_all(events, capacity, pushed.drop_last()), capacity, pushed.last())
    }
}

/// The most recent world events, oldest first, up to a capacity.
pub struct WorldEventLog<E> {
    events: VecDeque<E>,
    capacity: usize,
}

impl<E> View for WorldEventLog<E> {
    type V = Seq<E>;

    closed spec fn view(&self) -> Seq<E> {
        self.events@
    }
}

impl<E> WorldEventLog<E> {
    pub closed spec fn spec_capacity(&self) -> nat {
        self.capacity as nat
    }

    /// An empty log keeping up to `capacity` events.
    pub fn new(capacity: usize) -> (res: Self)
        ensures
            res@ == Seq::<E>::empty(),
            res.spec_capacity() == capacity,
    {
        WorldEventLog { events: VecDeque::with_capacity(capacity), capacity }
    }

    /// How many events the log keeps.
    pub fn capacity(&self) -> (res: usize)
        ensures
            res == self.spec_capacity(),
    {
        self.capacity
    }

    /// Number of events in the log.
    pub fn len(&self) -> (res: usize)
        ensures
            res == self@.len(),
    {
        self.events.len()
    }

    /// Appends an event, dropping the oldest one first when the log is full.
    pub fn push(&mut self, event: E)
        ensures
            final(self).spec_capacity() == old(self).spec_capacity(),
            final(self)@ == log_pushed(old(self)@, old(self).spec_capacity(), event),
    {
        if self.events.len() == self.capacity {
            self.events.pop_front();
        }
        self.events.push_back(event);
    }
}

impl<E: Clone> WorldEventLog<E> {
    /// Copies of the logged events, oldest first.
    pub fn snapshot(&self) -> (res: Vec<E>)
        ensures
            res@.len() == self@.len(),
            forall|i: int| 0 <= i < res@.len() ==> cloned(self@[i], #[trigger] res@[i]),
    {
        let mut res: Vec<E> = Vec::new();
        let mut i: usize = 0;
        while i < self.events.len()
            invariant
                0 <= i <= self@.len(),
                res@.len() == i,
                forall|k: int| 0 <= k < i ==> cloned(self@[k], #[trigger] res@[k]),
            decreases self@.len() - i,
        {
            let e = self.events[i].clone();
            res.push(e);
            i = i + 1;
        }
        res
    }
}

impl<E: Clone> WorldEventLog<E> {
    /// Copies of the `count` most recent events (all of them if there are fewer),
    /// newest first, as the world pulse lists them.
    pub fn recent(&self, count: usize) -> (res: Vec<E>)
        ensures
            res@.len() == (if count < self@.len() {
                count as int
            } else {
                self@.len() as int
            }),
            forall|i: int|
                0 <= i < res@.len() ==> cloned(self@[self@.len() - 1 - i], #[trigger] res@[i]),
    {
        let len = self.events.len();
        let take: usize = if count < len {
            count
        } else {
            len
        };
        let mut res: Vec<E> = Vec::new();
        let mut i: usize = 0;
        while i < take
            invariant
                0 <= i <= take,
                take <= len,
                len == self@.len(),
                res@.len() == i,
                forall|k: int| 0 <= k < i ==> cloned(self@[len - 1 - k], #[trigger] res@[k]),
            decreases take - i,
        {
            let e = self.events[len - 1 - i].clone();
            res.push(e);
            i = i + 1;
        }
        res
    }
}

impl<E> Default for WorldEventLog<E> {
    /// An empty log keeping the 256 latest events.
    fn default() -> (res: Self)
        ensures
            res@ == Seq::<E>::empty(),
            res.spec_capacity() == 256,
    {
        Self::new(256)
    }
}

/// The log keeps the latest events: starting from an empty log with a capacity of
/// at least one, after any sequence of pushes the log holds exactly the last
/// `capacity` events pushed (all of them if fewer), oldest first.
pub proof fn law_log_keeps_latest<E>(capacity: nat, pushed: Seq<E>)
    requires
        capacity >= 1,
    ensures
        log_pushed_all(Seq::<E>::empty(), capacity, pushed) == (if pushed.len() <= capacity {
            pushed
        } else {
            pushed.subrange(pushed.len() - capacity, pushed.len() as int)
        }),
    decreases pushed.len(),
{
    if pushed.len() > 0 {
        let init = pushed.drop_last();
        law_log_keeps_latest(capacity, init);
        let prev = log_pushed_all(Seq::<E>::empty(), capacity, init);
        if init.len() < capacity {
            assert(prev == init);
            assert(init.push(pushed.last()) =~= pushed);
        } else if init.len() == capacity {
            assert(prev == init);
            assert(init.subrange(1, init.len() as int).push(pushed.last()) =~= pushed.subrange(
                pushed.len() - capacity,
                pushed.len() as int,
            ));
        } else {
            assert(prev.len() == capacity);
            assert(prev.subrange(1, prev.len() as int).push(pushed.last()) =~= pushed.subrange(
                pushed.len() - capacity,
                pushed.len() as int,
            ));
        }
    } else {
        assert(pushed =~= Seq::<E>::empty());
    }
}

} // verus!
