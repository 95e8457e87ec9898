//! The five nations of the world.

use vstd::prelude::*;

use crate::localization::TermColor;

verus! {

/// A nation of the simulated world.
#[derive(Debug, Clone, Copy, PartialEq, Eq, Hash, Structural)]
pub enum Nation {
    Tera,
    Sora,
    Aqua,
    Solar,
    Luna,
}

/// Declaration order of a nation, starting at zero.
pub open spec fn nation_index(n: Nation) -> int {
    match n {
        Nation::Tera => 0,
        Nation::Sora => 1,
        Nation::Aqua => 2,
        Nation::Solar => 3,
        Nation::Luna => 4,
    }
}

impl Nation {
    /// Display name of the nation.
    pub open spec fn spec_name(self) -> Seq<char> {
        match self {
            Nation::Tera => "Tera"@,
            Nation::Sora => "Sora"@,
            Nation::Aqua => "Aqua"@,
            Nation::Solar => "Solar"@,
            Nation::Luna => "Luna"@,
        }
    }

    pub fn name(&self) -> (res: &'static str)
        ensures
            res@ == self.spec_name(),
    {
        match self {
            Nation::Tera => "Tera",
            Nation::Sora => "Sora",
            Nation::Aqua => "Aqua",
            Nation::Solar => "Solar",
            Nation::Luna => "Luna",
        }
    }

    pub open spec fn spec_logging_color(self) -> TermColor {
        match self {
            Nation::Tera => TermColor::Blue,
            Nation::Sora => TermColor::Red,
            Nation::Aqua => TermColor::Green,
            Nation::Solar => TermColor::Yellow,
            Nation::Luna => TermColor::White,
        }
    }

    /// Colour the nation is printed in.
    pub fn logging_color(&self) -> (res: TermColor)
        ensures
            res == self.spec_logging_color(),
    {
        match self {
            Nation::Tera => TermColor::Blue,
            Nation::Sora => TermColor::Red,
            Nation::Aqua => TermColor::Green,
            Nation::Solar => TermColor::Yellow,
            Nation::Luna => TermColor::White,
        }
    }

    /// Declaration order of the nation, the value `as u32` gives for it.
    pub fn ordinal(&self) -> (res: u32)
        ensures
            res == nation_index(*self),
    {
        match self {
            Nation::Tera => 0,
            Nation::Sora => 1,
            Nation::Aqua => 2,
            Nation::Solar => 3,
            Nation::Luna => 4,
        }
    }
}


/// The pair ordered by declaration order, the form in which unordered nation pairs
/// are used as keys.
pub open spec fn spec_ordered_pair(a: Nation, b: Nation) -> (Nation, Nation) {
    if nation_index(a) < nation_index(b) {
        (a, b)
    } else {
        (b, a)
    }
}

/// The pair ordered by declaration order.
pub fn ordered_pair(a: Nation, b: Nation) -> (res: (Nation, Nation))
    ensures
        res == spec_ordered_pair(a, b),
{
    if a.ordinal() < b.ordinal() {
        (a, b)
    } else {
        (b, a)
    }
}

/// Ordering a pair forgets which nation came first, and puts the pair in
/// declaration order.
pub proof fn law_ordered_pair_is_unordered(a: Nation, b: Nation)
    ensures
        spec_ordered_pair(a, b) == spec_ordered_pair(b, a),
        nation_index(spec_ordered_pair(a, b).0) <= nation_index(spec_ordered_pair(a, b).1),
        (spec_ordered_pair(a, b) == (a, b)) || (spec_ordered_pair(a, b) == (b, a)),
{
    if a != b {
        assert(nation_index(a) != nation_index(b));
    }
}

} // verus!
