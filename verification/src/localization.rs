//! Display labels, terminal colours and number formatting.

use vstd::prelude::*;

use crate::components::{BehaviorState, Faction, GoalKind};
use crate::events::Sentiment;

verus! {

/// Terminal colours used when the world pulse is printed.
#[derive(Debug, Clone, Copy, PartialEq, Eq, Hash, Structural)]
pub enum TermColor {
    Black,
    Red,
    Green,
    Yellow,
    Blue,
    Magenta,
    Cyan,
    White,
    BrightBlack,
    BrightRed,
    BrightGreen,
    BrightYellow,
    BrightBlue,
    BrightMagenta,
    BrightCyan,
    BrightWhite,
}

pub open spec fn spec_behavior_label(state: BehaviorState) -> Seq<char> {
    match state {
        BehaviorState::Idle => "Idle"@,
        BehaviorState::Explore => "Explore"@,
        BehaviorState::Gather => "Gather"@,
        BehaviorState::Trade => "Trade"@,
        BehaviorState::Hunt => "Hunt"@,
        BehaviorState::Rest => "Rest"@,
    }
}

/// Display name of an activity.
pub fn behavior_label(state: BehaviorState) -> (res: &'static str)
    ensures
        res@ == spec_behavior_label(state),
{
    match state {
        BehaviorState::Idle => "Idle",
        BehaviorState::Explore => "Explore",
        BehaviorState::Gather => "Gather",
        BehaviorState::Trade => "Trade",
        BehaviorState::Hunt => "Hunt",
        BehaviorState::Rest => "Rest",
    }
}

pub open spec fn spec_faction_label(faction: Faction) -> Seq<char> {
    match faction {
        Faction::Neutral => "Neutral Alliance"@,
        Faction::MerchantGuild => "Merchant Guild"@,
        Faction::BanditClans => "Bandit Clans"@,
        Faction::ExplorersLeague => "Explorers League"@,
        Faction::SettlersUnion => "Settlers Union"@,
        Faction::TempleOfSuns => "Temple of Suns"@,
    }
}

/// Display name of a faction.
pub fn faction_label(faction: Faction) -> (res: &'static str)
    ensures
        res@ == spec_faction_label(faction),
{
    match faction {
        Faction::Neutral => "Neutral Alliance",
        Faction::MerchantGuild => "Merchant Guild",
        Faction::BanditClans => "Bandit Clans",
        Faction::ExplorersLeague => "Explorers League",
        Faction::SettlersUnion => "Settlers Union",
        Faction::TempleOfSuns => "Temple of Suns",
    }
}

pub open spec fn spec_behavior_color(state: BehaviorState) -> TermColor {
    match state {
        BehaviorState::Idle => TermColor::BrightBlack,
        BehaviorState::Explore => TermColor::BrightBlue,
        BehaviorState::Gather => TermColor::BrightGreen,
        BehaviorState::Trade => TermColor::BrightCyan,
        BehaviorState::Hunt => TermColor::BrightRed,
        BehaviorState::Rest => TermColor::Magenta,
    }
}

/// Colour an activity is printed in.
pub fn behavior_color(state: BehaviorState) -> (res: TermColor)
    ensures
        res == spec_behavior_color(state),
{
    match state {
        BehaviorState::Idle => TermColor::BrightBlack,
        BehaviorState::Explore => TermColor::BrightBlue,
        BehaviorState::Gather => TermColor::BrightGreen,
        BehaviorState::Trade => TermColor::BrightCyan,
        BehaviorState::Hunt => TermColor::BrightRed,
        BehaviorState::Rest => TermColor::Magenta,
    }
}

pub open spec fn spec_faction_color(faction: Faction) -> TermColor {
    match faction {
        Faction::Neutral => TermColor::White,
        Faction::MerchantGuild => TermColor::BrightYellow,
        Faction::BanditClans => TermColor::Red,
        Faction::ExplorersLeague => TermColor::Blue,
        Faction::SettlersUnion => TermColor::Green,
        Faction::TempleOfSuns => TermColor::Magenta,
    }
}

/// Colour a faction is printed in.
pub fn faction_color(faction: Faction) -> (res: TermColor)
    ensures
        res == spec_faction_color(faction),
{
    match faction {
        Faction::Neutral => TermColor::White,
        Faction::MerchantGuild => TermColor::BrightYellow,
        Faction::BanditClans => TermColor::Red,
        Faction::ExplorersLeague => TermColor::Blue,
        Faction::SettlersUnion => TermColor::Green,
        Faction::TempleOfSuns => TermColor::Magenta,
    }
}

pub open spec fn spec_sentiment_label(sentiment: Sentiment) -> Seq<char> {
    match sentiment {
        Sentiment::Positive => "Positive"@,
        Sentiment::Neutral => "Neutral"@,
        Sentiment::Negative => "Negative"@,
    }
}

/// Display name of a sentiment.
pub fn sentiment_label(sentiment: Sentiment) -> (res: &'static str)
    ensures
        res@ == spec_sentiment_label(sentiment),
{
    match sentiment {
        Sentiment::Positive => "Positive",
        Sentiment::Neutral => "Neutral",
        Sentiment::Negative => "Negative",
    }
}

pub open spec fn spec_sentiment_color(sentiment: Sentiment) -> TermColor {
    match sentiment {
        Sentiment::Positive => TermColor::BrightGreen,
        Sentiment::Neutral => TermColor::Yellow,
        Sentiment::Negative => TermColor::BrightRed,
    }
}

/// Colour a sentiment is printed in.
pub fn sentiment_color(sentiment: Sentiment) -> (res: TermColor)
    ensures
        res == spec_sentiment_color(sentiment),
{
    match sentiment {
        Sentiment::Positive => TermColor::BrightGreen,
        Sentiment::Neutral => TermColor::Yellow,
        Sentiment::Negative => TermColor::BrightRed,
    }
}

pub open spec fn spec_goal_label(goal: GoalKind) -> Seq<char> {
    match goal {
        GoalKind::Wealth => "Wealth"@,
        GoalKind::Glory => "Glory"@,
        GoalKind::Survival => "Survival"@,
        GoalKind::Influence => "Influence"@,
    }
}

/// Display name of a goal, as missions are announced.
pub fn goal_label(goal: GoalKind) -> (res: &'static str)
    ensures
        res@ == spec_goal_label(goal),
{
    match goal {
        GoalKind::Wealth => "Wealth",
        GoalKind::Glory => "Glory",
        GoalKind::Survival => "Survival",
        GoalKind::Influence => "Influence",
    }
}

/// The decimal digit `d`.
pub open spec fn digit_char(d: int) -> char {
    if d == 0 {
        '0'
    } else if d == 1 {
        '1'
    } else if d == 2 {
        '2'
    } else if d == 3 {
        '3'
    } else if d == 4 {
        '4'
    } else if d == 5 {
        '5'
    } else if d == 6 {
        '6'
    } else if d == 7 {
        '7'
    } else if d == 8 {
        '8'
    } else {
        '9'
    }
}

/// Decimal notation of `n`, without leading zeros.
pub open spec fn decimal(n: nat) -> Seq<char>
    decreases n,
{
    if n < 10 {
        seq![digit_char(n as int)]
    } else {
        decimal(n / 10).push(digit_char((n % 10) as int))
    }
}

/// The three decimal digits of `m < 1000`, with leading zeros.
pub open spec fn three_digits(m: nat) -> Seq<char> {
    seq![digit_char((m / 100) as int), digit_char(((m / 10) % 10) as int), digit_char((m % 10) as int)]
}

/// Decimal notation of `n` with a comma between groups of three digits, counted
/// from the right.
pub open spec fn with_commas(n: nat) -> Seq<char>
    decreases n,
{
    if n < 1000 {
        decimal(n)
    } else {
        with_commas(n / 1000) + seq![','] + three_digits(n % 1000)
    }
}

/// `s` with every comma taken out.
pub open spec fn strip_commas(s: Seq<char>) -> Seq<char>
    decreases s.len(),
{
    if s.len() == 0 {
        s
    } else if s.last() == ',' {
        strip_commas(s.drop_last())
    } else {
        strip_commas(s.drop_last()).push(s.last())
    }
}

/// The string holding the single digit `d`.
fn digit_str(d: u64) -> (res: &'static str)
    requires
        d < 10,
    ensures
        res@ == seq![digit_char(d as int)],
{
    proof {
        reveal_strlit("0");
        reveal_strlit("1");
        reveal_strlit("2");
        reveal_strlit("3");
        reveal_strlit("4");
        reveal_strlit("5");
        reveal_strlit("6");
        reveal_strlit("7");
        reveal_strlit("8");
        reveal_strlit("9");
    }
    let res = if d == 0 {
        "0"
    } else if d == 1 {
        "1"
    } else if d == 2 {
        "2"
    } else if d == 3 {
        "3"
    } else if d == 4 {
        "4"
    } else if d == 5 {
        "5"
    } else if d == 6 {
        "6"
    } else if d == 7 {
        "7"
    } else if d == 8 {
        "8"
    } else {
        "9"
    };
    assert(res@ =~= seq![digit_char(d as int)]);
    res
}

/// Appends the decimal notation of `n`.
fn append_decimal(out: &mut String, n: u64)
    ensures
        final(out)@ == old(out)@ + decimal(n as nat),
    decreases n,
{
    if n >= 10 {
        append_decimal(out, n / 10);
    }
    out.append(digit_str(n % 10));
    if n >= 10 {
        assert(old(out)@ + decimal((n / 10) as nat) + seq![digit_char((n % 10) as int)]
            =~= old(out)@ + decimal(n as nat));
    } else {
        assert(old(out)@ + seq![digit_char((n % 10) as int)] =~= old(out)@ + decimal(n as nat));
    }
}

/// Appends the decimal notation of `n` with commas between groups of three digits.
fn append_with_commas(out: &mut String, n: u64)
    ensures
        final(out)@ == old(out)@ + with_commas(n as nat),
    decreases n,
{
    if n < 1000 {
        append_decimal(out, n);
    } else {
        append_with_commas(out, n / 1000);
        proof {
            reveal_strlit(",");
        }
        out.append(",");
        let m = n % 1000;
        out.append(digit_str(m / 100));
        out.append(digit_str((m / 10) % 10));
        out.append(digit_str(m % 10));
        assert(final(out)@ =~= old(out)@ + with_commas(n as nat));
    }
}

/// The decimal notation of `n` with a comma between groups of three digits,
/// counted from the right: `1234567` gives `"1,234,567"`.
pub fn format_number_commas(n: u64) -> (res: String)
    ensures
        res@ == with_commas(n as nat),
{
    let mut out = String::new();
    append_with_commas(&mut out, n);
    assert(out@ =~= with_commas(n as nat));
    out
}

proof fn lemma_strip_commas_concat(a: Seq<char>, b: Seq<char>)
    ensures
        strip_commas(a + b) == strip_commas(a) + strip_commas(b),
    decreases b.len(),
{
    if b.len() == 0 {
        assert(a + b =~= a);
        assert(strip_commas(a) + strip_commas(b) =~= strip_commas(a));
    } else {
        lemma_strip_commas_concat(a, b.drop_last());
        assert((a + b).drop_last() =~= a + b.drop_last());
        assert((a + b).last() == b.last());
        if b.last() == ',' {
        } else {
            assert(strip_commas(a) + strip_commas(b) =~= (strip_commas(a) + strip_commas(
                b.drop_last(),
            )).push(b.last()));
        }
    }
}

proof fn lemma_digit_not_comma(d: int)
    ensures
        digit_char(d) != ',',
{
}

proof fn lemma_decimal_has_no_commas(n: nat)
    ensures
        strip_commas(decimal(n)) == decimal(n),
    decreases n,
{
    lemma_digit_not_comma(n as int);
    lemma_digit_not_comma((n % 10) as int);
    if n < 10 {
        assert(decimal(n).drop_last() =~= Seq::<char>::empty());
        assert(strip_commas(Seq::<char>::empty()) =~= Seq::<char>::empty());
        assert(strip_commas(decimal(n)) =~= Seq::<char>::empty().push(digit_char(n as int)));
    } else {
        lemma_decimal_has_no_commas(n / 10);
        assert(decimal(n).drop_last() =~= decimal(n / 10));
    }
}

proof fn lemma_decimal_split(n: nat)
    requires
        n >= 1000,
    ensures
        decimal(n) == decimal(n / 1000) + three_digits(n % 1000),
{
    let m = n % 1000;
    assert(n / 10 >= 100 && (n / 10) / 10 == n / 100 && (n / 100) / 10 == n / 1000) by (nonlinear_arith)
        requires
            n >= 1000,
    ;
    assert(n / 100 >= 10) by (nonlinear_arith)
        requires
            n >= 1000,
    ;
    assert((n / 100) % 10 == m / 100 && (n / 10) % 10 == (m / 10) % 10 && n % 10 == m % 10)
        by (nonlinear_arith)
        requires
            m == n % 1000,
    ;
    let n10 = n / 10;
    let n100 = n / 100;
    assert(decimal(n) == decimal(n10).push(digit_char((n % 10) as int)));
    assert(decimal(n10) == decimal(n10 / 10).push(digit_char((n10 % 10) as int)));
    assert(decimal(n100) == decimal(n100 / 10).push(digit_char((n100 % 10) as int)));
    assert(decimal(n) =~= decimal(n / 1000) + three_digits(m));
}

/// Formatting keeps the number: taking the commas out of `format_number_commas(n)`
/// leaves the plain decimal notation of `n`, and a comma never comes first.
pub proof fn law_commas_keep_digits(n: nat)
    ensures
        strip_commas(with_commas(n)) == decimal(n),
        with_commas(n).len() > 0,
        with_commas(n)[0] != ',',
    decreases n,
{
    if n < 1000 {
        lemma_decimal_has_no_commas(n);
        reveal_with_fuel(decimal, 4);
        assert(decimal(n).len() > 0);
        lemma_digit_not_comma(decimal(n)[0] as int);
        if n >= 10 {
            lemma_decimal_first(n);
        }
    } else {
        law_commas_keep_digits(n / 1000);
        let head = with_commas(n / 1000);
        let tail = three_digits(n % 1000);
        lemma_strip_commas_concat(head + seq![','], tail);
        lemma_strip_commas_concat(head, seq![',']);
        reveal_with_fuel(strip_commas, 5);
        let comma: Seq<char> = seq![','];
        assert(comma.last() == ',');
        assert(comma.drop_last() =~= Seq::<char>::empty());
        assert(strip_commas(comma) =~= Seq::<char>::empty());
        lemma_digit_not_comma(((n % 1000) / 100) as int);
        lemma_digit_not_comma((((n % 1000) / 10) % 10) as int);
        lemma_digit_not_comma(((n % 1000) % 10) as int);
        assert(tail.drop_last() =~= seq![digit_char(((n % 1000) / 100) as int), digit_char(
            (((n % 1000) / 10) % 10) as int,
        )]);
        assert(tail.drop_last().drop_last() =~= seq![digit_char(((n % 1000) / 100) as int)]);
        assert(tail.drop_last().drop_last().drop_last() =~= Seq::<char>::empty());
        assert(strip_commas(tail) =~= tail);
        lemma_decimal_split(n);
        assert(with_commas(n) =~= head + seq![','] + tail);
        assert(strip_commas(head) + Seq::<char>::empty() =~= strip_commas(head));
        assert(with_commas(n)[0] == head[0]);
    }
}

proof fn lemma_decimal_first(n: nat)
    ensures
        decimal(n).len() > 0,
        decimal(n)[0] != ',',
    decreases n,
{
    if n >= 10 {
        lemma_decimal_first(n / 10);
        assert(decimal(n)[0] == decimal(n / 10)[0]);
    }
}

/// Number of commas in `s`.
pub open spec fn comma_count(s: Seq<char>) -> nat
    decreases s.len(),
{
    if s.len() == 0 {
        0
    } else {
        comma_count(s.drop_last()) + if s.last() == ',' {
            1nat
        } else {
            0nat
        }
    }
}

proof fn lemma_comma_count_concat(a: Seq<char>, b: Seq<char>)
    ensures
        comma_count(a + b) == comma_count(a) + comma_count(b),
    decreases b.len(),
{
    if b.len() == 0 {
        assert(a + b =~= a);
    } else {
        lemma_comma_count_concat(a, b.drop_last());
        assert((a + b).drop_last() =~= a + b.drop_last());
        assert((a + b).last() == b.last());
    }
}

proof fn lemma_no_commas_count(s: Seq<char>)
    requires
        forall|i: int| 0 <= i < s.len() ==> s[i] != ',',
    ensures
        comma_count(s) == 0,
    decreases s.len(),
{
    if s.len() > 0 {
        assert(s.last() == s[s.len() - 1]);
        lemma_no_commas_count(s.drop_last());
    }
}

proof fn lemma_decimal_digits(n: nat)
    ensures
        forall|i: int| 0 <= i < decimal(n).len() ==> decimal(n)[i] != ',',
    decreases n,
{
    lemma_digit_not_comma(n as int);
    lemma_digit_not_comma((n % 10) as int);
    if n >= 10 {
        lemma_decimal_digits(n / 10);
        assert forall|i: int| 0 <= i < decimal(n).len() implies decimal(n)[i] != ',' by {
            if i < decimal(n / 10).len() {
                assert(decimal(n)[i] == decimal(n / 10)[i]);
            }
        }
    }
}

proof fn lemma_decimal_len_small(n: nat)
    requires
        n < 1000,
    ensures
        1 <= decimal(n).len() <= 3,
{
    if n < 10 {
        assert(decimal(n).len() == 1);
    } else {
        let m = n / 10;
        assert(decimal(n).len() == decimal(m).len() + 1);
        if m < 10 {
            assert(decimal(m).len() == 1);
        } else {
            assert(m / 10 < 10);
            assert(decimal(m / 10).len() == 1);
            assert(decimal(m).len() == decimal(m / 10).len() + 1);
        }
    }
}

/// How `format_number_commas` groups digits, for a number of `d` decimal digits:
/// the result has `d + (d - 1) / 3` characters; a character is a comma exactly when
/// a multiple of four characters (it included) stands from it to the end, so that
/// every group after a comma has exactly three digits; the first group has one to
/// three digits (the length is not a multiple of four); and there are
/// `(d + 2) / 3` groups, one more than there are commas.
pub proof fn law_comma_groups(n: nat)
    ensures
        ({
            let s = with_commas(n);
            let d = decimal(n).len() as int;
            &&& s.len() == d + (d - 1) / 3
            &&& forall|i: int| 0 <= i < s.len() ==> (s[i] == ',' <==> (s.len() - i) % 4 == 0)
            &&& 1 <= s.len() % 4 <= 3
            &&& comma_count(s) + 1 == (d + 2) / 3
        }),
    decreases n,
{
    if n < 1000 {
        lemma_decimal_len_small(n);
        lemma_decimal_digits(n);
        lemma_no_commas_count(decimal(n));
    } else {
        law_comma_groups(n / 1000);
        let w = with_commas(n / 1000);
        let t = three_digits(n % 1000);
        let comma: Seq<char> = seq![','];
        let s = with_commas(n);
        assert(s =~= w + comma + t);
        lemma_decimal_split(n);
        let d0 = decimal(n / 1000).len() as int;
        let d = decimal(n).len() as int;
        assert(d == d0 + 3);
        assert(d0 >= 1) by {
            lemma_decimal_first(n / 1000);
        }
        assert((d - 1) / 3 == (d0 - 1) / 3 + 1);
        assert((d + 2) / 3 == (d0 + 2) / 3 + 1);
        lemma_digit_not_comma(((n % 1000) / 100) as int);
        lemma_digit_not_comma((((n % 1000) / 10) % 10) as int);
        lemma_digit_not_comma(((n % 1000) % 10) as int);
        assert forall|i: int| 0 <= i < s.len() implies (s[i] == ',' <==> (s.len() - i) % 4
            == 0) by {
            if i < w.len() {
                assert(s[i] == w[i]);
                assert((s.len() - i) % 4 == (w.len() - i) % 4);
            } else if i == w.len() {
                assert(s[i] == ',');
            } else {
                assert(s[i] == t[i - w.len() - 1]);
            }
        }
        assert(s.len() % 4 == w.len() % 4);
        lemma_comma_count_concat(w + comma, t);
        lemma_comma_count_concat(w, comma);
        reveal_with_fuel(comma_count, 2);
        assert(comma.drop_last() =~= Seq::<char>::empty());
        assert(forall|i: int| 0 <= i < t.len() ==> t[i] != ',');
        lemma_no_commas_count(t);
    }
}

} // verus!
