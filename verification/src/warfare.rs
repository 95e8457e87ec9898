//! War bookkeeping: which nations fight, where fronts run, and where nuclear
//! strikes land.

use rand::rngs::SmallRng;
use vstd::prelude::*;

use crate::grid::{ball_defined, neighbors_defined, spec_neighbors, AxialCoord};
use crate::nation::{ordered_pair, spec_ordered_pair, Nation};
use crate::nuclear::{blasted, mark_nuclear_blast, NuclearBlasts};
use crate::rng::shuffle_coords;

verus! {

/// A war to be fought this tick between two nations.
#[derive(Debug, Clone, Copy, PartialEq, Eq, Structural)]
pub struct BattleRequest {
    pub nation_a: Nation,
    pub nation_b: Nation,
}

/// The unordered pair of nations a battle is fought between.
pub open spec fn request_key(r: BattleRequest) -> (Nation, Nation) {
    spec_ordered_pair(r.nation_a, r.nation_b)
}

/// A set of nation pairs.
pub struct NationPairSet {
    pairs: Vec<(Nation, Nation)>,
}

impl View for NationPairSet {
    type V = Set<(Nation, Nation)>;

    closed spec fn view(&self) -> Set<(Nation, Nation)> {
        self.pairs@.to_set()
    }
}

impl NationPairSet {
    /// The empty set.
    pub fn new() -> (res: Self)
        ensures
            res@ == Set::<(Nation, Nation)>::empty(),
    {
        let res = NationPairSet { pairs: Vec::new() };
        assert(res@ =~= Set::<(Nation, Nation)>::empty());
        res
    }

    /// Whether the pair is in the set.
    pub fn contains(&self, pair: (Nation, Nation)) -> (res: bool)
        ensures
            res == self@.contains(pair),
    {
        let mut i: usize = 0;
        while i < self.pairs.len()
            invariant
                0 <= i <= self.pairs@.len(),
                forall|k: int| 0 <= k < i ==> #[trigger] self.pairs@[k] != pair,
            decreases self.pairs@.len() - i,
        {
            let p = self.pairs[i];
            if p.0 == pair.0 && p.1 == pair.1 {
                assert(self.pairs@[i as int] == pair);
                return true;
            }
            i = i + 1;
        }
        false
    }

    /// Adds the pair; answers whether it was new to the set.
    pub fn insert(&mut self, pair: (Nation, Nation)) -> (newly: bool)
        ensures
            newly == !old(self)@.contains(pair),
            final(self)@ == old(self)@.insert(pair),
    {
        if self.contains(pair) {
            assert(self@ =~= self@.insert(pair));
            false
        } else {
            let ghost before = self.pairs@;
            self.pairs.push(pair);
            assert(self.pairs@ == before.push(pair));
            assert(self@ =~= before.to_set().insert(pair)) by {
                assert forall|x: (Nation, Nation)| self@.contains(x) <==> before.to_set().insert(
                    pair,
                ).contains(x) by {
                    if self@.contains(x) {
                        let k = choose|k: int| 0 <= k < self.pairs@.len() && self.pairs@[k] == x;
                        if k < before.len() {
                            assert(before.contains(x));
                        }
                    }
                    if before.contains(x) {
                        let k = choose|k: int| 0 <= k < before.len() && before[k] == x;
                        assert(self.pairs@[k] == x);
                    }
                    if x == pair {
                        assert(self.pairs@[before.len() as int] == x);
                    }
                }
            }
            true
        }
    }
}

/// Records a battle between `a` and `b` unless their pair has already been seen.
pub open spec fn add_request(
    seen: Set<(Nation, Nation)>,
    out: Seq<BattleRequest>,
    a: Nation,
    b: Nation,
) -> (Set<(Nation, Nation)>, Seq<BattleRequest>) {
    let key = spec_ordered_pair(a, b);
    if seen.contains(key) {
        (seen, out)
    } else {
        (seen.insert(key), out.push(BattleRequest { nation_a: a, nation_b: b }))
    }
}

/// The alliance `ally` drawn into the battle `req`: when one ally fights in `req`,
/// the other ally joins against its enemy, on whichever side of `req` the first
/// ally stands.
pub open spec fn join_via_alliance(
    seen: Set<(Nation, Nation)>,
    out: Seq<BattleRequest>,
    req: BattleRequest,
    ally: (Nation, Nation),
) -> (Set<(Nation, Nation)>, Seq<BattleRequest>) {
    let x = ally.0;
    let y = ally.1;
    let first = if req.nation_a == x && req.nation_b != y {
        add_request(seen, out, y, req.nation_b)
    } else if req.nation_a == y && req.nation_b != x {
        add_request(seen, out, x, req.nation_b)
    } else {
        (seen, out)
    };
    if req.nation_b == x && req.nation_a != y {
        add_request(first.0, first.1, req.nation_a, y)
    } else if req.nation_b == y && req.nation_a != x {
        add_request(first.0, first.1, req.nation_a, x)
    } else {
        first
    }
}

/// Every alliance, in order, drawn into the battle `req`.
pub open spec fn join_via_alliances(
    seen: Set<(Nation, Nation)>,
    out: Seq<BattleRequest>,
    req: BattleRequest,
    alliances: Seq<(Nation, Nation)>,
) -> (Set<(Nation, Nation)>, Seq<BattleRequest>)
    decreases alliances.len(),
{
    if alliances.len() == 0 {
        (seen, out)
    } else {
        let prev = join_via_alliances(seen, out, req, alliances.drop_last());
        join_via_alliance(prev.0, prev.1, req, alliances.last())
    }
}

/// Every alliance drawn into every battle, battles in order: the pairs seen
/// afterwards and the battles added.
pub open spec fn join_all(
    seen: Set<(Nation, Nation)>,
    requests: Seq<BattleRequest>,
    alliances: Seq<(Nation, Nation)>,
) -> (Set<(Nation, Nation)>, Seq<BattleRequest>)
    decreases requests.len(),
{
    if requests.len() == 0 {
        (seen, Seq::empty())
    } else {
        let prev = join_all(seen, requests.drop_last(), alliances);
        join_via_alliances(prev.0, prev.1, requests.last(), alliances)
    }
}

/// Exec form of `add_request`.
fn push_request(seen: &mut NationPairSet, out: &mut Vec<BattleRequest>, a: Nation, b: Nation)
    ensures
        (final(seen)@, final(out)@) == add_request(old(seen)@, old(out)@, a, b),
{
    let key = ordered_pair(a, b);
    if seen.insert(key) {
        out.push(BattleRequest { nation_a: a, nation_b: b });
    }
}

/// Battles that alliances add to this tick's wars. For every battle in `requests`
/// and every alliance in `alliances`, in order: when an ally fights in the battle,
/// its partner joins the war against the ally's enemy, unless the partner is that
/// enemy or that pair of nations already fights (`seen`). Pairs of the added battles
/// are added to `seen`. The added battles themselves draw in no one further.
pub fn alliance_join_requests(
    requests: &Vec<BattleRequest>,
    alliances: &Vec<(Nation, Nation)>,
    seen: &mut NationPairSet,
) -> (extra: Vec<BattleRequest>)
    ensures
        (final(seen)@, extra@) == join_all(old(seen)@, requests@, alliances@),
        old(seen)@.subset_of(final(seen)@),
        forall|i: int, j: int|
            0 <= i < requests@.len() && 0 <= j < alliances@.len() ==> partners_pulled_in(
                final(seen)@,
                #[trigger] requests@[i],
                #[trigger] alliances@[j],
            ),
{
    proof {
        law_alliances_pull_in_partners(old(seen)@, requests@, alliances@);
    }
    let mut extra: Vec<BattleRequest> = Vec::new();
    let mut i: usize = 0;
    while i < requests.len()
        invariant
            0 <= i <= requests@.len(),
            (seen@, extra@) == join_all(old(seen)@, requests@.take(i as int), alliances@),
        decreases requests@.len() - i,
    {
        let req = requests[i];
        let ghost base = (seen@, extra@);
        let mut j: usize = 0;
        while j < alliances.len()
            invariant
                0 <= j <= alliances@.len(),
                req == requests@[i as int],
                (seen@, extra@) == join_via_alliances(
                    base.0,
                    base.1,
                    req,
                    alliances@.take(j as int),
                ),
            decreases alliances@.len() - j,
        {
            let (x, y) = alliances[j];
            if req.nation_a == x && req.nation_b != y {
                push_request(seen, &mut extra, y, req.nation_b);
            } else if req.nation_a == y && req.nation_b != x {
                push_request(seen, &mut extra, x, req.nation_b);
            }
            if req.nation_b == x && req.nation_a != y {
                push_request(seen, &mut extra, req.nation_a, y);
            } else if req.nation_b == y && req.nation_a != x {
                push_request(seen, &mut extra, req.nation_a, x);
            }
            assert(alliances@.take(j + 1).drop_last() =~= alliances@.take(j as int));
            j = j + 1;
        }
        assert(alliances@.take(alliances@.len() as int) =~= alliances@);
        assert(requests@.take(i + 1).drop_last() =~= requests@.take(i as int));
        i = i + 1;
    }
    assert(requests@.take(requests@.len() as int) =~= requests@);
    extra
}


/// The pairs of nations the battles `out` are fought between.
pub open spec fn request_keys(out: Seq<BattleRequest>) -> Set<(Nation, Nation)> {
    Set::new(|k: (Nation, Nation)| exists|i: int| 0 <= i < out.len() && request_key(out[i]) == k)
}

/// `out` are battles between two different nations each, over pairs that are all
/// distinct and absent from `seen0`, and `seen` is `seen0` with those pairs added.
pub open spec fn fresh_requests(
    seen0: Set<(Nation, Nation)>,
    seen: Set<(Nation, Nation)>,
    out: Seq<BattleRequest>,
) -> bool {
    &&& forall|i: int|
        0 <= i < out.len() ==> !seen0.contains(request_key(#[trigger] out[i]))
            && out[i].nation_a != out[i].nation_b
    &&& forall|i: int, j: int|
        0 <= i < j < out.len() ==> request_key(#[trigger] out[i]) != request_key(#[trigger] out[j])
    &&& seen == seen0.union(request_keys(out))
}

proof fn lemma_add_request_fresh(
    seen0: Set<(Nation, Nation)>,
    seen: Set<(Nation, Nation)>,
    out: Seq<BattleRequest>,
    a: Nation,
    b: Nation,
)
    requires
        fresh_requests(seen0, seen, out),
        a != b,
    ensures
        fresh_requests(seen0, add_request(seen, out, a, b).0, add_request(seen, out, a, b).1),
{
    let key = spec_ordered_pair(a, b);
    if !seen.contains(key) {
        let r = BattleRequest { nation_a: a, nation_b: b };
        let out2 = out.push(r);
        assert(request_key(r) == key);
        assert forall|i: int|
            0 <= i < out2.len() implies !seen0.contains(request_key(#[trigger] out2[i]))
            && out2[i].nation_a != out2[i].nation_b by {
            if i < out.len() {
                assert(out2[i] == out[i]);
            }
        }
        assert forall|i: int, j: int|
            0 <= i < j < out2.len() implies request_key(#[trigger] out2[i]) != request_key(
            #[trigger] out2[j],
        ) by {
            assert(out2[i] == out[i]);
            if j < out.len() {
                assert(out2[j] == out[j]);
            } else {
                assert(request_keys(out).contains(request_key(out[i])));
            }
        }
        assert(request_keys(out2) =~= request_keys(out).insert(key)) by {
            assert forall|k: (Nation, Nation)| request_keys(out2).contains(k) implies request_keys(
                out,
            ).insert(key).contains(k) by {
                let i = choose|i: int| 0 <= i < out2.len() && request_key(out2[i]) == k;
                if i < out.len() {
                    assert(out2[i] == out[i]);
                }
            }
            assert forall|k: (Nation, Nation)| request_keys(out).insert(key).contains(
                k,
            ) implies request_keys(out2).contains(k) by {
                if k == key {
                    assert(request_key(out2[out.len() as int]) == k);
                } else {
                    let i = choose|i: int| 0 <= i < out.len() && request_key(out[i]) == k;
                    assert(out2[i] == out[i]);
                }
            }
        }
        assert(seen.insert(key) =~= seen0.union(request_keys(out2)));
    }
}

proof fn lemma_join_via_alliance_fresh(
    seen0: Set<(Nation, Nation)>,
    seen: Set<(Nation, Nation)>,
    out: Seq<BattleRequest>,
    req: BattleRequest,
    ally: (Nation, Nation),
)
    requires
        fresh_requests(seen0, seen, out),
    ensures
        fresh_requests(
            seen0,
            join_via_alliance(seen, out, req, ally).0,
            join_via_alliance(seen, out, req, ally).1,
        ),
{
    let x = ally.0;
    let y = ally.1;
    let first = if req.nation_a == x && req.nation_b != y {
        lemma_add_request_fresh(seen0, seen, out, y, req.nation_b);
        add_request(seen, out, y, req.nation_b)
    } else if req.nation_a == y && req.nation_b != x {
        lemma_add_request_fresh(seen0, seen, out, x, req.nation_b);
        add_request(seen, out, x, req.nation_b)
    } else {
        (seen, out)
    };
    if req.nation_b == x && req.nation_a != y {
        lemma_add_request_fresh(seen0, first.0, first.1, req.nation_a, y);
    } else if req.nation_b == y && req.nation_a != x {
        lemma_add_request_fresh(seen0, first.0, first.1, req.nation_a, x);
    }
}

proof fn lemma_join_via_alliances_fresh(
    seen0: Set<(Nation, Nation)>,
    seen: Set<(Nation, Nation)>,
    out: Seq<BattleRequest>,
    req: BattleRequest,
    alliances: Seq<(Nation, Nation)>,
)
    requires
        fresh_requests(seen0, seen, out),
    ensures
        fresh_requests(
            seen0,
            join_via_alliances(seen, out, req, alliances).0,
            join_via_alliances(seen, out, req, alliances).1,
        ),
    decreases alliances.len(),
{
    if alliances.len() > 0 {
        lemma_join_via_alliances_fresh(seen0, seen, out, req, alliances.drop_last());
        let prev = join_via_alliances(seen, out, req, alliances.drop_last());
        lemma_join_via_alliance_fresh(seen0, prev.0, prev.1, req, alliances.last());
    }
}

/// Alliance calls never start a war that already runs, never start the same war
/// twice, and never set a nation against itself: every battle that alliances add is
/// between two different nations, over a pair not seen before and not shared with
/// any other added battle, and the pairs seen afterwards are exactly those seen
/// before together with the pairs of the added battles.
pub proof fn law_alliance_joins_are_fresh(
    seen: Set<(Nation, Nation)>,
    requests: Seq<BattleRequest>,
    alliances: Seq<(Nation, Nation)>,
)
    ensures
        fresh_requests(seen, join_all(seen, requests, alliances).0, join_all(seen, requests, alliances).1),
    decreases requests.len(),
{
    if requests.len() == 0 {
        assert(request_keys(Seq::<BattleRequest>::empty()) =~= Set::empty());
        assert(seen.union(Set::empty()) =~= seen);
    } else {
        law_alliance_joins_are_fresh(seen, requests.drop_last(), alliances);
        let prev = join_all(seen, requests.drop_last(), alliances);
        lemma_join_via_alliances_fresh(seen, prev.0, prev.1, requests.last(), alliances);
    }
}


/// The pairs an alliance must have brought to war over the battle `req`, all of
/// them in `seen`: when either ally fights on either side of `req`, the other ally
/// stands against the enemy of the first, unless it is that very enemy.
pub open spec fn partners_pulled_in(
    seen: Set<(Nation, Nation)>,
    req: BattleRequest,
    ally: (Nation, Nation),
) -> bool {
    let (x, y) = ally;
    &&& req.nation_a == x && req.nation_b != y ==> seen.contains(spec_ordered_pair(y, req.nation_b))
    &&& req.nation_a == y && req.nation_b != x ==> seen.contains(spec_ordered_pair(x, req.nation_b))
    &&& req.nation_b == x && req.nation_a != y ==> seen.contains(spec_ordered_pair(req.nation_a, y))
    &&& req.nation_b == y && req.nation_a != x ==> seen.contains(spec_ordered_pair(req.nation_a, x))
}

proof fn lemma_add_request_grows(
    seen: Set<(Nation, Nation)>,
    out: Seq<BattleRequest>,
    a: Nation,
    b: Nation,
)
    ensures
        seen.subset_of(add_request(seen, out, a, b).0),
        add_request(seen, out, a, b).0.contains(spec_ordered_pair(a, b)),
{
}

proof fn lemma_join_via_alliance_grows(
    seen: Set<(Nation, Nation)>,
    out: Seq<BattleRequest>,
    req: BattleRequest,
    ally: (Nation, Nation),
)
    ensures
        seen.subset_of(join_via_alliance(seen, out, req, ally).0),
        partners_pulled_in(join_via_alliance(seen, out, req, ally).0, req, ally),
{
    let x = ally.0;
    let y = ally.1;
    let first = if req.nation_a == x && req.nation_b != y {
        lemma_add_request_grows(seen, out, y, req.nation_b);
        add_request(seen, out, y, req.nation_b)
    } else if req.nation_a == y && req.nation_b != x {
        lemma_add_request_grows(seen, out, x, req.nation_b);
        add_request(seen, out, x, req.nation_b)
    } else {
        (seen, out)
    };
    if req.nation_b == x && req.nation_a != y {
        lemma_add_request_grows(first.0, first.1, req.nation_a, y);
    } else if req.nation_b == y && req.nation_a != x {
        lemma_add_request_grows(first.0, first.1, req.nation_a, x);
    }
}

proof fn lemma_join_via_alliances_grows(
    seen: Set<(Nation, Nation)>,
    out: Seq<BattleRequest>,
    req: BattleRequest,
    alliances: Seq<(Nation, Nation)>,
)
    ensures
        seen.subset_of(join_via_alliances(seen, out, req, alliances).0),
        forall|j: int|
            0 <= j < alliances.len() ==> partners_pulled_in(
                join_via_alliances(seen, out, req, alliances).0,
                req,
                #[trigger] alliances[j],
            ),
    decreases alliances.len(),
{
    if alliances.len() > 0 {
        let init = alliances.drop_last();
        lemma_join_via_alliances_grows(seen, out, req, init);
        let prev = join_via_alliances(seen, out, req, init);
        lemma_join_via_alliance_grows(prev.0, prev.1, req, alliances.last());
        let after = join_via_alliances(seen, out, req, alliances).0;
        assert forall|j: int| 0 <= j < alliances.len() implies partners_pulled_in(
            after,
            req,
            #[trigger] alliances[j],
        ) by {
            if j < init.len() {
                assert(init[j] == alliances[j]);
                assert(partners_pulled_in(prev.0, req, init[j]));
            }
        }
    }
}

/// Alliances work both ways: after alliance calls, for every battle of the tick and
/// every alliance, whichever member of the alliance fights on whichever side, its
/// partner is at war with that member's enemy (a battle added now or one already
/// under way), unless the partner is that enemy. How an alliance pair is written,
/// `(x, y)` or `(y, x)`, makes no difference to this. The pairs seen before stay seen.
pub proof fn law_alliances_pull_in_partners(
    seen: Set<(Nation, Nation)>,
    requests: Seq<BattleRequest>,
    alliances: Seq<(Nation, Nation)>,
)
    ensures
        seen.subset_of(join_all(seen, requests, alliances).0),
        forall|i: int, j: int|
            0 <= i < requests.len() && 0 <= j < alliances.len() ==> partners_pulled_in(
                join_all(seen, requests, alliances).0,
                #[trigger] requests[i],
                #[trigger] alliances[j],
            ),
    decreases requests.len(),
{
    if requests.len() > 0 {
        let init = requests.drop_last();
        law_alliances_pull_in_partners(seen, init, alliances);
        let prev = join_all(seen, init, alliances);
        lemma_join_via_alliances_grows(prev.0, prev.1, requests.last(), alliances);
        let after = join_all(seen, requests, alliances).0;
        assert forall|i: int, j: int|
            0 <= i < requests.len() && 0 <= j < alliances.len() implies partners_pulled_in(
            after,
            #[trigger] requests[i],
            #[trigger] alliances[j],
        ) by {
            if i < init.len() {
                assert(init[i] == requests[i]);
                assert(partners_pulled_in(prev.0, init[i], alliances[j]));
            }
        }
    }
}

/// Some hex of `hexes` is the cell `coord` owned by `owner`.
pub open spec fn owns_cell(hexes: Seq<(Nation, AxialCoord)>, owner: Nation, coord: AxialCoord) -> bool {
    exists|j: int| 0 <= j < hexes.len() && hexes[j] == (owner, coord)
}

/// Hex `i` is a front-line cell of the war: `winner` owns it and `loser` owns one
/// of its neighbours.
pub open spec fn is_front_hex(
    hexes: Seq<(Nation, AxialCoord)>,
    i: int,
    winner: Nation,
    loser: Nation,
) -> bool {
    &&& hexes[i].0 == winner
    &&& exists|k: int|
        0 <= k < 6 && owns_cell(hexes, loser, #[trigger] spec_neighbors(hexes[i].1)[k])
}

/// Whether some hex is the cell `coord` owned by `owner`.
fn holds_cell(hexes: &Vec<(Nation, AxialCoord)>, owner: Nation, coord: AxialCoord) -> (res: bool)
    ensures
        res == owns_cell(hexes@, owner, coord),
{
    let mut j: usize = 0;
    while j < hexes.len()
        invariant
            0 <= j <= hexes@.len(),
            forall|k: int| 0 <= k < j ==> #[trigger] hexes@[k] != (owner, coord),
        decreases hexes@.len() - j,
    {
        let h = hexes[j];
        if h.0 == owner && h.1.q == coord.q && h.1.r == coord.r {
            assert(hexes@[j as int] == (owner, coord));
            return true;
        }
        j = j + 1;
    }
    false
}

/// The front line after `winner` beat `loser`: the positions in `hexes` (owner and
/// cell of every hex of the map) of the cells `winner` owns that border a cell
/// `loser` owns, each once, in increasing order. These cells are put in combat.
pub fn border_hexes(hexes: &Vec<(Nation, AxialCoord)>, winner: Nation, loser: Nation) -> (res: Vec<
    usize,
>)
    requires
        forall|i: int|
            0 <= i < hexes@.len() && (#[trigger] hexes@[i]).0 == winner ==> neighbors_defined(
                hexes@[i].1,
            ),
    ensures
        forall|a: int, b: int| 0 <= a < b < res@.len() ==> res@[a] < res@[b],
        forall|i: int|
            0 <= i < hexes@.len() ==> (res@.contains(i as usize) <==> is_front_hex(
                hexes@,
                i,
                winner,
                loser,
            )),
        forall|a: int| 0 <= a < res@.len() ==> res@[a] < hexes@.len(),
{
    let mut res: Vec<usize> = Vec::new();
    let mut i: usize = 0;
    while i < hexes.len()
        invariant
            0 <= i <= hexes@.len(),
            forall|i: int|
                0 <= i < hexes@.len() && (#[trigger] hexes@[i]).0 == winner ==> neighbors_defined(
                    hexes@[i].1,
                ),
            forall|a: int, b: int| 0 <= a < b < res@.len() ==> res@[a] < res@[b],
            forall|a: int| 0 <= a < res@.len() ==> res@[a] < i,
            forall|x: int|
                0 <= x < i ==> (res@.contains(x as usize) <==> is_front_hex(
                    hexes@,
                    x,
                    winner,
                    loser,
                )),
        decreases hexes@.len() - i,
    {
        let (owner, coord) = hexes[i];
        let mut front = false;
        if owner == winner {
            let around = coord.neighbors();
            let mut k: usize = 0;
            while k < 6
                invariant
                    0 <= k <= 6,
                    around@ == spec_neighbors(coord),
                    coord == hexes@[i as int].1,
                    front == exists|m: int|
                        0 <= m < k && owns_cell(hexes@, loser, #[trigger] spec_neighbors(coord)[m]),
                decreases 6 - k,
            {
                if !front && holds_cell(hexes, loser, around[k]) {
                    front = true;
                }
                proof {
                    if owns_cell(hexes@, loser, spec_neighbors(coord)[k as int]) {
                        assert(exists|m: int|
                            0 <= m < k + 1 && owns_cell(
                                hexes@,
                                loser,
                                #[trigger] spec_neighbors(coord)[m],
                            ));
                    }
                }
                k = k + 1;
            }
        }
        let ghost before = res@;
        if front {
            res.push(i);
        }
        proof {
            assert forall|x: int|
                0 <= x < i + 1 implies (res@.contains(x as usize) <==> is_front_hex(
                hexes@,
                x,
                winner,
                loser,
            )) by {
                if x < i {
                    if res@.contains(x as usize) {
                        let a = choose|a: int| 0 <= a < res@.len() && res@[a] == x as usize;
                        if a < before.len() {
                            assert(before.contains(x as usize));
                        }
                    }
                    if before.contains(x as usize) {
                        let a = choose|a: int| 0 <= a < before.len() && before[a] == x as usize;
                        assert(res@[a] == x as usize);
                    }
                } else {
                    if front {
                        assert(res@[before.len() as int] == x as usize);
                    } else {
                        if res@.contains(x as usize) {
                            let a = choose|a: int| 0 <= a < res@.len() && res@[a] == x as usize;
                            assert(res@[a] < i);
                        }
                    }
                }
            }
        }
        i = i + 1;
    }
    res
}

/// Fewest casualties a battle claims.
pub const MIN_CASUALTIES: u64 = 15_000;

/// Most casualties a battle claims.
pub const MAX_CASUALTIES: u64 = 2_000_000;

/// The casualties a battle claims for a raw estimate: the estimate brought into
/// `MIN_CASUALTIES..=MAX_CASUALTIES`.
pub fn war_casualties(raw: u64) -> (total: u64)
    ensures
        total == (if raw < MIN_CASUALTIES {
            MIN_CASUALTIES
        } else if raw > MAX_CASUALTIES {
            MAX_CASUALTIES
        } else {
            raw
        }),
{
    if raw < MIN_CASUALTIES {
        MIN_CASUALTIES
    } else if raw > MAX_CASUALTIES {
        MAX_CASUALTIES
    } else {
        raw
    }
}

/// Radius of the fallout region around each strike point.
pub const STRIKE_RADIUS: i32 = 2;

/// Fallout timer a strike leaves.
pub const STRIKE_DURATION: u8 = 8;

/// Largest number of the defeated nation's cells a strike hits, besides its first cell.
pub const STRIKE_TARGETS: usize = 20;

/// The timers after a fallout region of `radius` and `duration` is laid around each
/// of `centers`, in order.
pub open spec fn blasted_all(
    m: Map<AxialCoord, u8>,
    centers: Seq<AxialCoord>,
    radius: int,
    duration: u8,
) -> Map<AxialCoord, u8>
    decreases centers.len(),
{
    if centers.len() == 0 {
        m
    } else {
        blasted(blasted_all(m, centers.drop_last(), radius, duration), centers.last(), radius, duration)
    }
}

/// The strike points: the first `STRIKE_TARGETS` cells of `order` (all of them if
/// there are fewer), then `center`.
pub open spec fn strike_points(order: Seq<AxialCoord>, center: AxialCoord) -> Seq<AxialCoord> {
    let n = if order.len() < STRIKE_TARGETS {
        order.len() as int
    } else {
        STRIKE_TARGETS as int
    };
    order.take(n).push(center)
}

/// Lays fallout around the strike points taken from the cells in the given order.
pub fn strike_in_order(blasts: &mut NuclearBlasts, order: &Vec<AxialCoord>, center: AxialCoord)
    requires
        old(blasts).wf(),
        ball_defined(center, STRIKE_RADIUS),
        forall|i: int| 0 <= i < order@.len() ==> ball_defined(#[trigger] order@[i], STRIKE_RADIUS),
    ensures
        final(blasts).wf(),
        final(blasts)@ == blasted_all(
            old(blasts)@,
            strike_points(order@, center),
            STRIKE_RADIUS as int,
            STRIKE_DURATION,
        ),
{
    let ghost points = strike_points(order@, center);
    let n: usize = if order.len() < STRIKE_TARGETS {
        order.len()
    } else {
        STRIKE_TARGETS
    };
    let mut i: usize = 0;
    while i < n
        invariant
            blasts.wf(),
            0 <= i <= n,
            n <= order@.len(),
            points == order@.take(n as int).push(center),
            forall|i: int| 0 <= i < order@.len() ==> ball_defined(#[trigger] order@[i], STRIKE_RADIUS),
            blasts@ == blasted_all(
                old(blasts)@,
                points.take(i as int),
                STRIKE_RADIUS as int,
                STRIKE_DURATION,
            ),
        decreases n - i,
    {
        mark_nuclear_blast(blasts, order[i], STRIKE_RADIUS, STRIKE_DURATION);
        assert(points.take(i + 1).drop_last() =~= points.take(i as int));
        assert(points[i as int] == order@[i as int]);
        i = i + 1;
    }
    mark_nuclear_blast(blasts, center, STRIKE_RADIUS, STRIKE_DURATION);
    assert(points.take(n + 1) =~= points);
    assert(points.take(n + 1).drop_last() =~= points.take(n as int));
}

/// A nuclear strike on the defeated nation: its cells `targets` are shuffled with
/// `rng`, and fallout of `STRIKE_DURATION` ticks is laid within `STRIKE_RADIUS` of
/// the first `STRIKE_TARGETS` of them and of `center`, its first cell on the map.
pub fn nuclear_strike(
    blasts: &mut NuclearBlasts,
    targets: Vec<AxialCoord>,
    center: AxialCoord,
    rng: &mut SmallRng,
)
    requires
        old(blasts).wf(),
        ball_defined(center, STRIKE_RADIUS),
        forall|i: int| 0 <= i < targets@.len() ==> ball_defined(#[trigger] targets@[i], STRIKE_RADIUS),
    ensures
        final(blasts).wf(),
        exists|order: Seq<AxialCoord>|
            order.to_multiset() == targets@.to_multiset() && final(blasts)@ == blasted_all(
                old(blasts)@,
                strike_points(order, center),
                STRIKE_RADIUS as int,
                STRIKE_DURATION,
            ),
{
    let mut order = targets;
    let ghost original = order@;
    shuffle_coords(&mut order, rng);
    proof {
        broadcast use vstd::seq_lib::group_to_multiset_ensures;

        assert forall|i: int| 0 <= i < order@.len() implies ball_defined(
            #[trigger] order@[i],
            STRIKE_RADIUS,
        ) by {
            assert(order@.contains(order@[i]));
            assert(order@.to_multiset().count(order@[i]) > 0);
            assert(original.contains(order@[i]));
        }
    }
    strike_in_order(blasts, &order, center);
}

} // verus!
