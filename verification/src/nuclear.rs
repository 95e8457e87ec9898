//! Fallout markers left by nuclear strikes, and their decay.

use vstd::prelude::*;

use crate::grid::{ball_defined, hex_ball, hex_distance, AxialCoord};

verus! {

/// Fallout timers per hex cell. Each cell holds at most one timer.
pub struct NuclearBlasts {
    markers: Vec<(AxialCoord, u8)>,
    model: Ghost<Map<AxialCoord, u8>>,
}

/// The timers after one decay step: a timer at zero is cleared, any other timer
/// goes down by one.
pub open spec fn decayed(m: Map<AxialCoord, u8>) -> Map<AxialCoord, u8> {
    Map::new(|c: AxialCoord| m.contains_key(c) && m[c] > 0, |c: AxialCoord| (m[c] - 1) as u8)
}

/// The timers after `n` decay steps.
pub open spec fn decayed_n(m: Map<AxialCoord, u8>, n: nat) -> Map<AxialCoord, u8>
    decreases n,
{
    if n == 0 {
        m
    } else {
        decayed(decayed_n(m, (n - 1) as nat))
    }
}

/// The timers after every cell within `radius` steps of `center` is set to `duration`.
pub open spec fn blasted(
    m: Map<AxialCoord, u8>,
    center: AxialCoord,
    radius: int,
    duration: u8,
) -> Map<AxialCoord, u8> {
    Map::new(
        |c: AxialCoord| m.contains_key(c) || hex_distance(center, c) <= radius,
        |c: AxialCoord|
            if hex_distance(center, c) <= radius {
                duration
            } else {
                m[c]
            },
    )
}

impl View for NuclearBlasts {
    type V = Map<AxialCoord, u8>;

    closed spec fn view(&self) -> Map<AxialCoord, u8> {
        self.model@
    }
}

impl NuclearBlasts {
    /// The stored markers agree with the map model, one marker per cell.
    pub closed spec fn wf(&self) -> bool {
        &&& forall|i: int, j: int|
            0 <= i < j < self.markers@.len() ==> (#[trigger] self.markers@[i]).0 != (
            #[trigger] self.markers@[j]).0
        &&& forall|i: int|
            0 <= i < self.markers@.len() ==> self.model@.contains_key(
                (#[trigger] self.markers@[i]).0,
            ) && self.model@[self.markers@[i].0] == self.markers@[i].1
        &&& forall|c: AxialCoord|
            #[trigger] self.model@.contains_key(c) ==> exists|i: int|
                0 <= i < self.markers@.len() && (#[trigger] self.markers@[i]).0 == c
    }

    /// No cell carries fallout.
    pub fn new() -> (res: Self)
        ensures
            res.wf(),
            res@ == Map::<AxialCoord, u8>::empty(),
    {
        NuclearBlasts { markers: Vec::new(), model: Ghost(Map::empty()) }
    }

    /// Number of cells with a fallout timer.
    pub fn len(&self) -> (res: usize)
        requires
            self.wf(),
        ensures
            res == self@.len(),
    {
        proof {
            self.lemma_len();
        }
        self.markers.len()
    }

    proof fn lemma_len(&self)
        requires
            self.wf(),
        ensures
            self@.dom().finite(),
            self@.len() == self.markers@.len(),
        decreases self.markers@.len(),
    {
        let keys = self.markers@.map_values(|e: (AxialCoord, u8)| e.0);
        assert(keys.no_duplicates()) by {
            assert forall|i: int, j: int|
                0 <= i < keys.len() && 0 <= j < keys.len() && i != j implies keys[i] != keys[j] by {
                if i < j {
                    assert(self.markers@[i].0 != self.markers@[j].0);
                } else {
                    assert(self.markers@[j].0 != self.markers@[i].0);
                }
            }
        }
        assert(self@.dom() =~= keys.to_set()) by {
            assert forall|c: AxialCoord| self@.dom().contains(c) implies keys.to_set().contains(
                c,
            ) by {
                let i = choose|i: int|
                    0 <= i < self.markers@.len() && (#[trigger] self.markers@[i]).0 == c;
                assert(keys[i] == c);
            }
            assert forall|c: AxialCoord| keys.to_set().contains(c) implies self@.dom().contains(
                c,
            ) by {
                let i = choose|i: int| 0 <= i < keys.len() && keys[i] == c;
                assert(self.markers@[i].0 == c);
            }
        }
        keys.unique_seq_to_set();
    }

    /// The fallout timer of a cell, if it has one.
    pub fn get(&self, coord: AxialCoord) -> (res: Option<u8>)
        requires
            self.wf(),
        ensures
            res == (if self@.contains_key(coord) {
                Some(self@[coord])
            } else {
                None::<u8>
            }),
    {
        let mut i: usize = 0;
        while i < self.markers.len()
            invariant
                self.wf(),
                0 <= i <= self.markers@.len(),
                forall|k: int| 0 <= k < i ==> (#[trigger] self.markers@[k]).0 != coord,
            decreases self.markers@.len() - i,
        {
            if self.markers[i].0 == coord {
                return Some(self.markers[i].1);
            }
            i = i + 1;
        }
        None
    }

    /// Sets the fallout timer of a cell, replacing any timer it had.
    pub fn insert(&mut self, coord: AxialCoord, timer: u8)
        requires
            old(self).wf(),
        ensures
            final(self).wf(),
            final(self)@ == old(self)@.insert(coord, timer),
    {
        let mut i: usize = 0;
        while i < self.markers.len()
            invariant
                self.wf(),
                self@ == old(self)@,
                0 <= i <= self.markers@.len(),
                forall|k: int| 0 <= k < i ==> (#[trigger] self.markers@[k]).0 != coord,
            decreases self.markers@.len() - i,
        {
            if self.markers[i].0 == coord {
                let ghost old_markers = self.markers@;
                self.markers.set(i, (coord, timer));
                self.model = Ghost(self.model@.insert(coord, timer));
                proof {
                    assert forall|c: AxialCoord| #[trigger]
                        self.model@.contains_key(c) implies exists|k: int|
                        0 <= k < self.markers@.len() && (#[trigger] self.markers@[k]).0 == c by {
                        if c != coord {
                            let k = choose|k: int|
                                0 <= k < old_markers.len() && (#[trigger] old_markers[k]).0 == c;
                            assert(self.markers@[k].0 == c);
                        } else {
                            assert(self.markers@[i as int].0 == c);
                        }
                    }
                    assert forall|a: int|
                        0 <= a < self.markers@.len() implies self.model@.contains_key(
                        (#[trigger] self.markers@[a]).0,
                    ) && self.model@[self.markers@[a].0] == self.markers@[a].1 by {
                        if a != i {
                            assert(old_markers[a] == self.markers@[a]);
                            assert(old_markers[a].0 != coord) by {
                                if a < i {
                                } else {
                                    assert(old_markers[i as int].0 != old_markers[a].0);
                                }
                            }
                        }
                    }
                    assert forall|a: int, b: int|
                        0 <= a < b < self.markers@.len() implies (#[trigger] self.markers@[a]).0
                        != (#[trigger] self.markers@[b]).0 by {
                        assert(old_markers[a].0 != old_markers[b].0);
                    }
                }
                return;
            }
            i = i + 1;
        }
        let ghost old_markers = self.markers@;
        self.markers.push((coord, timer));
        self.model = Ghost(self.model@.insert(coord, timer));
        proof {
            assert forall|c: AxialCoord| #[trigger]
                self.model@.contains_key(c) implies exists|k: int|
                0 <= k < self.markers@.len() && (#[trigger] self.markers@[k]).0 == c by {
                if c != coord {
                    let k = choose|k: int|
                        0 <= k < old_markers.len() && (#[trigger] old_markers[k]).0 == c;
                    assert(self.markers@[k].0 == c);
                } else {
                    assert(self.markers@[old_markers.len() as int].0 == c);
                }
            }
            assert forall|a: int|
                0 <= a < self.markers@.len() implies self.model@.contains_key(
                (#[trigger] self.markers@[a]).0,
            ) && self.model@[self.markers@[a].0] == self.markers@[a].1 by {
                if a < old_markers.len() {
                    assert(old_markers[a] == self.markers@[a]);
                }
            }
            assert forall|a: int, b: int|
                0 <= a < b < self.markers@.len() implies (#[trigger] self.markers@[a]).0 != (
                #[trigger] self.markers@[b]).0 by {
                if b < old_markers.len() {
                    assert(old_markers[a].0 != old_markers[b].0);
                } else {
                    assert(old_markers[a] == self.markers@[a]);
                }
            }
        }
    }

    /// The cells with a fallout timer and their timers, one entry per cell.
    pub fn entries(&self) -> (res: Vec<(AxialCoord, u8)>)
        requires
            self.wf(),
        ensures
            forall|i: int, j: int| 0 <= i < j < res@.len() ==> (#[trigger] res@[i]).0 != (
            #[trigger] res@[j]).0,
            forall|i: int|
                0 <= i < res@.len() ==> self@.contains_key((#[trigger] res@[i]).0) && self@[res@[i].0]
                    == res@[i].1,
            forall|c: AxialCoord|
                #[trigger] self@.contains_key(c) ==> exists|i: int|
                    0 <= i < res@.len() && (#[trigger] res@[i]).0 == c,
    {
        let mut res: Vec<(AxialCoord, u8)> = Vec::new();
        let mut i: usize = 0;
        while i < self.markers.len()
            invariant
                0 <= i <= self.markers@.len(),
                res@ == self.markers@.take(i as int),
            decreases self.markers@.len() - i,
        {
            let entry = self.markers[i];
            res.push(entry);
            assert(self.markers@.take(i + 1) =~= self.markers@.take(i as int).push(entry));
            i = i + 1;
        }
        assert(res@ =~= self.markers@);
        res
    }

    /// One decay step: timers at zero are cleared, the others go down by one.
    pub fn decay(&mut self)
        requires
            old(self).wf(),
        ensures
            final(self).wf(),
            final(self)@ == decayed(old(self)@),
    {
        let ghost m = self.model@;
        let ghost olds = self.markers@;
        let mut kept = NuclearBlasts::new();
        let mut i: usize = 0;
        while i < self.markers.len()
            invariant
                self.wf(),
                self.model@ == m,
                self.markers@ == olds,
                kept.wf(),
                0 <= i <= olds.len(),
                kept@ == Map::new(
                    |c: AxialCoord| key_in_prefix(olds, i as int, c) && m[c] > 0,
                    |c: AxialCoord| (m[c] - 1) as u8,
                ),
            decreases olds.len() - i,
        {
            let (c, t) = self.markers[i];
            proof {
                assert forall|x: AxialCoord| #[trigger]
                    key_in_prefix(olds, i + 1, x) <==> (key_in_prefix(olds, i as int, x) || x
                        == c) by {
                    if key_in_prefix(olds, i + 1, x) {
                        let j = choose|j: int| 0 <= j < i + 1 && olds[j].0 == x;
                        if j < i {
                            assert(key_in_prefix(olds, i as int, x));
                        }
                    }
                    if x == c {
                        assert(olds[i as int].0 == x);
                    }
                    if key_in_prefix(olds, i as int, x) {
                        let j = choose|j: int| 0 <= j < i && olds[j].0 == x;
                        assert(olds[j].0 == x);
                    }
                }
                assert(m.contains_key(c) && m[c] == t);
            }
            if t > 0 {
                kept.insert(c, t - 1);
            }
            assert(kept@ =~= Map::new(
                |x: AxialCoord| key_in_prefix(olds, i + 1, x) && m[x] > 0,
                |x: AxialCoord| (m[x] - 1) as u8,
            ));
            i = i + 1;
        }
        proof {
            assert forall|x: AxialCoord| #[trigger]
                key_in_prefix(olds, olds.len() as int, x) <==> m.contains_key(x) by {
                if m.contains_key(x) {
                    let j = choose|j: int| 0 <= j < olds.len() && (#[trigger] olds[j]).0 == x;
                    assert(olds[j].0 == x);
                }
                if key_in_prefix(olds, olds.len() as int, x) {
                    let j = choose|j: int| 0 <= j < olds.len() && olds[j].0 == x;
                    assert(m.contains_key(olds[j].0));
                }
            }
            assert(kept@ =~= decayed(m));
        }
        *self = kept;
    }
}

/// `c` is the cell of one of the first `n` markers of `s`.
pub open spec fn key_in_prefix(s: Seq<(AxialCoord, u8)>, n: int, c: AxialCoord) -> bool {
    exists|j: int| 0 <= j < n && s[j].0 == c
}

/// Advances every fallout timer by one decay step: a timer at zero is cleared,
/// any other timer goes down by one.
pub fn nuclear_decay_system(blasts: &mut NuclearBlasts)
    requires
        old(blasts).wf(),
    ensures
        final(blasts).wf(),
        final(blasts)@ == decayed(old(blasts)@),
{
    blasts.decay();
}

/// `c` occurs among the first `n` cells of `s`.
pub open spec fn in_prefix(s: Seq<AxialCoord>, n: int, c: AxialCoord) -> bool {
    exists|j: int| 0 <= j < n && s[j] == c
}

/// Marks every cell within `radius` steps of `center` with a fallout timer of
/// `duration`, and returns the impacted cells, each once, in increasing `(q, r)` order.
/// Timers of cells outside that region stay as they were.
pub fn mark_nuclear_blast(
    blasts: &mut NuclearBlasts,
    center: AxialCoord,
    radius: i32,
    duration: u8,
) -> (impacted: Vec<AxialCoord>)
    requires
        old(blasts).wf(),
        ball_defined(center, radius),
    ensures
        final(blasts).wf(),
        final(blasts)@ == blasted(old(blasts)@, center, radius as int, duration),
        crate::grid::strictly_ordered(impacted@),
        forall|c: AxialCoord| impacted@.contains(c) <==> hex_distance(center, c) <= radius,
{
    let impacted = hex_ball(center, radius);
    let mut i: usize = 0;
    while i < impacted.len()
        invariant
            blasts.wf(),
            0 <= i <= impacted@.len(),
            forall|c: AxialCoord| impacted@.contains(c) <==> hex_distance(center, c) <= radius,
            blasts@ == Map::new(
                |c: AxialCoord| old(blasts)@.contains_key(c) || in_prefix(impacted@, i as int, c),
                |c: AxialCoord|
                    if in_prefix(impacted@, i as int, c) {
                        duration
                    } else {
                        old(blasts)@[c]
                    },
            ),
        decreases impacted@.len() - i,
    {
        blasts.insert(impacted[i], duration);
        proof {
            assert forall|c: AxialCoord| #[trigger]
                in_prefix(impacted@, i + 1, c) <==> (in_prefix(impacted@, i as int, c) || c
                    == impacted@[i as int]) by {
                if in_prefix(impacted@, i + 1, c) {
                    let j = choose|j: int| 0 <= j < i + 1 && impacted@[j] == c;
                    if j < i {
                        assert(in_prefix(impacted@, i as int, c));
                    }
                }
                if c == impacted@[i as int] {
                    assert(impacted@[i as int] == c);
                }
                if in_prefix(impacted@, i as int, c) {
                    let j = choose|j: int| 0 <= j < i && impacted@[j] == c;
                    assert(impacted@[j] == c);
                }
            }
            assert(blasts@ =~= Map::new(
                |c: AxialCoord|
                    old(blasts)@.contains_key(c) || in_prefix(impacted@, i + 1, c),
                |c: AxialCoord|
                    if in_prefix(impacted@, i + 1, c) {
                        duration
                    } else {
                        old(blasts)@[c]
                    },
            ));
        }
        i = i + 1;
    }
    proof {
        assert forall|c: AxialCoord| #[trigger]
            in_prefix(impacted@, impacted@.len() as int, c) <==> hex_distance(center, c)
                <= radius by {
            if hex_distance(center, c) <= radius {
                assert(impacted@.contains(c));
                let j = choose|j: int| 0 <= j < impacted@.len() && impacted@[j] == c;
                assert(impacted@[j] == c);
            }
            if in_prefix(impacted@, impacted@.len() as int, c) {
                let j = choose|j: int| 0 <= j < impacted@.len() && impacted@[j] == c;
                assert(impacted@.contains(impacted@[j]));
            }
        }
        assert(blasts@ =~= blasted(old(blasts)@, center, radius as int, duration));
    }
    impacted
}


/// A timer read `k` decay steps later has gone down by `k`, as long as `k` does not
/// exceed it.
pub proof fn lemma_decayed_n_value(m: Map<AxialCoord, u8>, c: AxialCoord, k: nat)
    requires
        m.contains_key(c),
        k <= m[c],
    ensures
        decayed_n(m, k).contains_key(c),
        decayed_n(m, k)[c] == m[c] - k,
    decreases k,
{
    if k > 0 {
        lemma_decayed_n_value(m, c, (k - 1) as nat);
    }
}

/// A cell whose timer is gone stays clear under further decay.
pub proof fn lemma_decayed_n_stays_clear(m: Map<AxialCoord, u8>, c: AxialCoord, k: nat, n: nat)
    requires
        !decayed_n(m, k).contains_key(c),
        k <= n,
    ensures
        !decayed_n(m, n).contains_key(c),
    decreases n - k,
{
    if k < n {
        lemma_decayed_n_stays_clear(m, c, k, (n - 1) as nat);
    }
}

/// Fallout lifetime: after a strike marks a region with timers of `duration`, each
/// cell of the region keeps fallout through `duration` decay steps, its timer going
/// down by one each step, and is clear from step `duration + 1` on.
pub proof fn law_blast_fades(
    m: Map<AxialCoord, u8>,
    center: AxialCoord,
    radius: int,
    duration: u8,
    c: AxialCoord,
)
    requires
        hex_distance(center, c) <= radius,
    ensures
        forall|k: nat|
            k <= duration ==> #[trigger] decayed_n(blasted(m, center, radius, duration), k).contains_key(c)
                && decayed_n(blasted(m, center, radius, duration), k)[c] == duration - k,
        forall|k: nat|
            k > duration ==> !#[trigger] decayed_n(blasted(m, center, radius, duration), k).contains_key(
                c,
            ),
{
    let b = blasted(m, center, radius, duration);
    assert(b.contains_key(c) && b[c] == duration);
    assert forall|k: nat| k <= duration implies #[trigger] decayed_n(b, k).contains_key(c)
        && decayed_n(b, k)[c] == duration - k by {
        lemma_decayed_n_value(b, c, k);
    }
    lemma_decayed_n_value(b, c, duration as nat);
    assert(!decayed_n(b, (duration + 1) as nat).contains_key(c));
    assert forall|k: nat| k > duration implies !#[trigger] decayed_n(b, k).contains_key(c) by {
        lemma_decayed_n_stays_clear(b, c, (duration + 1) as nat, k);
    }
}

} // verus!
