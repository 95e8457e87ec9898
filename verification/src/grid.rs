//! Axial hex coordinates, hex distances and the regions built from them.

use vstd::prelude::*;

use crate::nation::Nation;

verus! {

/// A hex cell addressed by axial coordinates.
#[derive(Debug, Clone, Copy, PartialEq, Eq, Hash, Structural)]
pub struct AxialCoord {
    pub q: i32,
    pub r: i32,
}

/// Absolute value of an integer.
pub open spec fn abs_int(x: int) -> int {
    if x < 0 {
        -x
    } else {
        x
    }
}

/// Largest of three integers.
pub open spec fn max3(x: int, y: int, z: int) -> int {
    if x >= y && x >= z {
        x
    } else if y >= z {
        y
    } else {
        z
    }
}

/// Number of hex steps covered by the axial offset `(dq, dr)`.
pub open spec fn hex_norm(dq: int, dr: int) -> int {
    (abs_int(dq) + abs_int(dq + dr) + abs_int(dr)) / 2
}

/// Number of hex steps between two cells.
pub open spec fn hex_distance(a: AxialCoord, b: AxialCoord) -> int {
    hex_norm(a.q - b.q, a.r - b.r)
}

/// Integer division rounding toward zero, as Rust's `/` does on signed integers.
pub open spec fn trunc_div(a: int, d: int) -> int {
    if a >= 0 {
        a / d
    } else {
        -((-a) / d)
    }
}

/// The six neighbours of a cell can be computed without leaving the `i32` range.
pub open spec fn neighbors_defined(c: AxialCoord) -> bool {
    &&& i32::MIN < c.q < i32::MAX
    &&& i32::MIN < c.r < i32::MAX
}

/// The neighbours of a cell, in the order in which `neighbors` lists them.
pub open spec fn spec_neighbors(c: AxialCoord) -> Seq<AxialCoord> {
    seq![
        AxialCoord { q: (c.q + 1) as i32, r: c.r },
        AxialCoord { q: (c.q - 1) as i32, r: c.r },
        AxialCoord { q: c.q, r: (c.r + 1) as i32 },
        AxialCoord { q: c.q, r: (c.r - 1) as i32 },
        AxialCoord { q: (c.q + 1) as i32, r: (c.r - 1) as i32 },
        AxialCoord { q: (c.q - 1) as i32, r: (c.r + 1) as i32 },
    ]
}

/// `a` comes before `b` when cells are ordered by `q`, then by `r`.
pub open spec fn coord_before(a: AxialCoord, b: AxialCoord) -> bool {
    a.q < b.q || (a.q == b.q && a.r < b.r)
}

/// The cells of `s` appear in strictly increasing `(q, r)` order.
pub open spec fn strictly_ordered(s: Seq<AxialCoord>) -> bool {
    forall|i: int, j: int| 0 <= i < j < s.len() ==> coord_before(#[trigger] s[i], #[trigger] s[j])
}

/// Every cell within `radius` steps of `center` has coordinates in the `i32` range,
/// and the loop bounds used to walk that region do not overflow.
pub open spec fn ball_defined(center: AxialCoord, radius: i32) -> bool {
    &&& radius > i32::MIN
    &&& radius >= 0 ==> {
        &&& 2 * radius <= i32::MAX
        &&& center.q - radius >= i32::MIN
        &&& center.q + radius <= i32::MAX
        &&& center.r - radius >= i32::MIN
        &&& center.r + radius <= i32::MAX
    }
}

/// The hex distance equals the largest of `|dq|`, `|dr|` and `|dq + dr|`.
pub proof fn lemma_hex_norm_is_max(dq: int, dr: int)
    ensures
        hex_norm(dq, dr) == max3(abs_int(dq), abs_int(dr), abs_int(dq + dr)),
{
}

/// A cell lies within `radius` steps of `center` exactly when each of the three
/// axial offsets is at most `radius` in size.
pub proof fn lemma_within_radius(center: AxialCoord, c: AxialCoord, radius: int)
    ensures
        hex_distance(center, c) <= radius <==> {
            &&& -radius <= c.q - center.q <= radius
            &&& -radius <= c.r - center.r <= radius
            &&& -radius <= (c.q - center.q) + (c.r - center.r) <= radius
        },
{
    lemma_hex_norm_is_max(center.q - c.q, center.r - c.r);
}

impl AxialCoord {
    pub fn new(q: i32, r: i32) -> (res: Self)
        ensures
            res.q == q,
            res.r == r,
    {
        Self { q, r }
    }

    /// The six adjacent cells.
    pub fn neighbors(&self) -> (res: [AxialCoord; 6])
        requires
            neighbors_defined(*self),
        ensures
            res@ == spec_neighbors(*self),
    {
        let res = [
            AxialCoord::new(self.q + 1, self.r),
            AxialCoord::new(self.q - 1, self.r),
            AxialCoord::new(self.q, self.r + 1),
            AxialCoord::new(self.q, self.r - 1),
            AxialCoord::new(self.q + 1, self.r - 1),
            AxialCoord::new(self.q - 1, self.r + 1),
        ];
        assert(res@ =~= spec_neighbors(*self));
        res
    }
}

/// Hex distance of two axial positions, computed without overflow for any `i32` input.
fn distance_wide(q1: i32, r1: i32, q2: i32, r2: i32) -> (d: i64)
    ensures
        d == hex_norm(q1 - q2, r1 - r2),
{
    let dq: i64 = q1 as i64 - q2 as i64;
    let dr: i64 = r1 as i64 - r2 as i64;
    let ds: i64 = dq + dr;
    let a: i64 = if dq < 0 {
        -dq
    } else {
        dq
    };
    let b: i64 = if ds < 0 {
        -ds
    } else {
        ds
    };
    let c: i64 = if dr < 0 {
        -dr
    } else {
        dr
    };
    (a + b + c) / 2
}

/// Number of hex steps between the cells `(q1, r1)` and `(q2, r2)`.
pub fn distance(q1: i32, r1: i32, q2: i32, r2: i32) -> (d: i32)
    requires
        hex_norm(q1 - q2, r1 - r2) <= i32::MAX,
    ensures
        d == hex_norm(q1 - q2, r1 - r2),
{
    distance_wide(q1, r1, q2, r2) as i32
}

/// Number of hex steps between two cells.
pub fn axial_distance(a: AxialCoord, b: AxialCoord) -> (d: i32)
    requires
        hex_distance(a, b) <= i32::MAX,
    ensures
        d == hex_distance(a, b),
{
    distance(a.q, a.r, b.q, b.r)
}

/// Starting cells of three continents on a map of the given radius.
pub fn default_continent_centers(radius: i32) -> (res: [(Nation, AxialCoord); 3])
    requires
        radius >= i32::MIN + 4,
    ensures
        res@ == seq![
            (Nation::Tera, AxialCoord { q: (-radius + 3) as i32, r: trunc_div(radius as int, 3) as i32 }),
            (Nation::Sora, AxialCoord { q: (radius - 3) as i32, r: trunc_div(-radius, 4) as i32 }),
            (Nation::Aqua, AxialCoord { q: 0, r: (-radius + 3) as i32 }),
        ],
{
    let res = [
        (Nation::Tera, AxialCoord::new(-radius + 3, radius / 3)),
        (Nation::Sora, AxialCoord::new(radius - 3, -radius / 4)),
        (Nation::Aqua, AxialCoord::new(0, -radius + 3)),
    ];
    assert(res@ =~= seq![
        (Nation::Tera, AxialCoord { q: (-radius + 3) as i32, r: trunc_div(radius as int, 3) as i32 }),
        (Nation::Sora, AxialCoord { q: (radius - 3) as i32, r: trunc_div(-radius, 4) as i32 }),
        (Nation::Aqua, AxialCoord { q: 0, r: (-radius + 3) as i32 }),
    ]);
    res
}

/// Capitals of the five nations, placed on the corners of a pentagon inside a
/// map of the given radius: top, upper right, lower right, bottom and left.
pub open spec fn spec_pentagon_centers(radius: int) -> Seq<(Nation, AxialCoord)> {
    let r = radius - 2;
    seq![
        (Nation::Tera, AxialCoord { q: 0, r: (-r) as i32 }),
        (Nation::Sora, AxialCoord { q: r as i32, r: trunc_div(-r, 2) as i32 }),
        (Nation::Aqua, AxialCoord { q: r as i32, r: trunc_div(r, 2) as i32 }),
        (Nation::Solar, AxialCoord { q: 0, r: r as i32 }),
        (Nation::Luna, AxialCoord { q: (-r) as i32, r: 0 }),
    ]
}

/// Capitals of the five nations on a map of the given radius.
pub fn pentagon_centers(radius: i32) -> (res: [(Nation, AxialCoord); 5])
    requires
        radius >= i32::MIN + 3,
    ensures
        res@ == spec_pentagon_centers(radius as int),
{
    let r = radius - 2;
    let res = [
        (Nation::Tera, AxialCoord::new(0, -r)),
        (Nation::Sora, AxialCoord::new(r, -r / 2)),
        (Nation::Aqua, AxialCoord::new(r, r / 2)),
        (Nation::Solar, AxialCoord::new(0, r)),
        (Nation::Luna, AxialCoord::new(-r, 0)),
    ];
    assert(res@ =~= spec_pentagon_centers(radius as int));
    res
}


/// Every cell within `radius` steps of `center`, in increasing `(q, r)` order.
/// A negative radius gives no cell.
pub fn hex_ball(center: AxialCoord, radius: i32) -> (res: Vec<AxialCoord>)
    requires
        ball_defined(center, radius),
    ensures
        strictly_ordered(res@),
        forall|c: AxialCoord| res@.contains(c) <==> hex_distance(center, c) <= radius,
{
    let mut res: Vec<AxialCoord> = Vec::new();
    if radius < 0 {
        assert forall|c: AxialCoord| res@.contains(c) <==> hex_distance(center, c) <= radius by {
            lemma_hex_norm_is_max(center.q - c.q, center.r - c.r);
        }
        return res;
    }
    let mut q: i32 = -radius;
    while q <= radius
        invariant
            0 <= radius,
            ball_defined(center, radius),
            -radius <= q <= radius + 1,
            strictly_ordered(res@),
            forall|i: int|
                0 <= i < res.len() ==> hex_distance(center, #[trigger] res@[i]) <= radius
                    && res@[i].q < center.q + q,
            forall|c: AxialCoord|
                hex_distance(center, c) <= radius && c.q < center.q + q ==> res@.contains(c),
        decreases radius + 1 - q,
    {
        let lo: i32 = if -radius > -q - radius {
            -radius
        } else {
            -q - radius
        };
        let hi: i32 = if radius < -q + radius {
            radius
        } else {
            -q + radius
        };
        let mut r: i32 = lo;
        while r <= hi
            invariant
                0 <= radius,
                ball_defined(center, radius),
                -radius <= q <= radius,
                lo == max3(-radius, -q - radius, -radius),
                hi as int == (if radius < -q + radius { radius as int } else { -q + radius }),
                lo <= r <= hi + 1,
                strictly_ordered(res@),
                forall|i: int|
                    0 <= i < res.len() ==> hex_distance(center, #[trigger] res@[i]) <= radius
                        && (res@[i].q < center.q + q || (res@[i].q == center.q + q && res@[i].r
                        < center.r + r)),
                forall|c: AxialCoord|
                    hex_distance(center, c) <= radius && (c.q < center.q + q || (c.q == center.q
                        + q && c.r < center.r + r)) ==> res@.contains(c),
            decreases hi + 1 - r,
        {
            let target = AxialCoord::new(center.q + q, center.r + r);
            proof {
                lemma_within_radius(center, target, radius as int);
            }
            let ghost old_res = res@;
            res.push(target);
            proof {
                assert forall|i: int, j: int| 0 <= i < j < res@.len() implies coord_before(
                    #[trigger] res@[i],
                    #[trigger] res@[j],
                ) by {
                    if j < old_res.len() {
                        assert(old_res[i] == res@[i] && old_res[j] == res@[j]);
                    } else {
                        assert(old_res[i] == res@[i]);
                    }
                }
                assert forall|c: AxialCoord|
                    hex_distance(center, c) <= radius && (c.q < center.q + q || (c.q == center.q
                        + q && c.r < center.r + r + 1)) implies res@.contains(c) by {
                    if c == target {
                        assert(res@[res@.len() - 1] == target);
                    } else {
                        assert(old_res.contains(c));
                        let k = choose|k: int| 0 <= k < old_res.len() && old_res[k] == c;
                        assert(res@[k] == c);
                    }
                }
            }
            r = r + 1;
        }
        proof {
            assert forall|c: AxialCoord|
                hex_distance(center, c) <= radius && c.q < center.q + q + 1 implies res@.contains(
                c,
            ) by {
                lemma_within_radius(center, c, radius as int);
            }
        }
        q = q + 1;
    }
    proof {
        assert forall|c: AxialCoord| res@.contains(c) <==> hex_distance(center, c) <= radius by {
            lemma_within_radius(center, c, radius as int);
            if res@.contains(c) {
                let k = choose|k: int| 0 <= k < res@.len() && res@[k] == c;
                assert(hex_distance(center, res@[k]) <= radius);
            }
        }
    }
    res
}


/// Distance from the map centre beyond which cells are ocean: two less than the
/// map radius, and at least one.
pub open spec fn land_radius(radius: int) -> int {
    if radius - 2 >= 1 {
        radius - 2
    } else {
        1
    }
}

/// The centre cell of the map.
pub open spec fn origin() -> AxialCoord {
    AxialCoord { q: 0, r: 0 }
}

/// The land cells of a map of the given radius, in increasing `(q, r)` order:
/// the cells of the hexagon of that radius around the centre that also lie within
/// the land radius, so that an ocean border surrounds the world.
pub fn land_coords(radius: i32) -> (res: Vec<AxialCoord>)
    requires
        ball_defined(origin(), radius),
    ensures
        strictly_ordered(res@),
        forall|c: AxialCoord|
            res@.contains(c) <==> (hex_distance(origin(), c) <= radius && hex_distance(c, origin())
                <= land_radius(radius as int)),
{
    let center = AxialCoord::new(0, 0);
    let ball = hex_ball(center, radius);
    let land: i32 = if radius >= 3 {
        radius - 2
    } else {
        1
    };
    let mut res: Vec<AxialCoord> = Vec::new();
    let mut i: usize = 0;
    while i < ball.len()
        invariant
            0 <= i <= ball.len(),
            land == land_radius(radius as int),
            center == origin(),
            strictly_ordered(ball@),
            forall|c: AxialCoord| ball@.contains(c) <==> hex_distance(center, c) <= radius,
            strictly_ordered(res@),
            forall|k: int|
                #![trigger res@[k]]
                0 <= k < res.len() ==> exists|j: int| 0 <= j < i && #[trigger] ball@[j] == res@[k],
            forall|c: AxialCoord|
                res@.contains(c) <==> (exists|j: int| 0 <= j < i && #[trigger] ball@[j] == c)
                    && hex_distance(c, center) <= land,
        decreases ball.len() - i,
    {
        let c = ball[i];
        proof {
            assert(ball@.contains(c));
            lemma_hex_norm_is_max(c.q - center.q, c.r - center.r);
            lemma_hex_norm_is_max(center.q - c.q, center.r - c.r);
        }
        let ghost old_res = res@;
        if axial_distance(c, center) <= land {
            res.push(c);
            proof {
                assert forall|a: int, b: int| 0 <= a < b < res@.len() implies coord_before(
                    #[trigger] res@[a],
                    #[trigger] res@[b],
                ) by {
                    if b < old_res.len() {
                        assert(old_res[a] == res@[a] && old_res[b] == res@[b]);
                    } else {
                        assert(res@[a] == old_res[a]);
                        let j = choose|j: int| 0 <= j < i && #[trigger] ball@[j] == old_res[a];
                        assert(ball@[j] == res@[a]);
                    }
                }
                assert forall|k: int| 0 <= k < res.len() implies exists|j: int|
                    0 <= j < i + 1 && #[trigger] ball@[j] == #[trigger] res@[k] by {
                    if k < old_res.len() {
                        assert(res@[k] == old_res[k]);
                        let j = choose|j: int| 0 <= j < i && #[trigger] ball@[j] == old_res[k];
                        assert(ball@[j] == res@[k]);
                    } else {
                        assert(ball@[i as int] == res@[k]);
                    }
                }
            }
        }
        proof {
            assert forall|x: AxialCoord|
                res@.contains(x) <==> (exists|j: int| 0 <= j < i + 1 && #[trigger] ball@[j] == x)
                    && hex_distance(x, center) <= land by {
                if res@.contains(x) {
                    let k = choose|k: int| 0 <= k < res@.len() && res@[k] == x;
                    if k < old_res.len() {
                        assert(old_res[k] == x);
                        assert(old_res.contains(x));
                        let j = choose|j: int| 0 <= j < i && #[trigger] ball@[j] == x;
                        assert(ball@[j] == x);
                    } else {
                        assert(ball@[i as int] == x);
                    }
                }
                if (exists|j: int| 0 <= j < i + 1 && #[trigger] ball@[j] == x) && hex_distance(
                    x,
                    center,
                ) <= land {
                    let j = choose|j: int| 0 <= j < i + 1 && #[trigger] ball@[j] == x;
                    if j < i {
                        assert(old_res.contains(x));
                        let k = choose|k: int| 0 <= k < old_res.len() && old_res[k] == x;
                        assert(res@[k] == x);
                    } else {
                        assert(res@[res@.len() - 1] == x);
                    }
                }
            }
        }
        i = i + 1;
    }
    proof {
        assert forall|c: AxialCoord|
            res@.contains(c) <==> (hex_distance(origin(), c) <= radius && hex_distance(c, origin())
                <= land_radius(radius as int)) by {
            if hex_distance(origin(), c) <= radius {
                assert(ball@.contains(c));
                let j = choose|j: int| 0 <= j < ball@.len() && ball@[j] == c;
                assert(ball@[j] == c);
            }
            if res@.contains(c) {
                let j = choose|j: int| 0 <= j < ball@.len() && #[trigger] ball@[j] == c;
                assert(ball@.contains(ball@[j]));
            }
        }
    }
    res
}


/// Hex distance is a metric: never negative, zero exactly between a cell and
/// itself, the same in both directions, and never longer than a detour through a
/// third cell.
pub proof fn law_hex_distance_is_metric(a: AxialCoord, b: AxialCoord, c: AxialCoord)
    ensures
        hex_distance(a, b) >= 0,
        hex_distance(a, b) == 0 <==> a == b,
        hex_distance(a, b) == hex_distance(b, a),
        hex_distance(a, c) <= hex_distance(a, b) + hex_distance(b, c),
{
    lemma_hex_norm_is_max(a.q - b.q, a.r - b.r);
    lemma_hex_norm_is_max(b.q - a.q, b.r - a.r);
    lemma_hex_norm_is_max(a.q - c.q, a.r - c.r);
    lemma_hex_norm_is_max(b.q - c.q, b.r - c.r);
}

/// The neighbours of a cell are exactly the six distinct cells one step away.
pub proof fn law_neighbors_are_adjacent(c: AxialCoord)
    requires
        neighbors_defined(c),
    ensures
        forall|k: int| 0 <= k < 6 ==> hex_distance(c, #[trigger] spec_neighbors(c)[k]) == 1,
        spec_neighbors(c).no_duplicates(),
        forall|d: AxialCoord| hex_distance(c, d) == 1 ==> #[trigger] spec_neighbors(c).contains(d),
{
    let n = spec_neighbors(c);
    assert forall|k: int| 0 <= k < 6 implies hex_distance(c, #[trigger] n[k]) == 1 by {
        lemma_hex_norm_is_max(c.q - n[k].q, c.r - n[k].r);
    }
    assert forall|d: AxialCoord| hex_distance(c, d) == 1 implies #[trigger] n.contains(d) by {
        lemma_hex_norm_is_max(c.q - d.q, c.r - d.r);
        if d.q == c.q + 1 && d.r == c.r {
            assert(n[0] == d);
        } else if d.q == c.q - 1 && d.r == c.r {
            assert(n[1] == d);
        } else if d.q == c.q && d.r == c.r + 1 {
            assert(n[2] == d);
        } else if d.q == c.q && d.r == c.r - 1 {
            assert(n[3] == d);
        } else if d.q == c.q + 1 && d.r == c.r - 1 {
            assert(n[4] == d);
        } else {
            assert(n[5] == d);
        }
    }
}

/// The five capitals belong to the five nations, in declaration order, and on a
/// map of radius at least 4 no two capitals share a cell. (On a map of radius 3
/// the capitals of Sora and Aqua coincide.)
pub proof fn law_pentagon_capitals_distinct(radius: int)
    requires
        radius >= 4,
        radius - 2 <= i32::MAX,
    ensures
        spec_pentagon_centers(radius).len() == 5,
        spec_pentagon_centers(radius).map_values(|p: (Nation, AxialCoord)| p.0) == seq![
            Nation::Tera,
            Nation::Sora,
            Nation::Aqua,
            Nation::Solar,
            Nation::Luna,
        ],
        forall|i: int, j: int|
            0 <= i < j < 5 ==> (#[trigger] spec_pentagon_centers(radius)[i]).1 != (
            #[trigger] spec_pentagon_centers(radius)[j]).1,
{
    let s = spec_pentagon_centers(radius);
    let r = radius - 2;
    assert(s.map_values(|p: (Nation, AxialCoord)| p.0) =~= seq![
        Nation::Tera,
        Nation::Sora,
        Nation::Aqua,
        Nation::Solar,
        Nation::Luna,
    ]);
    assert(trunc_div(r, 2) >= 1);
    assert(trunc_div(-r, 2) <= -1);
}

} // verus!
