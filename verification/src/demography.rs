//! The age structure of a nation and its flow from one generation to the next.

use vstd::prelude::*;

verus! {

/// `a + b`, held at `u64::MAX`.
pub open spec fn sat_add(a: int, b: int) -> int {
    if a + b > u64::MAX {
        u64::MAX as int
    } else {
        a + b
    }
}

/// `a - b`, held at zero.
pub open spec fn sat_sub(a: int, b: int) -> int {
    if a < b {
        0
    } else {
        a - b
    }
}

/// The cohorts `(youth, adult, elder)` after one tick of flows `(births,
/// youths coming of age, adults growing old, elders dying)`: births join the
/// youths, each cohort hands its ageing members to the next, and the elders
/// lose those who die. Each step saturates at zero and at `u64::MAX`.
pub open spec fn cohorts_after(cohorts: (u64, u64, u64), flows: (u64, u64, u64, u64)) -> (
    int,
    int,
    int,
) {
    (
        sat_sub(sat_add(cohorts.0 as int, flows.0 as int), flows.1 as int),
        sat_sub(sat_add(cohorts.1 as int, flows.1 as int), flows.2 as int),
        sat_sub(sat_add(cohorts.2 as int, flows.2 as int), flows.3 as int),
    )
}

/// Moves a nation's age cohorts `(youth, adult, elder)` on by one tick of flows
/// `(births, youths coming of age, adults growing old, elders dying)`, as
/// `cohorts_after` says, and answers the new cohorts with the new population,
/// their sum; `None` when that sum does not fit in a `u64`.
pub fn age_cohorts(cohorts: (u64, u64, u64), flows: (u64, u64, u64, u64)) -> (res: Option<
    (u64, u64, u64, u64),
>)
    ensures
        ({
            let n = cohorts_after(cohorts, flows);
            match res {
                Some(r) => {
                    &&& n.0 + n.1 + n.2 <= u64::MAX
                    &&& r.0 == n.0
                    &&& r.1 == n.1
                    &&& r.2 == n.2
                    &&& r.3 == n.0 + n.1 + n.2
                },
                None => n.0 + n.1 + n.2 > u64::MAX,
            }
        }),
{
    let (youth, adult, elder) = cohorts;
    let (births, aging_youth, aging_adult, elder_mortality) = flows;
    let youth = youth.saturating_add(births).saturating_sub(aging_youth);
    let adult = adult.saturating_add(aging_youth).saturating_sub(aging_adult);
    let elder = elder.saturating_add(aging_adult).saturating_sub(elder_mortality);
    match youth.checked_add(adult) {
        Some(partial) => match partial.checked_add(elder) {
            Some(population) => Some((youth, adult, elder, population)),
            None => None,
        },
        None => None,
    }
}

} // verus!
