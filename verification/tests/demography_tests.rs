use engine::demography::age_cohorts;

#[test]
fn cohorts_flow_from_youth_to_elders() {
    let res = age_cohorts((1_000, 2_000, 500), (10, 20, 30, 40));
    assert_eq!(res, Some((990, 1_990, 490, 3_470)));
}

#[test]
fn cohorts_stop_at_zero() {
    let res = age_cohorts((5, 0, 1), (0, 10, 3, 100));
    assert_eq!(res, Some((0, 7, 0, 7)));
}

#[test]
fn cohorts_saturate_at_the_top() {
    let res = age_cohorts((u64::MAX, 0, 0), (5, 0, 0, 0));
    assert_eq!(res, Some((u64::MAX, 0, 0, u64::MAX)));
}

#[test]
fn population_that_overflows_is_refused() {
    assert_eq!(age_cohorts((u64::MAX, 1, 0), (0, 0, 0, 0)), None);
}
