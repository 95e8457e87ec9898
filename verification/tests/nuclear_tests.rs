use engine::grid::AxialCoord;
use engine::nuclear::{mark_nuclear_blast, nuclear_decay_system, NuclearBlasts};

fn c(q: i32, r: i32) -> AxialCoord {
    AxialCoord::new(q, r)
}

#[test]
fn new_blasts_are_empty() {
    let blasts = NuclearBlasts::new();
    assert_eq!(blasts.len(), 0);
    assert_eq!(blasts.get(c(0, 0)), None);
}

#[test]
fn insert_and_overwrite() {
    let mut blasts = NuclearBlasts::new();
    blasts.insert(c(5, 5), 3);
    blasts.insert(c(6, 5), 1);
    blasts.insert(c(5, 5), 9);
    assert_eq!(blasts.len(), 2);
    assert_eq!(blasts.get(c(5, 5)), Some(9));
    assert_eq!(blasts.get(c(6, 5)), Some(1));
    assert_eq!(blasts.entries().len(), 2);
}

#[test]
fn mark_radius_one_marks_seven_cells() {
    let mut blasts = NuclearBlasts::new();
    let impacted = mark_nuclear_blast(&mut blasts, c(0, 0), 1, 8);
    assert_eq!(impacted.len(), 7);
    assert_eq!(blasts.len(), 7);
    for cell in impacted {
        assert_eq!(blasts.get(cell), Some(8));
    }
    assert_eq!(blasts.get(c(2, 0)), None);
}

#[test]
fn mark_overwrites_existing_timers_and_keeps_others() {
    let mut blasts = NuclearBlasts::new();
    blasts.insert(c(0, 0), 2);
    blasts.insert(c(10, 10), 5);
    let impacted = mark_nuclear_blast(&mut blasts, c(0, 0), 0, 8);
    assert_eq!(impacted, vec![c(0, 0)]);
    assert_eq!(blasts.get(c(0, 0)), Some(8));
    assert_eq!(blasts.get(c(10, 10)), Some(5));
    assert_eq!(blasts.len(), 2);
}

#[test]
fn mark_negative_radius_changes_nothing() {
    let mut blasts = NuclearBlasts::new();
    blasts.insert(c(1, 1), 4);
    let impacted = mark_nuclear_blast(&mut blasts, c(1, 1), -1, 8);
    assert!(impacted.is_empty());
    assert_eq!(blasts.len(), 1);
    assert_eq!(blasts.get(c(1, 1)), Some(4));
}

#[test]
fn decay_counts_down_and_clears_zero() {
    let mut blasts = NuclearBlasts::new();
    blasts.insert(c(0, 0), 0);
    blasts.insert(c(1, 0), 2);
    nuclear_decay_system(&mut blasts);
    assert_eq!(blasts.get(c(0, 0)), None);
    assert_eq!(blasts.get(c(1, 0)), Some(1));
    assert_eq!(blasts.len(), 1);
}

#[test]
fn blast_fades_after_duration_plus_one_steps() {
    let mut blasts = NuclearBlasts::new();
    mark_nuclear_blast(&mut blasts, c(3, -3), 2, 8);
    assert_eq!(blasts.len(), 19);
    for step in 0..8u8 {
        nuclear_decay_system(&mut blasts);
        assert_eq!(blasts.get(c(3, -3)), Some(7 - step));
        assert_eq!(blasts.len(), 19);
    }
    nuclear_decay_system(&mut blasts);
    assert_eq!(blasts.get(c(3, -3)), None);
    assert_eq!(blasts.len(), 0);
}
