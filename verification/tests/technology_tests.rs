use engine::technology::{next_tier_position, tier_position, Era};

fn tree_eras() -> Vec<Era> {
    vec![
        Era::Dawn,
        Era::Ancient,
        Era::Classical,
        Era::Medieval,
        Era::Industrial,
        Era::Modern,
        Era::Nuclear,
    ]
}

#[test]
fn tier_position_finds_the_era() {
    let eras = tree_eras();
    assert_eq!(tier_position(&eras, Era::Dawn), Some(0));
    assert_eq!(tier_position(&eras, Era::Medieval), Some(3));
    assert_eq!(tier_position(&eras, Era::Nuclear), Some(6));
}

#[test]
fn tier_position_takes_the_first_match() {
    let eras = vec![Era::Ancient, Era::Dawn, Era::Ancient];
    assert_eq!(tier_position(&eras, Era::Ancient), Some(0));
    assert_eq!(tier_position(&eras, Era::Modern), None);
    assert_eq!(tier_position(&Vec::new(), Era::Dawn), None);
}

#[test]
fn next_tier_position_looks_one_era_ahead() {
    let eras = tree_eras();
    assert_eq!(next_tier_position(&eras, Era::Dawn), Some(1));
    assert_eq!(next_tier_position(&eras, Era::Modern), Some(6));
    assert_eq!(next_tier_position(&eras, Era::Nuclear), None);
    let partial = vec![Era::Dawn, Era::Ancient];
    assert_eq!(next_tier_position(&partial, Era::Ancient), None);
}
