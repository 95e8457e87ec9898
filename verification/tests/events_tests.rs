use engine::events::{Sentiment, WorldEventLog, WorldEventTag};
use engine::localization::TermColor;

#[test]
fn tag_categories() {
    assert_eq!(WorldEventTag::Trade.category(), "Trade");
    assert_eq!(WorldEventTag::Warfare.category(), "War");
    assert_eq!(WorldEventTag::EraShift.category(), "Era");
    assert_eq!(WorldEventTag::ScienceVictory.category(), "Science");
    assert_eq!(WorldEventTag::InterstellarProgress.category(), "Space");
}

#[test]
fn tag_sentiments() {
    assert_eq!(WorldEventTag::MacroShock.sentiment(), Sentiment::Negative);
    assert_eq!(WorldEventTag::Warfare.sentiment(), Sentiment::Negative);
    assert_eq!(WorldEventTag::Social.sentiment(), Sentiment::Positive);
    assert_eq!(WorldEventTag::InterstellarVictory.sentiment(), Sentiment::Positive);
}

#[test]
fn tag_category_colors() {
    assert_eq!(WorldEventTag::Social.category_color(), TermColor::BrightMagenta);
    assert_eq!(WorldEventTag::Warfare.category_color(), TermColor::Red);
    assert_eq!(WorldEventTag::InterstellarVictory.category_color(), TermColor::White);
}

#[test]
fn log_keeps_latest_events() {
    let mut log = WorldEventLog::new(3);
    for e in 1..=5 {
        log.push(e);
    }
    assert_eq!(log.snapshot(), vec![3, 4, 5]);
    assert_eq!(log.len(), 3);
    assert_eq!(log.capacity(), 3);
}

#[test]
fn log_below_capacity_keeps_all() {
    let mut log = WorldEventLog::new(10);
    log.push("a");
    log.push("b");
    assert_eq!(log.snapshot(), vec!["a", "b"]);
}

#[test]
fn log_with_zero_capacity_keeps_growing() {
    let mut log = WorldEventLog::new(0);
    log.push(1);
    log.push(2);
    assert_eq!(log.snapshot(), vec![1, 2]);
}

#[test]
fn log_recent_is_newest_first() {
    let mut log = WorldEventLog::new(5);
    for e in 1..=4 {
        log.push(e);
    }
    assert_eq!(log.recent(3), vec![4, 3, 2]);
    assert_eq!(log.recent(10), vec![4, 3, 2, 1]);
    assert!(log.recent(0).is_empty());
}

#[test]
fn log_default_capacity() {
    let log: WorldEventLog<u8> = WorldEventLog::default();
    assert_eq!(log.capacity(), 256);
    assert_eq!(log.len(), 0);
}
