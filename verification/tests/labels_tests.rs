use engine::components::{BehaviorState, Faction, GoalKind};
use engine::events::Sentiment;
use engine::localization::{
    behavior_color, behavior_label, faction_color, faction_label, format_number_commas, goal_label,
    sentiment_color, sentiment_label, TermColor,
};
use engine::nation::Nation;
use engine::resources::SpaceStage;

#[test]
fn behavior_labels_and_colors() {
    assert_eq!(behavior_label(BehaviorState::Idle), "Idle");
    assert_eq!(behavior_label(BehaviorState::Hunt), "Hunt");
    assert_eq!(behavior_color(BehaviorState::Rest), TermColor::Magenta);
    assert_eq!(behavior_color(BehaviorState::Trade), TermColor::BrightCyan);
}

#[test]
fn faction_labels_and_colors() {
    assert_eq!(faction_label(Faction::Neutral), "Neutral Alliance");
    assert_eq!(faction_label(Faction::TempleOfSuns), "Temple of Suns");
    assert_eq!(faction_color(Faction::MerchantGuild), TermColor::BrightYellow);
    assert_eq!(faction_color(Faction::BanditClans), TermColor::Red);
}

#[test]
fn sentiment_labels_and_colors() {
    assert_eq!(sentiment_label(Sentiment::Positive), "Positive");
    assert_eq!(sentiment_label(Sentiment::Negative), "Negative");
    assert_eq!(sentiment_color(Sentiment::Neutral), TermColor::Yellow);
}

#[test]
fn goal_labels() {
    assert_eq!(goal_label(GoalKind::Glory), "Glory");
    assert_eq!(goal_label(GoalKind::Influence), "Influence");
}

#[test]
fn nation_names_and_colors() {
    assert_eq!(Nation::Tera.name(), "Tera");
    assert_eq!(Nation::Solar.name(), "Solar");
    assert_eq!(Nation::Sora.logging_color(), TermColor::Red);
    assert_eq!(Nation::Luna.logging_color(), TermColor::White);
    assert_eq!(Nation::Luna.ordinal(), 4);
}

#[test]
fn space_stage_labels() {
    assert_eq!(SpaceStage::Jovian.label(), "Jovian");
    assert_eq!(SpaceStage::default(), SpaceStage::Moon);
    assert_eq!(SpaceStage::default().label(), "Moon");
}

#[test]
fn commas_small_numbers() {
    assert_eq!(format_number_commas(0), "0");
    assert_eq!(format_number_commas(7), "7");
    assert_eq!(format_number_commas(999), "999");
}

#[test]
fn commas_group_thousands() {
    assert_eq!(format_number_commas(1000), "1,000");
    assert_eq!(format_number_commas(100000), "100,000");
    assert_eq!(format_number_commas(1234567), "1,234,567");
    assert_eq!(format_number_commas(1000001), "1,000,001");
}

#[test]
fn commas_largest_number() {
    assert_eq!(format_number_commas(u64::MAX), "18,446,744,073,709,551,615");
}

#[test]
fn commas_strip_back_to_number() {
    for n in [0u64, 12, 305, 4096, 65536, 9_876_543_210, 3_000_000] {
        let s = format_number_commas(n);
        assert!(!s.starts_with(','));
        assert_eq!(s.replace(',', ""), n.to_string());
    }
}

#[test]
fn commas_group_sizes() {
    for n in [0u64, 7, 42, 999, 1_000, 12_345, 999_999, 1_000_000, 98_765_432, u64::MAX] {
        let s = engine::format_number_commas(n);
        let digits = n.to_string();
        let groups: Vec<&str> = s.split(',').collect();
        assert_eq!(s.replace(',', ""), digits);
        assert_eq!(groups.len(), (digits.len() + 2) / 3);
        assert!((1..=3).contains(&groups[0].len()));
        assert!(groups[1..].iter().all(|g| g.len() == 3));
    }
}
