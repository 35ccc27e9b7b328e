use adg_companion::capture::{
    peak_candidates, peak_field, GameIdLookup, GameOver, LiveCapture, LookupStep, Reading,
    LOOKUP_ATTEMPTS, PEAK_COUNT,
};
use adg_companion::json::Json;
use adg_companion::lcu::{LcuCall, LcuError};
use adg_companion::outbox::{Outbox, OutboxItem};
use adg_companion::state::AppState;
use adg_companion::store::Config;

fn fresh() -> AppState {
    AppState::start(Config::default(), Outbox::load(None), Ok(None))
}

fn doc(text: &str) -> Json {
    Json::parse(text.as_bytes()).unwrap()
}

fn reading(value: f64) -> Option<Reading> {
    Some(Reading {
        bits: value.to_bits(),
        number: Json::from_value(serde_json::Value::from(value)),
    })
}

/// The readings of a round in which only the first statistic is there.
fn only_first(value: f64) -> Vec<Option<Reading>> {
    let mut all = vec![reading(value)];
    all.resize_with(PEAK_COUNT, || None);
    all
}

fn peak_of(values: &[f64]) -> serde_json::Value {
    let mut s = fresh();
    let mut capture = LiveCapture::new();
    for value in values {
        capture.in_game(Some(doc("{}")), only_first(*value));
    }
    capture.finish_game(&mut s, Some(1));
    match s.outbox.entries().remove(0).item {
        OutboxItem::Snapshot { peak, .. } => peak.to_value()["attackDamage"].clone(),
        other => panic!("{other:?}"),
    }
}

#[test]
fn the_statistics_of_the_build_are_picked() {
    let names: Vec<&str> = (0..PEAK_COUNT).map(peak_field).collect();
    assert_eq!(
        names,
        vec![
            "attackDamage", "abilityPower", "armor", "magicResist", "maxHealth", "attackSpeed",
            "moveSpeed", "lifeSteal", "omnivamp"
        ]
    );
    let found = peak_candidates(&doc(r#"{"armor":3,"omnivamp":0.5,"level":9}"#));
    assert_eq!(found.len(), PEAK_COUNT);
    let there: Vec<bool> = found.iter().map(|c| c.is_some()).collect();
    assert_eq!(there, vec![false, false, true, false, false, false, false, false, true]);
    assert_eq!(found[2].as_ref().unwrap().as_i64(), Some(3));
}

#[test]
fn the_peak_is_the_highest_reading() {
    assert_eq!(peak_of(&[1.5, 99.25, 3.0]), serde_json::Value::from(99.25));
    assert_eq!(peak_of(&[-5.0, -2.0, -9.0]), serde_json::Value::from(-2.0));
    assert_eq!(peak_of(&[-5.0, 0.0]), serde_json::Value::from(0.0));
    assert_eq!(peak_of(&[2.0, -3.0]), serde_json::Value::from(2.0));
    assert_eq!(peak_of(&[f64::MIN]), serde_json::Value::from(f64::MIN));
    assert_eq!(peak_of(&[5e-324, 0.0]), serde_json::Value::from(5e-324));
}

#[test]
fn readings_are_ordered_as_their_doubles() {
    let values = [f64::MIN, -1.0, -5e-324, -0.0, 0.0, 5e-324, 1.0, 1.5, f64::MAX];
    for &a in &values {
        for &b in &values {
            let kept = peak_of(&[a, b]).as_f64().unwrap();
            let expected = if b > a { b } else { a };
            assert_eq!(kept.to_bits(), expected.to_bits(), "{a} {b}");
        }
    }
}

#[test]
fn a_missing_reading_changes_nothing() {
    let mut s = fresh();
    let mut capture = LiveCapture::new();
    capture.in_game(Some(doc(r#"{"a":1}"#)), only_first(4.0));
    capture.in_game(Some(doc(r#"{"a":2}"#)), Vec::new());
    capture.finish_game(&mut s, Some(8));
    match s.outbox.entries().remove(0).item {
        OutboxItem::Snapshot { game_id, champion_stats, peak } => {
            assert_eq!(game_id, 8);
            assert_eq!(champion_stats.get_i64("a"), Some(2));
            assert_eq!(peak.to_value(), doc(r#"{"attackDamage":4.0}"#).to_value());
        }
        other => panic!("{other:?}"),
    }
}

#[test]
fn the_id_is_wanted_until_it_is_told() {
    let mut capture = LiveCapture::new();
    assert!(matches!(capture.out_of_game(), GameOver::Idle));
    assert!(capture.in_game(None, Vec::new()));
    assert!(matches!(capture.out_of_game(), GameOver::Idle));
    capture.note_game_id(Err(LcuError::Asking(LcuCall::GameflowSession)));
    capture.note_game_id(Ok(None));
    assert!(capture.in_game(Some(doc("{}")), Vec::new()));
    assert!(matches!(capture.out_of_game(), GameOver::EndedUnknown));
    capture.note_game_id(Ok(Some(31)));
    assert!(!capture.in_game(None, Vec::new()));
    assert!(matches!(capture.out_of_game(), GameOver::Ended { game_id: 31 }));
}

#[test]
fn the_end_of_a_game_is_queued_once() {
    let mut s = fresh();
    let mut capture = LiveCapture::new();
    for _ in 0..2 {
        capture.in_game(Some(doc("{}")), Vec::new());
        capture.note_game_id(Ok(Some(31)));
        assert!(capture.finish_game(&mut s, Some(31)));
        assert!(matches!(capture.out_of_game(), GameOver::Idle));
    }
    assert_eq!(s.outbox.len(), 2);
    assert!(s.outbox.has_snapshot_for(31));
    assert!(s.outbox.has_match_for(31));
    assert!(s.outbox.take_save_due());
}

#[test]
fn a_synced_game_leaves_its_snapshot_only() {
    let mut s = fresh();
    s.config.synced_ids.insert(31);
    let mut capture = LiveCapture::new();
    capture.in_game(Some(doc("{}")), Vec::new());
    assert!(capture.finish_game(&mut s, Some(31)));
    assert_eq!(s.outbox.len(), 1);
    assert!(!s.outbox.has_match_for(31));
}

#[test]
fn a_game_without_an_id_is_lost() {
    let mut s = fresh();
    let mut capture = LiveCapture::new();
    capture.in_game(Some(doc("{}")), only_first(9.0));
    assert!(!capture.finish_game(&mut s, None));
    assert_eq!(s.outbox.len(), 0);
    assert!(!s.outbox.take_save_due());
    assert!(matches!(capture.out_of_game(), GameOver::Idle));
    assert!(!capture.finish_game(&mut s, Some(2)));
    assert_eq!(s.outbox.len(), 0);
}

#[test]
fn the_lookup_ends() {
    let mut lookup = GameIdLookup::new();
    for _ in 1..LOOKUP_ATTEMPTS {
        let step = lookup.resolve_game_id(Ok(Vec::new()));
        assert!(matches!(step, LookupStep::Again));
    }
    let last = lookup.resolve_game_id(Err(LcuError::Reading(LcuCall::MatchHistory)));
    assert!(matches!(last, LookupStep::GiveUp));
    assert_eq!(lookup.attempts, 6);

    let mut lookup = GameIdLookup::new();
    let page = vec![doc(r#"{"queueId":2400,"gameId":77}"#)];
    assert!(matches!(lookup.resolve_game_id(Ok(page)), LookupStep::Found { game_id: 77 }));
}

#[test]
fn a_game_that_was_not_seen_leaves_no_id() {
    let mut s = fresh();
    let mut capture = LiveCapture::new();
    assert!(capture.in_game(None, Vec::new()));
    capture.note_game_id(Ok(Some(1)));
    assert!(!capture.in_game(None, Vec::new()));
    assert!(matches!(capture.out_of_game(), GameOver::Idle));

    assert!(capture.in_game(Some(doc(r#"{"armor":9}"#)), Vec::new()));
    assert!(matches!(capture.out_of_game(), GameOver::EndedUnknown));
    capture.note_game_id(Ok(Some(2)));
    assert!(matches!(capture.out_of_game(), GameOver::Ended { game_id: 2 }));
    assert!(matches!(capture.out_of_game(), GameOver::Ended { game_id: 2 }));
    assert!(capture.finish_game(&mut s, Some(2)));
    let ids: Vec<i64> = s.outbox.entries().iter().map(|e| e.item.game_id()).collect();
    assert_eq!(ids, vec![2, 2]);
    match s.outbox.entries().remove(0).item {
        OutboxItem::Snapshot { champion_stats, .. } => {
            assert_eq!(champion_stats.get_i64("armor"), Some(9));
        }
        other => panic!("{other:?}"),
    }
}

#[test]
fn a_new_game_starts_without_the_peaks_of_the_last() {
    let mut s = fresh();
    let mut capture = LiveCapture::new();
    capture.in_game(Some(doc("{}")), only_first(90.0));
    capture.finish_game(&mut s, Some(1));
    capture.in_game(Some(doc("{}")), only_first(3.0));
    capture.finish_game(&mut s, Some(2));
    match s.outbox.entries().remove(2).item {
        OutboxItem::Snapshot { game_id, peak, .. } => {
            assert_eq!(game_id, 2);
            assert_eq!(peak.to_value()["attackDamage"], serde_json::Value::from(3.0));
        }
        other => panic!("{other:?}"),
    }
}

#[test]
fn the_lookup_waits_for_a_game_of_mayhem() {
    let other = || doc(r#"{"queueId":450,"gameId":9}"#);
    let mut lookup = GameIdLookup::new();
    assert!(matches!(lookup.resolve_game_id(Ok(vec![other()])), LookupStep::Again));
    let page = vec![doc(r#"{"queueId":2400,"gameId":10}"#), other()];
    assert!(matches!(lookup.resolve_game_id(Ok(page)), LookupStep::Found { game_id: 10 }));

    let mut lookup = GameIdLookup::new();
    for _ in 1..LOOKUP_ATTEMPTS {
        assert!(matches!(lookup.resolve_game_id(Ok(vec![other()])), LookupStep::Again));
    }
    assert!(matches!(lookup.resolve_game_id(Ok(vec![other()])), LookupStep::GiveUp));

    let mut lookup = GameIdLookup::new();
    let page = vec![other(), doc(r#"{"queueId":2400}"#), doc(r#"{"queueId":2400,"gameId":8}"#)];
    assert!(matches!(lookup.resolve_game_id(Ok(page)), LookupStep::Found { game_id: 8 }));
}
