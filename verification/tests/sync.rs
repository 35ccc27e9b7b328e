use adg_companion::adg::{post_snapshot, AdgError};
use adg_companion::game::{GameDetail, Participant};
use adg_companion::http::{Exchange, Reply, Status};
use adg_companion::json::Json;
use adg_companion::lcu::{LcuCall, LcuCreds, LcuError, Summoner};
use adg_companion::outbox::{Outbox, OutboxEntry, OutboxFile, OutboxItem};
use adg_companion::state::{AppState, UpdateInfo};
use adg_companion::store::Config;
use adg_companion::sync::{enqueue_matches, SyncAction, SyncReport, SyncRun};
use std::collections::HashSet;

fn logged_in() -> AppState {
    AppState::start(Config::default(), Outbox::load(None), Ok(Some("jwt".to_string())))
}

fn begin(s: &AppState) -> SyncRun {
    SyncRun::start(s, "http://h".to_string(), "1.0.0").unwrap()
}

fn creds(token: &str) -> LcuCreds {
    LcuCreds { port: 80, token: token.to_string() }
}

fn player() -> Summoner {
    Summoner {
        puuid: "pu".to_string(),
        game_name: "N".to_string(),
        tag_line: "BR1".to_string(),
    }
}

fn snapshot(game_id: i64) -> OutboxItem {
    OutboxItem::Snapshot {
        game_id,
        champion_stats: Json::Object(Vec::new()),
        peak: Json::Object(Vec::new()),
    }
}

fn payload(game_id: i64) -> OutboxItem {
    OutboxItem::MatchPayload { game_id, payload: Json::Int(game_id) }
}

fn games(text: &str) -> Vec<Json> {
    match Json::parse(text.as_bytes()).unwrap() {
        Json::List(items) => items,
        other => panic!("{other:?}"),
    }
}

fn detail(participants: Vec<Participant>) -> GameDetail {
    GameDetail {
        game_id: 7,
        game_creation: 1,
        game_duration: 2,
        participant_identities: Vec::new(),
        participants,
    }
}

/// A sync that has found the client and the player.
fn with_player(s: &mut AppState) -> (SyncRun, SyncAction) {
    let mut run = begin(s);
    run.discovered(s, Some(creds("t")));
    s.backfilled_lcu = Some("80:t".to_string());
    let action = run.summoner_read(s, Ok(player()));
    (run, action)
}

#[test]
fn a_sync_needs_a_session() {
    let s = AppState::start(Config::default(), Outbox::load(None), Ok(None));
    let refused = SyncRun::start(&s, "http://h".to_string(), "1");
    assert_eq!(refused.unwrap_err(), "não logado");
}

#[test]
fn without_the_client_only_snapshots_are_sent() {
    let mut s = logged_in();
    s.lcu_connected = true;
    s.outbox.push(OutboxItem::PendingMatch { game_id: 1 });
    s.outbox.push(payload(2));
    let third = s.outbox.push(snapshot(3));
    let mut run = begin(&s);
    match run.discovered(&mut s, None) {
        SyncAction::PostSnapshot { entry_id, game_id, request } => {
            assert_eq!((entry_id, game_id), (third, 3));
            assert_eq!(request.url, "http://h/api/aram-mayhem/snapshot");
            assert_eq!(request.bearer.as_deref(), Some("jwt"));
            assert_eq!(request.version.1, "1.0.0");
        }
        other => panic!("{other:?}"),
    }
    assert!(!s.lcu_connected);
    assert!(matches!(run.snapshot_posted(&mut s, third, Ok(())), SyncAction::Finish));
    assert_eq!(s.outbox.len(), 2);
    let report = run.finish(&mut s, 99);
    assert_eq!((report.sent, report.total), (0, 2));
    assert_eq!(s.config.last_sync_ms, Some(99));
}

#[test]
fn the_history_is_searched_once_per_session() {
    let mut s = logged_in();
    let mut run = begin(&s);
    assert!(matches!(
        run.discovered(&mut s, Some(creds("t"))),
        SyncAction::ReadSummoner { .. }
    ));
    assert!(s.lcu_connected);
    match run.summoner_read(&mut s, Ok(player())) {
        SyncAction::ReadRecent { puuid, creds } => {
            assert_eq!(puuid, "pu");
            assert_eq!(creds.port, 80);
        }
        other => panic!("{other:?}"),
    }
    assert_eq!(s.summoner.as_ref().unwrap().game_name, "N");
    let known: HashSet<i64> = [5].into_iter().collect();
    let page = games(
        r#"[{"queueId":2400,"gameId":7},{"queueId":2400,"gameId":5},{"queueId":2400,"gameId":7}]"#,
    );
    match run.recent_read(&mut s, Ok(page), &known) {
        SyncAction::ReadDetail { entry_id, game_id, .. } => assert_eq!((entry_id, game_id), (0, 7)),
        other => panic!("{other:?}"),
    }
    assert_eq!(s.outbox.len(), 1);
    assert!(s.outbox.take_save_due());
    assert_eq!(s.backfilled_lcu.as_deref(), Some("80:t"));

    let mut again = begin(&s);
    again.discovered(&mut s, Some(creds("t")));
    assert!(matches!(
        again.summoner_read(&mut s, Ok(player())),
        SyncAction::ReadDetail { .. }
    ));

    let mut other_session = begin(&s);
    other_session.discovered(&mut s, Some(creds("u")));
    assert!(matches!(
        other_session.summoner_read(&mut s, Ok(player())),
        SyncAction::ReadRecent { .. }
    ));
}

#[test]
fn a_failed_search_stays_due() {
    let mut s = logged_in();
    let mut run = begin(&s);
    run.discovered(&mut s, Some(creds("t")));
    run.summoner_read(&mut s, Ok(player()));
    let action = run.recent_read(&mut s, Err(LcuError::Reading(LcuCall::MatchHistory)), &HashSet::new());
    assert!(matches!(action, SyncAction::Finish));
    assert_eq!(s.backfilled_lcu, None);
}

#[test]
fn without_the_player_the_search_is_left_out() {
    let mut s = logged_in();
    s.outbox.push(OutboxItem::PendingMatch { game_id: 1 });
    let mut run = begin(&s);
    run.discovered(&mut s, Some(creds("t")));
    let action = run.summoner_read(&mut s, Err(LcuError::Asking(LcuCall::Summoner)));
    assert!(matches!(action, SyncAction::Finish));
    assert!(s.summoner.is_none());
}

#[test]
fn a_game_goes_from_its_id_to_the_backend() {
    let mut s = logged_in();
    let id = s.outbox.push(OutboxItem::PendingMatch { game_id: 7 });
    let (mut run, action) = with_player(&mut s);
    assert!(matches!(action, SyncAction::ReadDetail { game_id: 7, .. }));
    let mine = Participant { participant_id: 1, champion_id: 22, stats: None };
    let action = run.detail_read(&mut s, id, 7, Ok(detail(vec![mine])));
    assert!(matches!(action, SyncAction::Finish));
    match &s.outbox.entries()[0].item {
        OutboxItem::MatchPayload { game_id, payload } => {
            assert_eq!(*game_id, 7);
            assert_eq!(payload.get_i64("championId"), Some(22));
        }
        other => panic!("{other:?}"),
    }

    let (mut run, action) = with_player(&mut s);
    match action {
        SyncAction::PostMatch { entry_id, game_id, request } => {
            assert_eq!((entry_id, game_id), (id, 7));
            assert_eq!(request.url, "http://h/api/aram-mayhem/matches");
            assert_eq!(request.body.get_text("puuid").map(|t| t.as_str()), Some("pu"));
            let sent = request.body.to_value();
            assert_eq!(sent["matches"].as_array().unwrap().len(), 1);
            assert_eq!(sent["matches"][0]["championId"].as_i64(), Some(22));
        }
        other => panic!("{other:?}"),
    }
    s.last_error = Some("old".to_string());
    assert!(matches!(run.match_posted(&mut s, id, 7, Ok(1)), SyncAction::Finish));
    assert!(s.config.synced_ids.contains(&7));
    assert_eq!((s.config.total_synced, s.outbox.len()), (1, 0));
    let report = run.finish(&mut s, 3);
    assert_eq!((report.sent, report.total), (1, 0));
    assert_eq!(s.last_error, None);
}

#[test]
fn a_game_without_participants_fails_for_good() {
    let mut s = logged_in();
    let id = s.outbox.push(OutboxItem::PendingMatch { game_id: 7 });
    let (mut run, _) = with_player(&mut s);
    run.detail_read(&mut s, id, 7, Ok(detail(Vec::new())));
    let entry = &s.outbox.entries()[0];
    assert_eq!(entry.permanent_failures, 1);
    assert_eq!(entry.last_error.as_deref(), Some("participante não encontrado no jogo"));
}

#[test]
fn a_game_that_is_not_indexed_waits() {
    let mut s = logged_in();
    let id = s.outbox.push(OutboxItem::PendingMatch { game_id: 7 });
    let (mut run, _) = with_player(&mut s);
    let missing = LcuError::Asking(LcuCall::GameDetail { game_id: 7 });
    run.detail_read(&mut s, id, 7, Err(missing));
    let entry = &s.outbox.entries()[0];
    assert_eq!(entry.permanent_failures, 0);
    assert_eq!(entry.last_error.as_deref(), Some("GET game detail"));
    assert_eq!(s.last_error, None);
}

#[test]
fn a_required_update_stops_the_drain() {
    let mut s = logged_in();
    let first = s.outbox.push(snapshot(1));
    s.outbox.push(snapshot(2));
    let mut run = begin(&s);
    run.discovered(&mut s, None);
    let refused = AdgError::UpdateRequired { min_version: "2".to_string(), download_url: None };
    assert!(matches!(run.snapshot_posted(&mut s, first, Err(refused)), SyncAction::Finish));
    assert_eq!(s.outbox.len(), 2);
    let report = run.finish(&mut s, 1);
    assert_eq!((report.sent, report.total), (0, 2));
    assert!(s.last_error.is_some());

    let mut blocked = begin(&s);
    assert!(matches!(blocked.discovered(&mut s, None), SyncAction::Finish));
}

#[test]
fn the_last_error_stays_while_an_update_is_wanted() {
    let mut s = logged_in();
    s.update_required = Some(UpdateInfo { min_version: "2".to_string(), download_url: None });
    s.last_error = Some("e".to_string());
    let mut run = begin(&s);
    run.discovered(&mut s, None);
    run.finish(&mut s, 1);
    assert_eq!(s.last_error.as_deref(), Some("e"));
}

#[test]
fn a_failed_send_goes_on_to_the_next_entry() {
    let mut s = logged_in();
    let first = s.outbox.push(payload(1));
    let second = s.outbox.push(snapshot(2));
    let (mut run, action) = with_player(&mut s);
    assert!(matches!(action, SyncAction::PostMatch { entry_id, .. } if entry_id == first));
    let failed = run.match_posted(&mut s, first, 1, Err(AdgError::Transient("503: x".to_string())));
    assert!(matches!(failed, SyncAction::PostSnapshot { entry_id, .. } if entry_id == second));
    let refused =
        run.snapshot_posted(&mut s, second, Err(AdgError::Permanent("400: y".to_string())));
    assert!(matches!(refused, SyncAction::Finish));
    assert_eq!(s.outbox.len(), 2);
    assert_eq!(s.outbox.entries()[1].permanent_failures, 1);
    assert_eq!(run.sent, 0);
    assert!(s.config.synced_ids.is_empty());
}

#[test]
fn what_is_queued_during_a_drain_waits_for_the_next() {
    let mut s = logged_in();
    let first = s.outbox.push(snapshot(1));
    let mut run = begin(&s);
    run.discovered(&mut s, None);
    s.outbox.push(snapshot(2));
    assert!(matches!(run.snapshot_posted(&mut s, first, Ok(())), SyncAction::Finish));
    assert_eq!(s.outbox.len(), 1);
}

#[test]
fn games_are_queued_once() {
    let mut outbox = Outbox::load(Some(OutboxFile {
        next_id: 4,
        entries: vec![OutboxEntry {
            id: 3,
            item: payload(10),
            permanent_failures: 0,
            last_error: None,
        }],
    }));
    enqueue_matches(&mut outbox, &vec![10]);
    assert!(!outbox.take_save_due());
    enqueue_matches(&mut outbox, &vec![11, 10, 11, 12]);
    assert!(outbox.take_save_due());
    let ids: Vec<i64> = outbox.entries().iter().map(|e| e.item.game_id()).collect();
    assert_eq!(ids, vec![10, 11, 12]);
    assert_eq!(outbox.next_id(), 6);
}

#[test]
fn the_report_is_an_object() {
    let report = SyncReport { sent: 3, total: u64::MAX };
    assert_eq!(
        report.to_json().to_value(),
        serde_json::from_str::<serde_json::Value>(r#"{"sent":3,"total":18446744073709551615}"#)
            .unwrap()
    );
}

/// What is left of a snapshot after it was posted over and over with the same answer.
fn left_after(exchange: &Exchange, times: u32) -> Option<OutboxEntry> {
    let mut s = logged_in();
    let id = s.outbox.push(snapshot(1));
    for _ in 0..times {
        let mut run = begin(&s);
        run.discovered(&mut s, None);
        run.snapshot_posted(&mut s, id, post_snapshot(exchange));
    }
    s.outbox.entries().pop()
}

#[test]
fn the_answer_decides_what_becomes_of_an_entry() {
    let answered = |code: u16| -> Exchange {
        Ok(Reply { status: Status::from_u16(code).unwrap(), body: Ok(b"{}".to_vec()) })
    };
    assert!(left_after(&answered(204), 1).is_none());
    assert!(left_after(&answered(500), 50).is_some());
    assert!(left_after(&answered(302), 50).is_some());
    assert!(left_after(&Err("offline".to_string()), 50).is_some());
    assert_eq!(left_after(&answered(426), 50).unwrap().permanent_failures, 0);
    assert_eq!(left_after(&answered(400), 4).unwrap().permanent_failures, 4);
    assert!(left_after(&answered(400), 5).is_none());
}

#[test]
fn only_a_successful_sync_is_timed() {
    let mut s = logged_in();
    let first = s.outbox.push(snapshot(1));
    let second = s.outbox.push(snapshot(2));

    let mut failed = begin(&s);
    failed.discovered(&mut s, None);
    failed.snapshot_posted(&mut s, first, Err(AdgError::Transient("503: x".to_string())));
    failed.snapshot_posted(&mut s, second, Ok(()));
    failed.finish(&mut s, 10);
    assert_eq!(s.config.last_sync_ms, None);

    let mut good = begin(&s);
    good.discovered(&mut s, None);
    good.snapshot_posted(&mut s, first, Ok(()));
    good.finish(&mut s, 20);
    assert_eq!(s.config.last_sync_ms, Some(20));

    let third = s.outbox.push(snapshot(3));
    let mut refused = begin(&s);
    refused.discovered(&mut s, None);
    let update = AdgError::UpdateRequired { min_version: "2".to_string(), download_url: None };
    refused.snapshot_posted(&mut s, third, Err(update));
    refused.finish(&mut s, 30);
    assert_eq!(s.config.last_sync_ms, Some(20));

    let mut blocked = begin(&s);
    blocked.discovered(&mut s, None);
    blocked.finish(&mut s, 40);
    assert_eq!(s.config.last_sync_ms, Some(20));
}

#[test]
fn a_drain_keeps_the_order_of_what_remains() {
    let mut s = logged_in();
    let ids: Vec<u64> = (1..=5).map(|game| s.outbox.push(snapshot(game))).collect();
    for _ in 0..4 {
        s.outbox.record_permanent_failure(ids[3], "400: x");
    }
    let mut run = begin(&s);
    run.discovered(&mut s, None);
    run.snapshot_posted(&mut s, ids[0], Err(AdgError::Transient("503".to_string())));
    run.snapshot_posted(&mut s, ids[1], Ok(()));
    run.snapshot_posted(&mut s, ids[2], Err(AdgError::Permanent("400".to_string())));
    run.snapshot_posted(&mut s, ids[3], Err(AdgError::Permanent("400".to_string())));
    let end = run.snapshot_posted(&mut s, ids[4], Err(AdgError::Transient("503".to_string())));
    assert!(matches!(end, SyncAction::Finish));
    let left: Vec<u64> = s.outbox.entries().iter().map(|e| e.id).collect();
    assert_eq!(left, vec![ids[0], ids[2], ids[4]]);
}

#[test]
fn a_search_adds_each_new_game_once_in_order() {
    let mut s = logged_in();
    s.outbox.push(payload(3));
    let mut run = begin(&s);
    run.discovered(&mut s, Some(creds("t")));
    run.summoner_read(&mut s, Ok(player()));
    let known: HashSet<i64> = [4].into_iter().collect();
    let page = games(
        r#"[{"queueId":2400,"gameId":9},{"queueId":2400,"gameId":3},{"queueId":450,"gameId":8},
            {"queueId":2400,"gameId":9},{"queueId":2400,"gameId":4},{"queueId":2400,"gameId":1},
            {"queueId":2400,"gameId":9}]"#,
    );
    run.recent_read(&mut s, Ok(page), &known);
    let queued: Vec<(u64, i64)> =
        s.outbox.entries().iter().map(|e| (e.id, e.item.game_id())).collect();
    assert_eq!(queued, vec![(0, 3), (1, 9), (2, 1)]);
}

#[test]
fn a_search_needs_numbers_for_new_games_only() {
    let mut outbox = Outbox::load(Some(OutboxFile {
        next_id: u64::MAX - 1,
        entries: vec![OutboxEntry {
            id: 0,
            item: payload(10),
            permanent_failures: 0,
            last_error: None,
        }],
    }));
    enqueue_matches(&mut outbox, &vec![10, 11, 10, 11]);
    assert_eq!(outbox.entries()[1].id, u64::MAX - 1);
    assert_eq!(outbox.len(), 2);
}

#[test]
fn a_search_that_adds_nothing_leaves_a_due_write_due() {
    let mut s = logged_in();
    s.outbox.push(payload(3));
    let mut run = begin(&s);
    run.discovered(&mut s, Some(creds("t")));
    run.summoner_read(&mut s, Ok(player()));
    run.recent_read(&mut s, Ok(games(r#"[{"queueId":2400,"gameId":3}]"#)), &HashSet::new());
    assert!(s.outbox.take_save_due());
    s.backfilled_lcu = None;
    run.recent_read(&mut s, Ok(Vec::new()), &HashSet::new());
    assert!(!s.outbox.take_save_due());
}
