use adg_companion::adg::AdgError;
use adg_companion::background::{cycle_start, synced, waited, CycleStep};
use adg_companion::outbox::{Outbox, OutboxItem};
use adg_companion::state::{
    api_base, get_state, handle_send_error, is_reportable, logout, note_sync_error, open_external,
    open_session, sync_due, AppState, SummonerInfo,
};
use adg_companion::sync::SyncReport;
use adg_companion::store::{
    delete_token, load_config, load_token, save_token, Config, Keychain,
};

fn fresh() -> AppState {
    AppState::start(Config::default(), Outbox::load(None), Ok(None))
}

#[test]
fn the_keychain_answer_becomes_the_token() {
    assert_eq!(load_token(Keychain::Done("t".to_string())), Ok(Some("t".to_string())));
    assert_eq!(load_token(Keychain::NoEntry), Ok(None));
    assert_eq!(
        load_token(Keychain::Failed("locked".to_string())),
        Err("erro ao ler token do keychain: locked".to_string())
    );
    assert_eq!(load_token(Keychain::Unavailable), Err("criar entrada no keychain".to_string()));
}

#[test]
fn a_token_is_saved_or_not() {
    assert_eq!(save_token(Keychain::Done(())), Ok(()));
    let refused = Err("salvar token no keychain".to_string());
    assert_eq!(save_token(Keychain::Failed("x".to_string())), refused);
    assert_eq!(save_token(Keychain::NoEntry), refused);
    assert_eq!(save_token(Keychain::Unavailable), Err("criar entrada no keychain".to_string()));
}

#[test]
fn a_token_that_was_not_there_is_gone() {
    assert_eq!(delete_token(Keychain::Done(())), Ok(()));
    assert_eq!(delete_token(Keychain::NoEntry), Ok(()));
    assert_eq!(
        delete_token(Keychain::Failed("x".to_string())),
        Err("erro ao remover token do keychain: x".to_string())
    );
    assert_eq!(delete_token(Keychain::Unavailable), Err("criar entrada no keychain".to_string()));
}

#[test]
fn missing_settings_are_the_default() {
    let config = load_config(None);
    assert!(config.synced_ids.is_empty());
    assert_eq!(config.last_sync_ms, None);
    assert_eq!(config.total_synced, 0);
    let kept = load_config(Some(Config {
        synced_ids: [4].into_iter().collect(),
        last_sync_ms: Some(9),
        total_synced: 2,
    }));
    assert!(kept.synced_ids.contains(&4));
    assert_eq!((kept.last_sync_ms, kept.total_synced), (Some(9), 2));
}

#[test]
fn the_start_has_learned_nothing() {
    let s = AppState::start(Config::default(), Outbox::load(None), Err("x".to_string()));
    assert_eq!(s.token, None);
    assert!(!sync_due(&s));
    assert!(!s.lcu_connected);
    assert!(s.summoner.is_none() && s.update_required.is_none());
    assert!(s.backfilled_lcu.is_none() && s.last_error.is_none());
    let s = AppState::start(Config::default(), Outbox::load(None), Ok(Some("t".to_string())));
    assert!(sync_due(&s));
}

#[test]
fn the_build_decides_where_the_backend_is() {
    assert_eq!(api_base(None), "http://localhost:3100");
    assert_eq!(api_base(Some("https://x")), "https://x");
}

#[test]
fn the_interface_sees_the_state() {
    let mut s = fresh();
    s.config.total_synced = 12;
    s.config.last_sync_ms = Some(5);
    s.lcu_connected = true;
    s.last_error = Some("e".to_string());
    s.summoner = Some(SummonerInfo { game_name: "N".to_string(), tag_line: "BR1".to_string() });
    s.outbox.push(OutboxItem::PendingMatch { game_id: 1 });
    open_session(&mut s, "jwt".to_string());
    let front = get_state(&s, "http://h".to_string(), "1.0.0");
    assert!(front.lcu_connected && front.logged_in);
    assert_eq!(front.summoner.unwrap().tag_line, "BR1");
    assert_eq!(front.api_base, "http://h");
    assert_eq!((front.synced_count, front.last_sync, front.pending_count), (12, Some(5), 1));
    assert_eq!(front.last_error.as_deref(), Some("e"));
    assert!(front.update_required.is_none());
    assert_eq!(front.version, "1.0.0");
}

#[test]
fn logging_out_keeps_the_queue() {
    let mut s = fresh();
    open_session(&mut s, "jwt".to_string());
    s.lcu_connected = true;
    s.outbox.push(OutboxItem::PendingMatch { game_id: 1 });
    logout(&mut s);
    assert_eq!(s.token, None);
    assert!(!s.lcu_connected && s.summoner.is_none());
    assert_eq!(s.outbox.len(), 1);
}

#[test]
fn only_web_urls_are_opened() {
    assert_eq!(open_external("https://x"), Ok(()));
    assert_eq!(open_external("http://"), Ok(()));
    for url in ["", "ftp://x", "file:///c", "HTTP://x", " http://x", "http:/x"] {
        assert_eq!(open_external(url), Err("URL inválida".to_string()));
    }
}

#[test]
fn a_missing_session_is_not_reported() {
    let mut s = fresh();
    assert!(!is_reportable("não logado"));
    assert!(!note_sync_error(&mut s, "sync: não logado".to_string()));
    assert_eq!(s.last_error, None);
    assert!(note_sync_error(&mut s, "boom".to_string()));
    assert_eq!(s.last_error.as_deref(), Some("boom"));
}

#[test]
fn a_required_update_keeps_the_entry() {
    let mut s = fresh();
    let id = s.outbox.push(OutboxItem::PendingMatch { game_id: 1 });
    s.outbox.take_save_due();
    handle_send_error(
        &mut s,
        id,
        AdgError::UpdateRequired {
            min_version: "2.0.0".to_string(),
            download_url: Some("https://d".to_string()),
        },
    );
    assert_eq!(s.last_error.as_deref(), Some("Atualização obrigatória (mínima 2.0.0)"));
    let update = s.update_required.as_ref().unwrap();
    assert_eq!(update.min_version, "2.0.0");
    assert_eq!(update.download_url.as_deref(), Some("https://d"));
    assert_eq!(s.outbox.len(), 1);
    assert_eq!(s.outbox.entries()[0].permanent_failures, 0);
    assert!(!s.outbox.take_save_due());
}

#[test]
fn failures_of_both_kinds_are_noted() {
    let mut s = fresh();
    let id = s.outbox.push(OutboxItem::PendingMatch { game_id: 1 });
    handle_send_error(&mut s, id, AdgError::Transient("503: x".to_string()));
    assert_eq!(s.outbox.entries()[0].permanent_failures, 0);
    assert_eq!(s.outbox.entries()[0].last_error.as_deref(), Some("503: x"));
    handle_send_error(&mut s, id, AdgError::Permanent("400: y".to_string()));
    assert_eq!(s.outbox.entries()[0].permanent_failures, 1);
    assert_eq!(s.last_error.as_deref(), Some("400: y"));
    assert!(s.update_required.is_none());
    for _ in 0..4 {
        handle_send_error(&mut s, id, AdgError::Permanent("400: y".to_string()));
    }
    assert_eq!(s.outbox.len(), 0);
}

#[test]
fn the_fifth_permanent_failure_drops_whatever_came_between() {
    let mut s = fresh();
    let id = s.outbox.push(OutboxItem::PendingMatch { game_id: 1 });
    for n in 1..=5 {
        for _ in 0..3 {
            handle_send_error(&mut s, id, AdgError::Transient("503".to_string()));
        }
        let update = AdgError::UpdateRequired { min_version: "2".to_string(), download_url: None };
        handle_send_error(&mut s, id, update);
        handle_send_error(&mut s, id, AdgError::Permanent("400".to_string()));
        assert_eq!(s.outbox.len(), if n < 5 { 1 } else { 0 });
        assert!(s.update_required.is_some());
    }
    handle_send_error(&mut s, id, AdgError::Permanent("400".to_string()));
    assert_eq!(s.outbox.len(), 0);
    assert_eq!(s.config.total_synced, 0);
}

#[test]
fn the_cycle_syncs_with_a_session_only() {
    let mut s = fresh();
    assert!(matches!(cycle_start(), CycleStep::Wait { secs: 20 }));
    assert!(matches!(waited(&s), CycleStep::Wait { secs: 20 }));
    open_session(&mut s, "jwt".to_string());
    assert!(matches!(waited(&s), CycleStep::Sync));
    s.last_error = Some("old".to_string());
    let report = SyncReport { sent: 1, total: 0 };
    assert!(matches!(synced(&mut s, Ok(report)), CycleStep::Wait { secs: 20 }));
    assert!(matches!(synced(&mut s, Err("não logado".to_string())), CycleStep::Wait { .. }));
    assert_eq!(s.last_error.as_deref(), Some("old"));
    assert!(matches!(synced(&mut s, Err("boom".to_string())), CycleStep::Wait { .. }));
    assert_eq!(s.last_error.as_deref(), Some("boom"));
}
