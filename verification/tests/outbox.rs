use adg_companion::json::Json;
use adg_companion::outbox::{Outbox, OutboxEntry, OutboxFile, OutboxItem, MAX_PERMANENT_FAILURES};

fn fresh() -> Outbox {
    Outbox::load(None)
}

fn reload(ob: &Outbox) -> Outbox {
    Outbox::load(Some(OutboxFile {
        next_id: ob.file().next_id,
        entries: ob.entries(),
    }))
}

fn empty_object() -> Json {
    Json::Object(Vec::new())
}

#[test]
fn push_persiste_e_recarrega() {
    let mut ob = fresh();
    ob.push(OutboxItem::PendingMatch { game_id: 42 });
    assert!(ob.take_save_due());
    let reloaded = reload(&ob);
    assert_eq!(reloaded.len(), 1);
    assert!(reloaded.has_match_for(42));
    assert_eq!(reloaded.entries()[0].item.game_id(), 42);
}

#[test]
fn replace_preserva_id_e_remove_funciona() {
    let mut ob = fresh();
    let id = ob.push(OutboxItem::PendingMatch { game_id: 7 });
    ob.replace_item(
        id,
        OutboxItem::MatchPayload {
            game_id: 7,
            payload: Json::Object(vec![("x".to_string(), Json::Int(1))]),
        },
    );
    assert!(matches!(
        ob.entries()[0].item,
        OutboxItem::MatchPayload { game_id: 7, .. }
    ));
    assert_eq!(ob.entries()[0].id, id);
    ob.remove(id);
    assert_eq!(ob.len(), 0);
}

#[test]
fn falha_permanente_descarta_apos_limite() {
    let mut ob = fresh();
    let id = ob.push(OutboxItem::Snapshot {
        game_id: 1,
        champion_stats: empty_object(),
        peak: empty_object(),
    });
    for _ in 0..MAX_PERMANENT_FAILURES {
        ob.record_permanent_failure(id, "400: payload inválido");
    }
    assert_eq!(ob.len(), 0);
}

#[test]
fn falha_transiente_nunca_descarta() {
    let mut ob = fresh();
    let id = ob.push(OutboxItem::PendingMatch { game_id: 9 });
    for _ in 0..20 {
        ob.record_transient_failure(id, "rede fora");
    }
    assert_eq!(ob.len(), 1);
    assert_eq!(ob.entries()[0].last_error.as_deref(), Some("rede fora"));
}

#[test]
fn dedupe_por_game_id() {
    let mut ob = fresh();
    ob.push(OutboxItem::Snapshot {
        game_id: 5,
        champion_stats: empty_object(),
        peak: empty_object(),
    });
    assert!(ob.has_snapshot_for(5));
    assert!(!ob.has_snapshot_for(6));
    assert!(!ob.has_match_for(5));
}

#[test]
fn four_permanent_failures_keep_the_entry() {
    let mut ob = fresh();
    let id = ob.push(OutboxItem::PendingMatch { game_id: 3 });
    for n in 1..MAX_PERMANENT_FAILURES {
        ob.record_permanent_failure(id, "404");
        assert_eq!(ob.entries()[0].permanent_failures, n);
    }
    assert_eq!(ob.entries()[0].last_error.as_deref(), Some("404"));
    ob.record_permanent_failure(id, "404");
    assert_eq!(ob.len(), 0);
}

#[test]
fn replacing_keeps_the_counters() {
    let mut ob = fresh();
    let id = ob.push(OutboxItem::PendingMatch { game_id: 3 });
    ob.record_permanent_failure(id, "404");
    ob.record_transient_failure(id, "503");
    ob.replace_item(
        id,
        OutboxItem::MatchPayload { game_id: 3, payload: Json::Null },
    );
    let entry = &ob.entries()[0];
    assert_eq!(entry.permanent_failures, 1);
    assert_eq!(entry.last_error.as_deref(), Some("503"));
}

#[test]
fn numbers_are_never_reused() {
    let mut ob = fresh();
    let a = ob.push(OutboxItem::PendingMatch { game_id: 1 });
    ob.remove(a);
    let b = ob.push(OutboxItem::PendingMatch { game_id: 2 });
    assert_eq!((a, b), (0, 1));
    assert_eq!(ob.next_id(), 2);
    let reloaded = reload(&ob);
    assert_eq!(reloaded.next_id(), 2);
}

#[test]
fn other_entries_are_left_alone() {
    let mut ob = fresh();
    let a = ob.push(OutboxItem::PendingMatch { game_id: 1 });
    let b = ob.push(OutboxItem::PendingMatch { game_id: 2 });
    let c = ob.push(OutboxItem::PendingMatch { game_id: 3 });
    ob.record_transient_failure(b, "x");
    ob.remove(b);
    let ids: Vec<u64> = ob.entries().iter().map(|e| e.id).collect();
    assert_eq!(ids, vec![a, c]);
    assert!(ob.entries().iter().all(|e| e.last_error.is_none()));
}

#[test]
fn a_file_with_repeated_numbers_loses_them_all_at_once() {
    let entry = |game_id| OutboxEntry {
        id: 4,
        item: OutboxItem::PendingMatch { game_id },
        permanent_failures: 0,
        last_error: None,
    };
    let mut ob = Outbox::load(Some(OutboxFile { next_id: 5, entries: vec![entry(1), entry(2)] }));
    ob.record_transient_failure(4, "first");
    assert_eq!(ob.entries()[0].last_error.as_deref(), Some("first"));
    assert_eq!(ob.entries()[1].last_error, None);
    ob.remove(4);
    assert_eq!(ob.len(), 0);
}

#[test]
fn every_change_asks_to_be_saved() {
    let mut ob = fresh();
    assert!(!ob.take_save_due());
    let id = ob.push(OutboxItem::PendingMatch { game_id: 1 });
    assert!(ob.take_save_due());
    assert!(!ob.take_save_due());
    ob.record_transient_failure(id, "x");
    assert!(ob.take_save_due());
    ob.record_permanent_failure(id, "x");
    assert!(ob.take_save_due());
    ob.replace_item(id, OutboxItem::PendingMatch { game_id: 1 });
    assert!(ob.take_save_due());
    ob.remove(99);
    assert!(ob.take_save_due());
}

#[test]
fn a_full_counter_cannot_count() {
    let mut ob = Outbox::load(Some(OutboxFile {
        next_id: 1,
        entries: vec![OutboxEntry {
            id: 0,
            item: OutboxItem::PendingMatch { game_id: 1 },
            permanent_failures: u32::MAX,
            last_error: None,
        }],
    }));
    assert!(!ob.can_count(0));
    assert!(ob.can_count(7));
    let id = ob.push(OutboxItem::PendingMatch { game_id: 2 });
    assert!(ob.can_count(id));
}
