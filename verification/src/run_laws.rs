//! What each step of a sync asks for next, and what it does with what came of
//! the last.
use crate::adg::{AdgError, ApiRequest};
use crate::first;
use crate::game::{GameDetail, Participant};
use crate::json::{self, Json, JsonView};
use crate::lcu::{self, LcuCreds, LcuError, Summoner};
use crate::lcu_laws;
use crate::outbox::{self, EntryView, ItemView, Outbox, OutboxView};
use crate::outbox_laws;
use crate::payload;
use crate::payload_laws;
use crate::queue_laws;
use crate::reply_laws;
use crate::state::AppState;
use crate::state_laws;
use crate::sync::{self, SyncAction, SyncReport, SyncRun};
use crate::sync_laws;
use std::collections::HashSet;
use vstd::prelude::*;

verus! {

/// Whether two credentials reach the same client.
pub open spec fn same_client(a: LcuCreds, b: LcuCreds) -> bool {
    a.port == b.port && a.token@ == b.token@
}

/// Whether something can be done about an entry now: a pending game needs the
/// client and the player, a complete one the player, and a snapshot nothing.
pub open spec fn ready(run: SyncRun, entry: EntryView) -> bool {
    match entry.item {
        ItemView::PendingMatch { .. } => run.creds is Some && run.summoner is Some,
        ItemView::MatchPayload { .. } => run.summoner is Some,
        ItemView::Snapshot { .. } => true,
    }
}

/// Whether a request is authorized by the session and carries the version.
pub open spec fn from_session(run: SyncRun, request: ApiRequest) -> bool {
    &&& request.bearer matches Some(token) && token@ == run.token@
    &&& request.version.0@ == "x-companion-version"@
    &&& request.version.1@ == run.app_version@
}

/// Whether an action is what is to be done about an entry: a pending game is
/// looked up, a complete one is posted alone and under the names of the player,
/// and a snapshot is posted as it was captured.
pub open spec fn acts_on(run: SyncRun, entry: EntryView, action: SyncAction) -> bool {
    match (entry.item, action) {
        (
            ItemView::PendingMatch { game_id },
            SyncAction::ReadDetail { creds, entry_id, game_id: asked },
        ) => {
            &&& run.creds is Some && same_client(creds, run.creds->0)
            &&& entry_id == entry.id && asked == game_id
        },
        (
            ItemView::MatchPayload { game_id, payload },
            SyncAction::PostMatch { entry_id, game_id: posted, request },
        ) => {
            &&& entry_id == entry.id && posted == game_id
            &&& from_session(run, request)
            &&& request.url@ == run.api_base@ + "/api/aram-mayhem/matches"@
            &&& run.summoner matches Some(player) && request.body@.get("puuid"@) == Some(
                JsonView::Text(player.puuid@),
            ) && request.body@.get("gameName"@) == Some(JsonView::Text(player.game_name@))
                && request.body@.get("tagLine"@) == Some(JsonView::Text(player.tag_line@))
            &&& request.body@.get("matches"@) == Some(JsonView::List(seq![payload]))
        },
        (
            ItemView::Snapshot { game_id, champion_stats, peak },
            SyncAction::PostSnapshot { entry_id, game_id: posted, request },
        ) => {
            &&& entry_id == entry.id && posted == game_id
            &&& from_session(run, request)
            &&& request.url@ == run.api_base@ + "/api/aram-mayhem/snapshot"@
            &&& request.body@.get("gameId"@) == Some(JsonView::Int(game_id as int))
            &&& request.body@.get("championStats"@) == Some(champion_stats)
            &&& request.body@.get("peak"@) == Some(peak)
        },
        _ => false,
    }
}

/// Whether entry `i` is the first about which something can be done.
pub open spec fn first_ready(run: SyncRun, entries: Seq<EntryView>, i: int) -> bool {
    &&& 0 <= i < entries.len()
    &&& ready(run, entries[i])
    &&& forall|j: int| 0 <= j < i ==> !ready(run, #[trigger] entries[j])
}

/// Whether a sync goes on through entries as it should: it acts on the first
/// about which something can be done, and those behind it wait; where there is
/// none, it finishes.
pub open spec fn goes_on(run: SyncRun, entries: Seq<EntryView>, action: SyncAction) -> bool {
    let waiting = outbox::entries_view(run.waiting@);
    ||| exists|i: int| #[trigger]
        first_ready(run, entries, i) && acts_on(run, entries[i], action) && waiting
            == entries.skip(i + 1)
    ||| (forall|i: int| 0 <= i < entries.len() ==> !ready(run, #[trigger] entries[i]))
        && action is Finish && waiting.len() == 0
}

/// Whether a sync starts to drain as it should: not at all while an update is
/// wanted, and else through all that is queued.
pub open spec fn drains(run: SyncRun, s: AppState, action: SyncAction) -> bool {
    if s.update_required is Some {
        action is Finish && run.waiting@.len() == 0
    } else {
        goes_on(run, s.outbox@.entries, action)
    }
}

/// Whether a sync goes on after an entry as it should: an update that is wanted
/// by now ends it.
pub open spec fn follows(
    run: SyncRun,
    waiting: Seq<EntryView>,
    s: AppState,
    action: SyncAction,
) -> bool {
    if s.update_required is Some {
        action is Finish && run.waiting@.len() == 0
    } else {
        goes_on(run, waiting, action)
    }
}

/// Whether two moments of a sync have the same session.
pub open spec fn same_session(a: SyncRun, b: SyncRun) -> bool {
    &&& a.token@ == b.token@
    &&& a.api_base@ == b.api_base@
    &&& a.app_version@ == b.app_version@
}

/// Whether two moments of a sync have the same session, client and player.
pub open spec fn same_sync(a: SyncRun, b: SyncRun) -> bool {
    &&& same_session(a, b)
    &&& match (a.creds, b.creds) {
        (Some(x), Some(y)) => same_client(x, y),
        (None, None) => true,
        _ => false,
    }
    &&& match (a.summoner, b.summoner) {
        (Some(x), Some(y)) => x.puuid@ == y.puuid@ && x.game_name@ == y.game_name@ && x.tag_line@
            == y.tag_line@,
        (None, None) => true,
        _ => false,
    }
}

/// Moments that mean the same have the same session, client and player.
proof fn lemma_same_sync(a: SyncRun, b: SyncRun)
    requires
        a@.token == b@.token,
        a@.api_base == b@.api_base,
        a@.app_version == b@.app_version,
        a@.creds == b@.creds,
        a@.summoner == b@.summoner,
    ensures
        same_sync(a, b),
{
}

proof fn lemma_goes_on(run: SyncRun, before: sync::SyncView, action: SyncAction)
    requires
        (run@, action@) == before.next(),
    ensures
        goes_on(run, before.waiting, action),
{
    let entries = before.waiting;
    reply_laws::lemma_request_keys();
    if before.next_place() is Some {
        sync_laws::lemma_next_place(before);
        let i = before.next_place()->0;
        assert forall|j: int| 0 <= j < i implies !ready(run, #[trigger] entries[j]) by {
            assert(!before.can_act_on(entries[j]));
        }
        assert(before.can_act_on(entries[i]));
        assert(first_ready(run, entries, i));
        assert(action@ == before.action_for(entries[i]));
        assert(acts_on(run, entries[i], action));
    } else {
        let has_client = before.creds is Some;
        let has_player = before.summoner is Some;
        let test = |e: EntryView| sync::can_act(has_client, has_player, e.item);
        assert forall|i: int| 0 <= i < entries.len() implies !ready(run, #[trigger] entries[i]) by {
            if test(entries[i]) {
                first::lemma_first_some(entries, test, i);
            }
        }
    }
}

proof fn lemma_halted(run: SyncRun, before: sync::SyncView, action: SyncAction)
    requires
        (run@, action@) == before.halted(),
    ensures
        action is Finish && run.waiting@.len() == 0,
{
    assert(outbox::entries_view(run.waiting@).len() == run.waiting@.len());
}

proof fn lemma_drains(run: SyncRun, before: sync::SyncView, s: AppState, action: SyncAction)
    requires
        (run@, action@) == before.drain(s),
    ensures
        drains(run, s, action),
{
    if s.update_required is Some {
        lemma_halted(run, before, action);
    } else {
        lemma_goes_on(
            run,
            sync::SyncView { waiting: s.outbox@.entries, ..before },
            action,
        );
    }
}

proof fn lemma_follows(run: SyncRun, before: sync::SyncView, s: AppState, action: SyncAction)
    requires
        (run@, action@) == before.after_entry(s),
    ensures
        follows(run, before.waiting, s, action),
{
    if s.update_required is Some {
        lemma_halted(run, before, action);
    } else {
        lemma_goes_on(run, before, action);
    }
}

/// A sync starts with the session, and without one not at all.
pub proof fn law_sync_needs_a_session(
    s: AppState,
    api_base: String,
    version: &str,
    run: Result<SyncRun, String>,
)
    requires
        call_ensures(SyncRun::start, (&s, api_base, version), run),
    ensures
        run is Ok <==> s.token is Some,
        run is Err ==> run->Err_0@ == "não logado"@,
        run matches Ok(run) ==> {
            &&& run.token@ == s.token->0@
            &&& run.api_base@ == api_base@
            &&& run.app_version@ == version@
            &&& run.creds is None && run.summoner is None
            &&& run.waiting@.len() == 0 && run.sent == 0 && !run.send_failed
        },
{
    if let Ok(run) = run {
        assert(outbox::entries_view(run.waiting@).len() == run.waiting@.len());
    }
}

/// A drain goes through all that is queued.
pub proof fn law_drain_goes_through_the_queue(run: &mut SyncRun, s: AppState, action: SyncAction)
    requires
        call_ensures(SyncRun::drain_outbox, (run, &s), action),
    ensures
        drains(*final(run), s, action),
        same_sync(*old(run), *final(run)),
        final(run).sent == old(run).sent && final(run).send_failed == old(run).send_failed,
{
    lemma_drains(*final(run), old(run)@, s, action);
    lemma_same_sync(*old(run), *final(run));
}

/// Whether two states are the same but for the queue and what was learned of
/// the client.
pub open spec fn keeps_the_session(before: AppState, after: AppState) -> bool {
    &&& after.config == before.config
    &&& after.token == before.token
    &&& after.update_required == before.update_required
    &&& after.last_error == before.last_error
}

/// The client is noted as found or not; with it the player is asked for, and
/// without it the drain starts.
pub proof fn law_found_client_is_asked_for_the_player(
    run: &mut SyncRun,
    s: &mut AppState,
    creds: Option<LcuCreds>,
    action: SyncAction,
)
    requires
        call_ensures(SyncRun::discovered, (run, s, creds), action),
    ensures
        final(s).lcu_connected <==> creds is Some,
        keeps_the_session(*old(s), *final(s)) && final(s).outbox == old(s).outbox,
        final(s).summoner == old(s).summoner && final(s).backfilled_lcu == old(s).backfilled_lcu,
        creds matches Some(found) ==> {
            &&& action matches SyncAction::ReadSummoner { creds: asked } && same_client(
                asked,
                found,
            )
            &&& final(run).creds matches Some(kept) && same_client(kept, found)
        },
        creds is None ==> final(run).creds is None && drains(*final(run), *final(s), action),
        same_session(*old(run), *final(run)),
        final(run).sent == old(run).sent && final(run).send_failed == old(run).send_failed,
{
    if creds is None {
        lemma_drains(
            *final(run),
            sync::SyncView { creds: None, ..old(run)@ },
            *final(s),
            action,
        );
    }
}

/// The player's names are noted; the history is asked for exactly where this
/// session of the client was not searched yet, and else the drain starts. Where
/// the player is not known, nothing is noted and the drain starts.
pub proof fn law_known_player_leads_to_the_search(
    run: &mut SyncRun,
    s: &mut AppState,
    read: Result<Summoner, LcuError>,
    action: SyncAction,
    key: String,
)
    requires
        call_ensures(SyncRun::summoner_read, (run, s, read), action),
        old(run).creds is Some,
        call_ensures(lcu::session_key, (&old(run).creds->0,), key),
    ensures
        keeps_the_session(*old(s), *final(s)) && final(s).outbox == old(s).outbox,
        final(s).lcu_connected == old(s).lcu_connected,
        final(s).backfilled_lcu == old(s).backfilled_lcu,
        read is Err ==> *final(s) == *old(s) && drains(*final(run), *final(s), action),
        read matches Ok(player) ==> {
            let searched = old(s).backfilled_lcu is Some && old(s).backfilled_lcu->0@ == key@;
            &&& final(s).summoner matches Some(noted) && noted.game_name@ == player.game_name@
                && noted.tag_line@ == player.tag_line@
            &&& final(run).summoner matches Some(kept) && kept.puuid@ == player.puuid@
                && kept.game_name@ == player.game_name@ && kept.tag_line@ == player.tag_line@
            &&& !searched ==> (action matches SyncAction::ReadRecent { creds, puuid }
                && same_client(creds, old(run).creds->0) && puuid@ == player.puuid@)
            &&& searched ==> drains(*final(run), *final(s), action)
        },
        same_session(*old(run), *final(run)),
        final(run).sent == old(run).sent && final(run).send_failed == old(run).send_failed,
        final(run).creds is Some && same_client(final(run).creds->0, old(run).creds->0),
{
    match read {
        Ok(player) => {
            let known = sync::SyncView {
                summoner: Some(sync::summoner_view(player)),
                ..old(run)@
            };
            if !sync::search_due(*old(s), old(run).creds->0@) {
                lemma_drains(*final(run), known, *final(s), action);
            }
        },
        Err(_) => {
            lemma_drains(*final(run), old(run)@, *final(s), action);
        },
    }
}

/// Whether entries are pending games that were just queued: one for each id, in
/// order, numbered on from a number.
pub open spec fn queued_pending(entries: Seq<EntryView>, from: int, ids: Seq<i64>) -> bool {
    &&& entries.len() == ids.len()
    &&& forall|k: int|
        0 <= k < ids.len() ==> #[trigger] entries[k] == (EntryView {
            id: (from + k) as u64,
            item: ItemView::PendingMatch { game_id: ids[k] },
            permanent_failures: 0,
            last_error: None,
        })
}

/// Whether `new` are the ids that a queue does not report, each once and in the
/// order in which they first occur.
pub open spec fn unreported(queue: OutboxView, ids: Seq<i64>, new: Seq<i64>) -> bool {
    &&& new.no_duplicates()
    &&& exists|from: Seq<int>| outbox_laws::first_places(ids, new, from)
    &&& forall|g: i64| #[trigger]
        new.contains(g) <==> ids.contains(g) && forall|i: int|
            0 <= i < queue.entries.len() ==> match (#[trigger] queue.entries[i]).item {
                ItemView::PendingMatch { game_id } => game_id != g,
                ItemView::MatchPayload { game_id, .. } => game_id != g,
                ItemView::Snapshot { .. } => true,
            }
}

proof fn lemma_enqueued(queue: OutboxView, ids: Seq<i64>)
    ensures
        ({
            let after = sync::enqueued(queue, ids);
            let new = sync::new_games(queue, ids);
            let n = queue.entries.len() as int;
            &&& unreported(queue, ids, new)
            &&& after.entries.take(n) == queue.entries
            &&& queued_pending(after.entries.skip(n), queue.next_id as int, new)
        }),
{
    let after = sync::enqueued(queue, ids);
    let new = sync::new_games(queue, ids);
    let n = queue.entries.len() as int;
    sync::lemma_new_games(queue, ids);
    let from = outbox_laws::lemma_new_games_places(queue, ids);
    assert(outbox_laws::first_places(ids, new, from));
    assert(after.entries.take(n) =~= queue.entries);
    assert forall|g: i64| #[trigger] new.contains(g) <==> ids.contains(g) && forall|i: int|
        0 <= i < queue.entries.len() ==> match (#[trigger] queue.entries[i]).item {
            ItemView::PendingMatch { game_id } => game_id != g,
            ItemView::MatchPayload { game_id, .. } => game_id != g,
            ItemView::Snapshot { .. } => true,
        } by {
        queue_laws::lemma_items(queue, g);
    }
}

/// Each id that the queue does not report is queued once as a pending game, and
/// what was queued stays.
pub proof fn law_unreported_games_are_queued(outbox: &mut Outbox, ids: Vec<i64>)
    requires
        call_ensures(sync::enqueue_matches, (outbox, &ids), ()),
        old(outbox)@.next_id + ids@.len() <= u64::MAX,
    ensures
        ({
            let n = old(outbox)@.entries.len() as int;
            exists|new: Seq<i64>| #[trigger]
                unreported(old(outbox)@, ids@, new) && final(outbox)@.entries.take(n) == old(
                    outbox,
                )@.entries && queued_pending(
                    final(outbox)@.entries.skip(n),
                    old(outbox)@.next_id as int,
                    new,
                ) && final(outbox)@.next_id == old(outbox)@.next_id + new.len()
        }),
{
    lemma_enqueued(old(outbox)@, ids@);
    sync::lemma_new_games(old(outbox)@, ids@);
}

/// The ids that are picked from the history and that the queue does not report
/// are queued, and the session of the client is noted as searched; without the
/// history nothing changes. The drain follows.
pub proof fn law_history_is_queued_and_the_session_noted(
    run: &mut SyncRun,
    s: &mut AppState,
    games: Result<Vec<Json>, LcuError>,
    known: HashSet<i64>,
    action: SyncAction,
    key: String,
    list: Vec<Json>,
    ids: Vec<i64>,
)
    requires
        call_ensures(SyncRun::recent_read, (run, s, games, &known), action),
        old(run).creds is Some,
        call_ensures(lcu::session_key, (&old(run).creds->0,), key),
        games matches Ok(page) ==> page == list,
        call_ensures(lcu::get_recent_mayhem_ids, (&list, &known), ids),
        old(s).outbox@.next_id + ids@.len() <= u64::MAX,
    ensures
        keeps_the_session(*old(s), *final(s)),
        final(s).summoner == old(s).summoner && final(s).lcu_connected == old(s).lcu_connected,
        games is Err ==> *final(s) == *old(s),
        games is Ok ==> {
            let n = old(s).outbox@.entries.len() as int;
            &&& final(s).backfilled_lcu matches Some(searched) && searched@ == key@
            &&& exists|new: Seq<i64>| #[trigger]
                unreported(old(s).outbox@, ids@, new) && final(s).outbox@.entries.take(n) == old(
                    s,
                ).outbox@.entries && queued_pending(
                    final(s).outbox@.entries.skip(n),
                    old(s).outbox@.next_id as int,
                    new,
                ) && final(s).outbox@.next_id == old(s).outbox@.next_id + new.len()
        },
        same_sync(*old(run), *final(run)),
        drains(*final(run), *final(s), action),
{
    lemma_drains(*final(run), old(run)@, *final(s), action);
    lemma_same_sync(*old(run), *final(run));
    if games is Ok {
        assert(ids@ == lcu::new_mayhem_ids(json::list_view(list@), known@));
        lemma_enqueued(old(s).outbox@, ids@);
        sync::lemma_new_games(old(s).outbox@, ids@);
    }
}

/// The detail of a game turns the pending entry into the payload of the
/// player's own participant: the one with the id of the first identity that
/// names the player, wherever it stands.
pub proof fn law_detail_becomes_the_players_own_payload(
    run: &mut SyncRun,
    s: &mut AppState,
    entry_id: u64,
    game_id: i64,
    game: GameDetail,
    action: SyncAction,
    q: int,
    k: int,
    i: int,
)
    requires
        call_ensures(
            SyncRun::detail_read,
            (run, s, entry_id, game_id, Ok::<GameDetail, LcuError>(game)),
            action,
        ),
        old(run).summoner is Some,
        queue_laws::first_numbered(old(s).outbox@, entry_id, q),
        payload_laws::first_names(game, old(run).summoner->0.puuid@, k),
        payload_laws::first_with_id(game, game.participant_identities@[k].participant_id, i),
    ensures
        ({
            let mine = game.participants@[i];
            let stats = payload_laws::kept_stats(mine);
            let said = stats.get("win"@);
            let win = said == Some(JsonView::Bool(true)) || said == Some(JsonView::Int(1));
            final(s).outbox@.entries[q].item matches ItemView::MatchPayload {
                game_id: g,
                payload: doc,
            } && {
                &&& g == game_id
                &&& doc.get("gameId"@) == Some(JsonView::Int(game.game_id as int))
                &&& doc.get("championId"@) == Some(JsonView::Int(mine.champion_id as int))
                &&& doc.get("win"@) == Some(JsonView::Bool(win))
                &&& doc.get("kills"@) == Some(
                    JsonView::Int(payload_laws::number_at(stats, "kills"@)),
                )
                &&& doc.get("raw"@) == Some(stats)
                &&& queue_laws::changed(
                    old(s).outbox@,
                    final(s).outbox@,
                    q,
                    EntryView {
                        item: ItemView::MatchPayload { game_id, payload: doc },
                        ..old(s).outbox@.entries[q]
                    },
                )
            }
        }),
{
    queue_laws::lemma_place_is_first(old(s).outbox@, entry_id);
    payload_laws::lemma_my_index(game, old(run).summoner->0.puuid@, k, i);
    payload_laws::law_match_base_fields(game@, game@.participants[i]);
    payload_laws::law_match_rich_fields(game@, game@.participants[i]);
}

/// The payload that a pending entry becomes is the one that is built of the
/// player's own participant.
pub proof fn law_detail_becomes_the_built_payload(
    run: &mut SyncRun,
    s: &mut AppState,
    entry_id: u64,
    game_id: i64,
    game: GameDetail,
    action: SyncAction,
    q: int,
    puuid: &str,
    mine: Option<&Participant>,
    doc: Json,
)
    requires
        call_ensures(
            SyncRun::detail_read,
            (run, s, entry_id, game_id, Ok::<GameDetail, LcuError>(game)),
            action,
        ),
        old(run).summoner is Some && old(run).summoner->0.puuid@ == puuid@,
        queue_laws::first_numbered(old(s).outbox@, entry_id, q),
        call_ensures(payload::find_my_participant, (&game, puuid), mine),
        mine is Some,
        call_ensures(payload::build_match_payload, (&game, mine->0), doc),
    ensures
        queue_laws::changed(
            old(s).outbox@,
            final(s).outbox@,
            q,
            EntryView {
                item: ItemView::MatchPayload { game_id, payload: doc@ },
                ..old(s).outbox@.entries[q]
            },
        ),
{
    queue_laws::lemma_place_is_first(old(s).outbox@, entry_id);
    let i = payload::my_index(game@, puuid@)->0;
    assert(game@.participants[i] == game.participants@[i]@);
}

/// A game without participants is a permanent failure, which drops the entry at
/// the fifth; a game without detail is noted on the entry; and an entry that has
/// left the queue meanwhile stays away. Whatever the detail, nothing but the
/// queue changes, and the sync goes on.
pub proof fn law_missing_detail_is_a_failure(
    run: &mut SyncRun,
    s: &mut AppState,
    entry_id: u64,
    game_id: i64,
    detail: Result<GameDetail, LcuError>,
    action: SyncAction,
    q: int,
    e: LcuError,
    msg: String,
)
    requires
        call_ensures(SyncRun::detail_read, (run, s, entry_id, game_id, detail), action),
        old(run).summoner is Some,
        detail matches Err(why) ==> why == e,
        call_ensures(LcuError::message, (&e,), msg),
    ensures
        ({
            let entry = old(s).outbox@.entries[q];
            let before = old(s).outbox@;
            let after = final(s).outbox@;
            let here = queue_laws::first_numbered(before, entry_id, q);
            &&& queue_laws::unnumbered(before, entry_id) ==> after == before
            &&& here && detail is Err ==> queue_laws::changed(
                before,
                after,
                q,
                EntryView { last_error: Some(msg@), ..entry },
            )
            &&& here && detail is Ok && detail->Ok_0.participants@.len() == 0 ==> {
                &&& entry.permanent_failures < 4 ==> queue_laws::changed(
                    before,
                    after,
                    q,
                    EntryView {
                        permanent_failures: (entry.permanent_failures + 1) as u32,
                        last_error: Some("participante não encontrado no jogo"@),
                        ..entry
                    },
                )
                &&& entry.permanent_failures >= 4 ==> queue_laws::without(before, after, entry_id)
            }
        }),
        final(s).outbox.save_due(),
        keeps_the_session(*old(s), *final(s)),
        final(s).summoner == old(s).summoner && final(s).lcu_connected == old(s).lcu_connected,
        final(s).backfilled_lcu == old(s).backfilled_lcu,
        same_sync(*old(run), *final(run)),
        final(run).sent == old(run).sent && final(run).send_failed == old(run).send_failed,
        follows(*final(run), outbox::entries_view(old(run).waiting@), *final(s), action),
{
    queue_laws::lemma_place_is_first(old(s).outbox@, entry_id);
    lemma_follows(*final(run), old(run)@, *final(s), action);
    lemma_same_sync(*old(run), *final(run));
    if detail is Ok {
        lcu_laws::law_own_participant(detail->Ok_0@, old(run).summoner->0.puuid@);
    }
}

/// A game that the backend has taken leaves the queue and counts as synced, and
/// what was inserted is counted; one that it has not taken fails as its error
/// says. Either way the sync goes on with the entries that wait.
pub proof fn law_posted_game_is_taken_or_fails(
    run: &mut SyncRun,
    s: &mut AppState,
    entry_id: u64,
    game_id: i64,
    posted: Result<u64, AdgError>,
    action: SyncAction,
    q: int,
)
    requires
        call_ensures(SyncRun::match_posted, (run, s, entry_id, game_id, posted), action),
        posted matches Ok(n) ==> old(run).sent + n <= u64::MAX,
    ensures
        posted matches Ok(n) ==> {
            &&& queue_laws::without(old(s).outbox@, final(s).outbox@, entry_id)
            &&& final(s).outbox.save_due()
            &&& forall|g: i64| #[trigger]
                final(s).config.synced_ids@.contains(g) <==> old(s).config.synced_ids@.contains(g)
                    || g == game_id
            &&& final(s).config.total_synced == old(s).config.total_synced + n
            &&& final(s).config.last_sync_ms == old(s).config.last_sync_ms
            &&& final(s).token == old(s).token && final(s).summoner == old(s).summoner
            &&& final(s).lcu_connected == old(s).lcu_connected
            &&& final(s).update_required == old(s).update_required
            &&& final(s).backfilled_lcu == old(s).backfilled_lcu
            &&& final(s).last_error == old(s).last_error
            &&& final(run).sent == old(run).sent + n
            &&& final(run).send_failed == old(run).send_failed
        },
        posted matches Err(e) ==> {
            &&& queue_laws::first_numbered(old(s).outbox@, entry_id, q) ==> state_laws::send_failed(
                *old(s),
                *final(s),
                q,
                e,
            )
            &&& queue_laws::unnumbered(old(s).outbox@, entry_id) ==> state_laws::send_failed_late(
                *old(s),
                *final(s),
                e,
            )
            &&& final(run).sent == old(run).sent && final(run).send_failed
        },
        same_sync(*old(run), *final(run)),
        follows(*final(run), outbox::entries_view(old(run).waiting@), *final(s), action),
{
    lemma_same_sync(*old(run), *final(run));
    match posted {
        Ok(n) => {
            lemma_follows(
                *final(run),
                sync::SyncView { sent: (old(run).sent + n) as u64, ..old(run)@ },
                *final(s),
                action,
            );
        },
        Err(e) => {
            state_laws::lemma_send_failed(*old(s), *final(s), entry_id, e, q);
            lemma_follows(
                *final(run),
                sync::SyncView { send_failed: true, ..old(run)@ },
                *final(s),
                action,
            );
        },
    }
}

/// A snapshot that the backend has taken leaves the queue; one that it has not
/// taken fails as its error says. Either way the sync goes on with the entries
/// that wait.
pub proof fn law_posted_snapshot_is_taken_or_fails(
    run: &mut SyncRun,
    s: &mut AppState,
    entry_id: u64,
    posted: Result<(), AdgError>,
    action: SyncAction,
    q: int,
)
    requires
        call_ensures(SyncRun::snapshot_posted, (run, s, entry_id, posted), action),
    ensures
        posted is Ok ==> {
            &&& queue_laws::without(old(s).outbox@, final(s).outbox@, entry_id)
            &&& final(s).outbox.save_due()
            &&& state_laws::keeps_all_but_the_queue(*old(s), *final(s))
            &&& final(s).update_required == old(s).update_required
            &&& final(s).last_error == old(s).last_error
            &&& final(run).send_failed == old(run).send_failed
        },
        posted matches Err(e) ==> {
            &&& queue_laws::first_numbered(old(s).outbox@, entry_id, q) ==> state_laws::send_failed(
                *old(s),
                *final(s),
                q,
                e,
            )
            &&& queue_laws::unnumbered(old(s).outbox@, entry_id) ==> state_laws::send_failed_late(
                *old(s),
                *final(s),
                e,
            )
            &&& final(run).send_failed
        },
        final(run).sent == old(run).sent,
        same_sync(*old(run), *final(run)),
        follows(*final(run), outbox::entries_view(old(run).waiting@), *final(s), action),
{
    lemma_same_sync(*old(run), *final(run));
    match posted {
        Ok(_) => {
            lemma_follows(*final(run), old(run)@, *final(s), action);
        },
        Err(e) => {
            state_laws::lemma_send_failed(*old(s), *final(s), entry_id, e, q);
            lemma_follows(
                *final(run),
                sync::SyncView { send_failed: true, ..old(run)@ },
                *final(s),
                action,
            );
        },
    }
}

/// A sync ends with its time noted if and only if no send failed and no update
/// is wanted; the last error goes if and only if nothing waits and no update is
/// wanted. The report has what was sent and what waits.
pub proof fn law_end_of_a_sync(run: SyncRun, s: &mut AppState, now: i64, report: SyncReport)
    requires
        call_ensures(SyncRun::finish, (&run, s, now), report),
    ensures
        !run.send_failed && old(s).update_required is None ==> final(s).config.last_sync_ms
            == Some(now),
        run.send_failed || old(s).update_required is Some ==> final(s).config.last_sync_ms == old(
            s,
        ).config.last_sync_ms,
        old(s).outbox@.entries.len() == 0 && old(s).update_required is None
            ==> final(s).last_error is None,
        old(s).outbox@.entries.len() > 0 || old(s).update_required is Some ==> final(s).last_error
            == old(s).last_error,
        final(s).outbox == old(s).outbox && final(s).token == old(s).token,
        final(s).summoner == old(s).summoner && final(s).lcu_connected == old(s).lcu_connected,
        final(s).update_required == old(s).update_required,
        final(s).backfilled_lcu == old(s).backfilled_lcu,
        final(s).config.synced_ids@ == old(s).config.synced_ids@,
        final(s).config.total_synced == old(s).config.total_synced,
        report.sent == run.sent,
        report.total == old(s).outbox@.entries.len(),
{
}

/// The report is an object with what was sent and what waits.
pub proof fn law_report_is_an_object(report: SyncReport, doc: Json)
    requires
        call_ensures(SyncReport::to_json, (&report,), doc),
    ensures
        doc@.get("sent"@) == Some(JsonView::Int(report.sent as int)),
        doc@.get("total"@) == Some(JsonView::Int(report.total as int)),
        reply_laws::has_keys(doc@, set!["sent"@, "total"@]),
{
    reveal_strlit("sent");
    reveal_strlit("total");
    assert("sent"@.len() != "total"@.len());
    assert(doc@->Object_0.dom() =~= set!["sent"@, "total"@]);
}

} // verus!
