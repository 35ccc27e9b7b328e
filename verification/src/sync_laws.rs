//! What holds of syncs and of the backend's replies.
use crate::adg::{self, AdgError, ErrorView};
use crate::capture;
use crate::first;
use crate::game::GameDetail;
use crate::http::{self, Exchange};
use crate::json::JsonView;
use crate::lcu::{self, CredsView, LcuError, Summoner};
use crate::lcu_laws;
use crate::outbox::{EntryView, ItemView, OutboxView, MAX_PERMANENT_FAILURES};
use crate::outbox_laws;
use crate::state::{self, AppState};
use crate::sync::{self, SyncPoint, SyncView};
use crate::text;
use vstd::prelude::*;

verus! {

/// While the backend wants an update, no sync sends anything.
pub proof fn law_update_blocks_sending(run: SyncView, s: AppState)
    requires
        s.update_required is Some,
    ensures
        run.drain(s).1 is Finish,
        run.after_entry(s).1 is Finish,
{
}

/// An update that the backend wants leaves the queue exactly as it is, and
/// stops the sync.
pub proof fn law_update_required_keeps_the_queue(
    before: AppState,
    after: AppState,
    entry_id: u64,
    e: AdgError,
    run: SyncView,
)
    requires
        state::send_error_taken(before, after, entry_id, e),
        e is UpdateRequired,
    ensures
        after.outbox == before.outbox,
        after.update_required is Some,
        run.after_entry(after).1 is Finish,
{
}

/// What a sync does about the outbox concerns an entry that is in it: nothing
/// is sent that was not queued.
pub proof fn law_only_queued_entries_are_sent(run: SyncView, s: AppState)
    ensures
        run.drain(s).1 is Finish || exists|i: int|
            0 <= i < s.outbox@.entries.len() && run.can_act_on(#[trigger] s.outbox@.entries[i])
                && run.drain(s).1 == run.action_for(s.outbox@.entries[i]),
{
    if s.update_required is None {
        let all = SyncView { waiting: s.outbox@.entries, ..run };
        if all.next_place() is Some {
            lemma_next_place(all);
            let i = all.next_place()->0;
            assert(run.can_act_on(s.outbox@.entries[i]));
            assert(all.action_for(all.waiting[i]) == run.action_for(s.outbox@.entries[i]));
        }
    }
}

/// The next entry to act on is the first about which something can be done.
pub proof fn lemma_next_place(run: SyncView)
    requires
        run.next_place() is Some,
    ensures
        0 <= run.next_place()->0 < run.waiting.len(),
        run.can_act_on(run.waiting[run.next_place()->0]),
        forall|j: int|
            0 <= j < run.next_place()->0 ==> !run.can_act_on(#[trigger] run.waiting[j]),
{
    let has_client = run.creds is Some;
    let has_player = run.summoner is Some;
    let test = |e: EntryView| sync::can_act(has_client, has_player, e.item);
    let i = choose|i: int| first::is_first(run.waiting, test, i);
    assert(first::is_first(run.waiting, test, i));
    assert forall|j: int| 0 <= j < i implies !run.can_act_on(#[trigger] run.waiting[j]) by {
        assert(!test(run.waiting[j]));
    }
}

/// A drain looks at each entry once and ends: every step leaves fewer entries
/// waiting or finishes, and what it passes over cannot be acted on.
pub proof fn law_drain_ends(run: SyncView)
    ensures
        run.next().1 is Finish ==> run.next().0.waiting.len() == 0 && forall|j: int|
            0 <= j < run.waiting.len() ==> !run.can_act_on(#[trigger] run.waiting[j]),
        !(run.next().1 is Finish) ==> exists|i: int|
            0 <= i < run.waiting.len() && run.next().1 == run.action_for(#[trigger] run.waiting[i])
                && run.next().0.waiting == run.waiting.skip(i + 1) && forall|j: int|
                0 <= j < i ==> !run.can_act_on(#[trigger] run.waiting[j]),
{
    if run.next_place() is Some {
        lemma_next_place(run);
        let i = run.next_place()->0;
        assert(run.next().1 == run.action_for(run.waiting[i]));
    } else {
        let has_client = run.creds is Some;
        let has_player = run.summoner is Some;
        let test = |e: EntryView| sync::can_act(has_client, has_player, e.item);
        assert forall|j: int| 0 <= j < run.waiting.len() implies !run.can_act_on(
            #[trigger] run.waiting[j],
        ) by {
            if test(run.waiting[j]) {
                first::lemma_first_some(run.waiting, test, j);
            }
        }
    }
}

/// Whether one more permanent failure drops an entry.
pub open spec fn at_limit(entry: EntryView) -> bool {
    entry.permanent_failures + 1 >= MAX_PERMANENT_FAILURES
}

/// A failed send drops an entry only where the failure is permanent and
/// reaches the limit; else the entry stays, with its item.
pub proof fn law_failed_send_keeps_the_entry(
    before: AppState,
    after: AppState,
    i: int,
    e: AdgError,
)
    requires
        outbox_laws::well_numbered(before.outbox@),
        0 <= i < before.outbox@.entries.len(),
        state::send_error_taken(before, after, before.outbox@.entries[i].id, e),
        !(e is Permanent && at_limit(before.outbox@.entries[i])),
    ensures
        after.outbox@.entries.len() == before.outbox@.entries.len(),
        after.outbox@.entries[i].id == before.outbox@.entries[i].id,
        after.outbox@.entries[i].item == before.outbox@.entries[i].item,
{
    outbox_laws::lemma_place(before.outbox@, i);
}

/// The detail of a game never takes the pending entry out of the queue, unless
/// the game has no participants and that failure reaches the limit.
pub proof fn law_detail_keeps_the_entry(
    outbox: OutboxView,
    i: int,
    game_id: i64,
    puuid: Seq<char>,
    detail: Result<GameDetail, LcuError>,
)
    requires
        outbox_laws::well_numbered(outbox),
        0 <= i < outbox.entries.len(),
        !(detail is Ok && detail->Ok_0@.participants.len() == 0 && at_limit(outbox.entries[i])),
    ensures
        ({
            let after = sync::detail_taken(
                outbox,
                outbox.entries[i].id,
                game_id,
                puuid,
                detail,
            );
            &&& after.entries.len() == outbox.entries.len()
            &&& after.entries[i].id == outbox.entries[i].id
            &&& detail is Ok && detail->Ok_0@.participants.len() > 0
                ==> after.entries[i].item is MatchPayload && after.entries[i].item.game_id()
                == game_id
            &&& !(detail is Ok && detail->Ok_0@.participants.len() > 0)
                ==> after.entries[i].item == outbox.entries[i].item
        }),
{
    outbox_laws::lemma_place(outbox, i);
    if detail is Ok {
        lcu_laws::law_own_participant(detail->Ok_0@, puuid);
    }
}

/// The status of a refusal alone decides what a retry can do.
pub proof fn law_status_decides_the_retry(code: u16, doc: JsonView)
    ensures
        adg::refusal(code, doc) is UpdateRequired <==> code == 426,
        adg::refusal(code, doc) is Permanent <==> http::client_error(code) && code != 426,
        adg::refusal(code, doc) is Transient <==> !http::client_error(code),
{
}

/// Nothing counts as taken by the backend but what it answered with a success.
pub proof fn law_only_success_counts_as_taken(exchange: Exchange)
    ensures
        adg::matches_outcome(exchange) is Ok ==> exchange is Ok && http::success(
            exchange->Ok_0.status@,
        ),
        adg::snapshot_outcome(exchange) is Ok <==> exchange is Ok && http::success(
            exchange->Ok_0.status@,
        ),
{
}

/// What became of an entry that the backend did not take follows from the
/// exchange: a failed transport, or a reply that blames nobody or the backend,
/// leaves it with its counter, a wanted update leaves the whole queue alone, and
/// a reply that blames the companion is counted and drops the entry at the
/// limit.
pub proof fn law_reply_decides_the_entry(
    before: AppState,
    after: AppState,
    i: int,
    exchange: Exchange,
    e: AdgError,
)
    requires
        outbox_laws::well_numbered(before.outbox@),
        0 <= i < before.outbox@.entries.len(),
        state::send_error_taken(before, after, before.outbox@.entries[i].id, e),
        adg::matches_outcome(exchange) == Err::<u64, ErrorView>(e@) || adg::snapshot_outcome(
            exchange,
        ) == Err::<(), ErrorView>(e@),
    ensures
        ({
            let entry = before.outbox@.entries[i];
            let blamed = exchange is Ok && http::client_error(exchange->Ok_0.status@);
            let update = exchange is Ok && exchange->Ok_0.status@ == 426;
            &&& update ==> after.outbox == before.outbox && after.update_required is Some
            &&& !blamed ==> outbox_laws::holds(
                after.outbox@,
                EntryView { last_error: Some(state::send_error_text(e)), ..entry },
            )
            &&& blamed && !update && !at_limit(entry) ==> outbox_laws::holds(
                after.outbox@,
                EntryView {
                    permanent_failures: (entry.permanent_failures + 1) as u32,
                    last_error: Some(state::send_error_text(e)),
                    ..entry
                },
            )
            &&& blamed && !update && at_limit(entry) ==> after.outbox@.place(entry.id) is None
        }),
{
    let entry = before.outbox@.entries[i];
    outbox_laws::lemma_place(before.outbox@, i);
    outbox_laws::law_removed_is_gone(before.outbox@, entry.id);
    let now = after.outbox@.entries;
    if e is Transient {
        assert(now[i] == EntryView { last_error: Some(state::send_error_text(e)), ..entry });
    }
    if e is Permanent && !at_limit(entry) {
        assert(now[i] == EntryView {
            permanent_failures: (entry.permanent_failures + 1) as u32,
            last_error: Some(state::send_error_text(e)),
            ..entry
        });
    }
}

/// How many of the errors were permanent.
pub open spec fn permanent_in(errors: Seq<AdgError>) -> nat
    decreases errors.len(),
{
    if errors.len() == 0 {
        0
    } else {
        permanent_in(errors.drop_last()) + if errors.last() is Permanent {
            1nat
        } else {
            0nat
        }
    }
}

/// Whether `states` are what a series of failed sends of one entry leads
/// through.
pub open spec fn failed_sends(states: Seq<AppState>, id: u64, errors: Seq<AdgError>) -> bool {
    &&& states.len() == errors.len() + 1
    &&& forall|k: int|
        0 <= k < errors.len() ==> state::send_error_taken(
            states[k],
            states[k + 1],
            id,
            #[trigger] errors[k],
        )
}

proof fn lemma_failed_sends(
    states: Seq<AppState>,
    queue: OutboxView,
    item: ItemView,
    errors: Seq<AdgError>,
)
    requires
        outbox_laws::well_numbered(queue),
        queue.next_id < u64::MAX,
        failed_sends(states, queue.next_id, errors),
        states[0].outbox@ == queue.pushed(item),
    ensures
        ({
            let id = queue.next_id;
            let last = states.last();
            let now = last.outbox@;
            &&& outbox_laws::well_numbered(now)
            &&& now.place(id) is Some <==> permanent_in(errors) < MAX_PERMANENT_FAILURES
            &&& now.place(id) matches Some(p) ==> now.entries[p].permanent_failures
                == permanent_in(errors) && now.entries[p].item == item
            &&& last == AppState {
                outbox: last.outbox,
                update_required: last.update_required,
                last_error: last.last_error,
                ..states[0]
            }
            &&& forall|i: int, j: int|
                0 <= i <= j < states.len() && (#[trigger] states[i]).update_required is Some
                    ==> (#[trigger] states[j]).update_required is Some
        }),
    decreases errors.len(),
{
    let id = queue.next_id;
    if errors.len() == 0 {
        let start = queue.pushed(item);
        outbox_laws::law_numbers_stay_unique(queue, id, item, Seq::empty());
        outbox_laws::lemma_place(start, queue.entries.len() as int);
        assert(states.last() == states[0]);
    } else {
        let n = errors.len() - 1;
        let rest_states = states.drop_last();
        let rest = errors.drop_last();
        assert forall|k: int| 0 <= k < rest.len() implies state::send_error_taken(
            rest_states[k],
            rest_states[k + 1],
            id,
            #[trigger] rest[k],
        ) by {
            assert(state::send_error_taken(states[k], states[k + 1], id, errors[k]));
        }
        lemma_failed_sends(rest_states, queue, item, rest);
        let before = states[n];
        let after = states[n + 1];
        assert(rest_states.last() == before);
        assert(states.last() == after);
        assert(state::send_error_taken(before, after, id, errors[n]));
        let e = errors[n];
        let err = state::send_error_text(e);
        outbox_laws::law_numbers_stay_unique(before.outbox@, id, item, err);
        outbox_laws::law_removed_is_gone(before.outbox@, id);
        if before.outbox@.place(id) is Some {
            outbox_laws::lemma_found(before.outbox@, id);
            let p = before.outbox@.place(id)->0;
            if !(e is Permanent && at_limit(before.outbox@.entries[p])) {
                assert(after.outbox@.entries[p].id == id);
                outbox_laws::lemma_place(after.outbox@, p);
            }
        }
        assert forall|i: int, j: int|
            0 <= i <= j < states.len() && (#[trigger] states[i]).update_required is Some implies (
        #[trigger] states[j]).update_required is Some by {
            if j <= n {
                assert(rest_states[i] == states[i] && rest_states[j] == states[j]);
            } else if i <= n {
                assert(rest_states[i] == states[i] && rest_states[n] == states[n]);
                assert(states[n].update_required is Some);
            }
        }
    }
}

/// After any mix of failed sends, an entry that was just queued is still there
/// if and only if fewer than the limit of them were permanent, however many
/// others came between. A wanted update stays wanted, and nothing else of the
/// state changes but the queue and the last error.
pub proof fn law_entry_is_there_until_the_limit(
    states: Seq<AppState>,
    queue: OutboxView,
    item: ItemView,
    errors: Seq<AdgError>,
)
    requires
        outbox_laws::well_numbered(queue),
        queue.next_id < u64::MAX,
        failed_sends(states, queue.next_id, errors),
        states[0].outbox@ == queue.pushed(item),
    ensures
        states.last().outbox@.place(queue.next_id) is Some <==> permanent_in(errors)
            < MAX_PERMANENT_FAILURES,
        forall|i: int, j: int|
            0 <= i <= j < states.len() && (#[trigger] states[i]).update_required is Some ==> (
            #[trigger] states[j]).update_required is Some,
        states.last() == (AppState {
            outbox: states.last().outbox,
            update_required: states.last().update_required,
            last_error: states.last().last_error,
            ..states[0]
        }),
{
    lemma_failed_sends(states, queue, item, errors);
}

/// Whatever goes to the backend carries the version of the companion, and all
/// but a login the token of the session.
pub proof fn law_requests_carry_the_version(
    base: Seq<char>,
    version: Seq<char>,
    token: Seq<char>,
    texts: Seq<Seq<char>>,
    game_id: i64,
    docs: Seq<JsonView>,
)
    ensures
        adg::login_view(base, version, texts[0], texts[1]).version == (
            adg::VERSION_HEADER@,
            version,
        ),
        ({
            let r = adg::matches_view(base, version, token, texts[0], texts[1], texts[2], docs);
            r.version == (adg::VERSION_HEADER@, version) && r.bearer == Some(token)
        }),
        ({
            let r = adg::snapshot_view(base, version, token, game_id, docs[0], docs[1]);
            r.version == (adg::VERSION_HEADER@, version) && r.bearer == Some(token)
        }),
{
}

/// Once the history of a session of the client was searched it is not due
/// again, and it is due for every other session.
pub proof fn law_history_is_searched_once_per_session(s: AppState, searched: CredsView, now:
    CredsView)
    requires
        text::opt_text(s.backfilled_lcu) == Some(lcu::session_text(searched)),
    ensures
        sync::search_due(s, now) <==> now != searched,
{
    lcu_laws::law_sessions_are_told_apart(searched, now);
}

/// With the client and the player known, the history is asked for if and only
/// if this session of the client was not searched yet; and no later step of the
/// same sync asks for it again.
pub proof fn law_search_is_asked_for_when_due(
    run: SyncView,
    s: AppState,
    player: Summoner,
    after: SyncPoint,
    later: SyncView,
    then: AppState,
)
    requires
        run.creds is Some,
        sync::summoner_taken(run, s, Ok::<Summoner, LcuError>(player), after),
    ensures
        after.action is ReadRecent <==> text::opt_text(s.backfilled_lcu) != Some(
            lcu::session_text(run.creds->0),
        ),
        !(later.drain(then).1 is ReadRecent),
        !(later.after_entry(then).1 is ReadRecent),
{
}

/// A search that got the history settles this session of the client, so that no
/// later sync in it asks again; one that did not changes nothing, so that the
/// next sync tries again.
pub proof fn law_search_settles_the_session(
    run: SyncView,
    s: AppState,
    games: Result<Seq<JsonView>, LcuError>,
    known: Set<i64>,
    after: SyncPoint,
    next_run: SyncView,
    player: Summoner,
    next: SyncPoint,
)
    requires
        run.creds is Some,
        next_run.creds == run.creds,
        sync::recent_taken(run, s, games, known, after),
        sync::summoner_taken(next_run, after.state, Ok::<Summoner, LcuError>(player), next),
    ensures
        !(after.action is ReadRecent),
        games is Ok ==> text::opt_text(after.state.backfilled_lcu) == Some(
            lcu::session_text(run.creds->0),
        ) && !(next.action is ReadRecent),
        games is Err ==> after.state == s && (next.action is ReadRecent <==> sync::search_due(
            s,
            run.creds->0,
        )),
{
}

/// A game that the backend has taken is neither found new in the history nor
/// queued again at the end of a game.
pub proof fn law_synced_game_is_not_queued_again(
    games: Seq<JsonView>,
    synced: Set<i64>,
    outbox: OutboxView,
    game_id: i64,
    stats: JsonView,
    peak: JsonView,
)
    requires
        synced.contains(game_id),
    ensures
        !lcu::new_mayhem_ids(games, synced).contains(game_id),
        forall|i: int|
            outbox.entries.len() <= i < capture::game_queued(
                outbox,
                synced,
                game_id,
                stats,
                peak,
            ).entries.len() ==> (#[trigger] capture::game_queued(
                outbox,
                synced,
                game_id,
                stats,
                peak,
            ).entries[i]).item is Snapshot,
{
    lcu_laws::law_new_ids_are_mayhem_and_unknown(games, synced);
}

} // verus!
