//! A sync: finding the client and the player, searching the history once per
//! session of the client, and draining the outbox.
//!
//! [`SyncRun`] decides; each of its steps takes what the last action came to
//! and names the next action. The state is only borrowed for the length of a
//! step, so that other tasks may use it between two of them.
use crate::adg::{self, matches_request, snapshot_request, AdgError, ApiRequest, RequestView};
use crate::first;
use crate::game::GameDetail;
use crate::json::{self, put, Json, JsonView};
use crate::lcu::{
    self, get_recent_mayhem_ids, session_key, CredsView, LcuCreds, LcuError, Summoner,
};
use crate::outbox::{self, EntryView, ItemView, Outbox, OutboxEntry, OutboxItem, OutboxView};
use crate::payload::{self, build_match_payload, find_my_participant};
use crate::state::{self, handle_send_error, AppState, SummonerInfo, NOT_LOGGED_IN};
use crate::text::{self, same};
use std::collections::HashSet;
use vstd::prelude::*;

verus! {

/// The failure of a game that nobody took part in.
pub const NO_PARTICIPANT: &'static str = "participante não encontrado no jogo";

/// A sync under way.
#[derive(Debug)]
pub struct SyncRun {
    pub token: String,
    pub api_base: String,
    pub app_version: String,
    /// How to reach the client, where it was found.
    pub creds: Option<LcuCreds>,
    /// The player, where the client told.
    pub summoner: Option<Summoner>,
    /// The entries of the outbox that this sync has yet to look at.
    pub waiting: Vec<OutboxEntry>,
    /// How many games the backend took in this sync.
    pub sent: u64,
    /// Whether the backend did not take something that this sync sent.
    pub send_failed: bool,
}

/// What a sync needs done next.
#[derive(Debug)]
pub enum SyncAction {
    /// Ask the client who is logged in.
    ReadSummoner { creds: LcuCreds },
    /// Ask the client for the window of the match history.
    ReadRecent { creds: LcuCreds, puuid: String },
    /// Ask the client for the detail of a game.
    ReadDetail { creds: LcuCreds, entry_id: u64, game_id: i64 },
    /// Post a game to the backend.
    PostMatch { entry_id: u64, game_id: i64, request: ApiRequest },
    /// Post a snapshot to the backend.
    PostSnapshot { entry_id: u64, game_id: i64, request: ApiRequest },
    /// Nothing is left to do.
    Finish,
}

/// What a sync came to: the games that the backend took, and the entries that
/// still wait.
#[derive(Debug, Clone, Copy)]
pub struct SyncReport {
    pub sent: u64,
    pub total: u64,
}

/// What a [`Summoner`] says.
pub struct SummonerView {
    pub puuid: Seq<char>,
    pub game_name: Seq<char>,
    pub tag_line: Seq<char>,
}

/// What a [`SyncRun`] holds.
pub struct SyncView {
    pub token: Seq<char>,
    pub api_base: Seq<char>,
    pub app_version: Seq<char>,
    pub creds: Option<CredsView>,
    pub summoner: Option<SummonerView>,
    pub waiting: Seq<EntryView>,
    pub sent: u64,
    pub send_failed: bool,
}

/// What a [`SyncAction`] says.
pub enum ActionView {
    ReadSummoner { creds: CredsView },
    ReadRecent { creds: CredsView, puuid: Seq<char> },
    ReadDetail { creds: CredsView, entry_id: u64, game_id: i64 },
    PostMatch { entry_id: u64, game_id: i64, request: RequestView },
    PostSnapshot { entry_id: u64, game_id: i64, request: RequestView },
    Finish,
}

/// What a summoner says.
pub open spec fn summoner_view(summoner: Summoner) -> SummonerView {
    SummonerView {
        puuid: summoner.puuid@,
        game_name: summoner.game_name@,
        tag_line: summoner.tag_line@,
    }
}

impl View for SyncRun {
    type V = SyncView;

    open spec fn view(&self) -> SyncView {
        SyncView {
            token: self.token@,
            api_base: self.api_base@,
            app_version: self.app_version@,
            creds: match self.creds {
                Some(creds) => Some(creds@),
                None => None,
            },
            summoner: match self.summoner {
                Some(summoner) => Some(summoner_view(summoner)),
                None => None,
            },
            waiting: outbox::entries_view(self.waiting@),
            sent: self.sent,
            send_failed: self.send_failed,
        }
    }
}

impl View for SyncAction {
    type V = ActionView;

    open spec fn view(&self) -> ActionView {
        match self {
            SyncAction::ReadSummoner { creds } => ActionView::ReadSummoner { creds: creds@ },
            SyncAction::ReadRecent { creds, puuid } => ActionView::ReadRecent {
                creds: creds@,
                puuid: puuid@,
            },
            SyncAction::ReadDetail { creds, entry_id, game_id } => ActionView::ReadDetail {
                creds: creds@,
                entry_id: *entry_id,
                game_id: *game_id,
            },
            SyncAction::PostMatch { entry_id, game_id, request } => ActionView::PostMatch {
                entry_id: *entry_id,
                game_id: *game_id,
                request: request@,
            },
            SyncAction::PostSnapshot { entry_id, game_id, request } => ActionView::PostSnapshot {
                entry_id: *entry_id,
                game_id: *game_id,
                request: request@,
            },
            SyncAction::Finish => ActionView::Finish,
        }
    }
}

/// A moment of a sync: the sync, the state, and what is to be done next.
pub struct SyncPoint {
    pub run: SyncView,
    pub state: AppState,
    pub action: ActionView,
}

/// Whether something can be done about an item: a pending game needs the
/// client and the player, a payload needs the player, a snapshot needs neither.
pub open spec fn can_act(has_client: bool, has_player: bool, item: ItemView) -> bool {
    match item {
        ItemView::PendingMatch { .. } => has_client && has_player,
        ItemView::MatchPayload { .. } => has_player,
        ItemView::Snapshot { .. } => true,
    }
}

impl SyncView {
    /// Whether something can be done about an entry in this sync.
    pub open spec fn can_act_on(self, entry: EntryView) -> bool {
        can_act(self.creds is Some, self.summoner is Some, entry.item)
    }

    /// What is to be done about an entry.
    pub open spec fn action_for(self, entry: EntryView) -> ActionView {
        match entry.item {
            ItemView::PendingMatch { game_id } => ActionView::ReadDetail {
                creds: self.creds->0,
                entry_id: entry.id,
                game_id,
            },
            ItemView::MatchPayload { game_id, payload } => ActionView::PostMatch {
                entry_id: entry.id,
                game_id,
                request: adg::matches_view(
                    self.api_base,
                    self.app_version,
                    self.token,
                    self.summoner->0.puuid,
                    self.summoner->0.game_name,
                    self.summoner->0.tag_line,
                    seq![payload],
                ),
            },
            ItemView::Snapshot { game_id, champion_stats, peak } => ActionView::PostSnapshot {
                entry_id: entry.id,
                game_id,
                request: adg::snapshot_view(
                    self.api_base,
                    self.app_version,
                    self.token,
                    game_id,
                    champion_stats,
                    peak,
                ),
            },
        }
    }

    /// The place of the first waiting entry about which something can be done.
    pub open spec fn next_place(self) -> Option<int> {
        let has_client = self.creds is Some;
        let has_player = self.summoner is Some;
        first::first_index(
            self.waiting,
            |e: EntryView| can_act(has_client, has_player, e.item),
        )
    }

    /// The sync with nothing left to do.
    pub open spec fn halted(self) -> (SyncView, ActionView) {
        (SyncView { waiting: Seq::empty(), ..self }, ActionView::Finish)
    }

    /// The next action, and the sync that waits for it: the entries about
    /// which nothing can be done are passed over.
    pub open spec fn next(self) -> (SyncView, ActionView) {
        match self.next_place() {
            Some(i) => (
                SyncView { waiting: self.waiting.skip(i + 1), ..self },
                self.action_for(self.waiting[i]),
            ),
            None => self.halted(),
        }
    }

    /// What follows an entry: nothing, where the backend wants an update.
    pub open spec fn after_entry(self, s: AppState) -> (SyncView, ActionView) {
        if s.update_required is Some {
            self.halted()
        } else {
            self.next()
        }
    }

    /// The start of a drain: all that the outbox holds waits, but nothing
    /// where the backend wants an update.
    pub open spec fn drain(self, s: AppState) -> (SyncView, ActionView) {
        if s.update_required is Some {
            self.halted()
        } else {
            SyncView { waiting: s.outbox@.entries, ..self }.next()
        }
    }
}

/// Whether the history of a session of the client has yet to be searched.
pub open spec fn search_due(s: AppState, creds: CredsView) -> bool {
    text::opt_text(s.backfilled_lcu) != Some(lcu::session_text(creds))
}

/// The ids that a queue does not report yet, each once, in the order in which
/// they first occur.
pub open spec fn new_games(outbox: OutboxView, ids: Seq<i64>) -> Seq<i64>
    decreases ids.len(),
{
    if ids.len() == 0 {
        Seq::empty()
    } else {
        let before = new_games(outbox, ids.drop_last());
        if outbox.has_match_for(ids.last()) || ids.drop_last().contains(ids.last()) {
            before
        } else {
            before.push(ids.last())
        }
    }
}

/// The entry of a pending game under a number.
pub open spec fn pending_entry(id: int, game_id: i64) -> EntryView {
    EntryView {
        id: id as u64,
        item: ItemView::PendingMatch { game_id },
        permanent_failures: 0,
        last_error: None,
    }
}

/// The queue with a pending game at its end for each id that it does not report
/// yet, numbered in order.
pub open spec fn enqueued(outbox: OutboxView, ids: Seq<i64>) -> OutboxView {
    let new = new_games(outbox, ids);
    OutboxView {
        next_id: (outbox.next_id + new.len()) as u64,
        entries: outbox.entries + Seq::new(
            new.len(),
            |k: int| pending_entry(outbox.next_id + k, new[k]),
        ),
    }
}

/// The new ids are those that occur and are not reported, each once.
pub proof fn lemma_new_games(outbox: OutboxView, ids: Seq<i64>)
    ensures
        new_games(outbox, ids).len() <= ids.len(),
        new_games(outbox, ids).no_duplicates(),
        forall|g: i64| #[trigger]
            new_games(outbox, ids).contains(g) <==> ids.contains(g) && !outbox.has_match_for(g),
    decreases ids.len(),
{
    let new = new_games(outbox, ids);
    if ids.len() > 0 {
        let rest = ids.drop_last();
        let before = new_games(outbox, rest);
        lemma_new_games(outbox, rest);
        assert forall|g: i64| #[trigger] new.contains(g) <==> ids.contains(g)
            && !outbox.has_match_for(g) by {
            assert(ids.contains(g) <==> rest.contains(g) || g == ids.last()) by {
                assert(ids =~= rest.push(ids.last()));
                if ids.contains(g) {
                    let i = choose|i: int| 0 <= i < ids.len() && ids[i] == g;
                    if i < rest.len() {
                        assert(rest[i] == g);
                    }
                }
                if rest.contains(g) {
                    let i = choose|i: int| 0 <= i < rest.len() && rest[i] == g;
                    assert(ids[i] == g);
                }
                assert(ids[ids.len() - 1] == ids.last());
            }
            assert(before.contains(g) <==> rest.contains(g) && !outbox.has_match_for(g));
            if new != before {
                assert(new.contains(g) <==> before.contains(g) || g == ids.last()) by {
                    if before.contains(g) {
                        let i = choose|i: int| 0 <= i < before.len() && before[i] == g;
                        assert(new[i] == g);
                    }
                    assert(new[new.len() - 1] == ids.last());
                }
            }
        }
        assert(!before.contains(ids.last()) || new == before);
    }
}

/// More ids give no fewer new ones.
proof fn lemma_new_games_grow(outbox: OutboxView, ids: Seq<i64>, n: int)
    requires
        0 <= n <= ids.len(),
    ensures
        new_games(outbox, ids.take(n)).len() <= new_games(outbox, ids).len(),
    decreases ids.len() - n,
{
    if n < ids.len() {
        assert(ids.take(n + 1).drop_last() =~= ids.take(n));
        lemma_new_games_grow(outbox, ids, n + 1);
    } else {
        assert(ids.take(n) =~= ids);
    }
}

/// A queue reports a game after a search where it did before or the search
/// found it.
pub proof fn lemma_enqueued_reports(outbox: OutboxView, ids: Seq<i64>, game_id: i64)
    ensures
        enqueued(outbox, ids).has_match_for(game_id) <==> outbox.has_match_for(game_id)
            || ids.contains(game_id),
{
    let new = new_games(outbox, ids);
    let after = enqueued(outbox, ids);
    let n = outbox.entries.len() as int;
    lemma_new_games(outbox, ids);
    assert(new.contains(game_id) <==> ids.contains(game_id) && !outbox.has_match_for(game_id));
    if after.has_match_for(game_id) {
        let i = choose|i: int|
            0 <= i < after.entries.len() && (#[trigger] after.entries[i]).item.is_match_for(
                game_id,
            );
        if i < n {
            assert(outbox.entries[i] == after.entries[i]);
        } else {
            assert(new[i - n] == game_id);
        }
    }
    if outbox.has_match_for(game_id) {
        let i = choose|i: int|
            0 <= i < n && (#[trigger] outbox.entries[i]).item.is_match_for(game_id);
        assert(after.entries[i] == outbox.entries[i]);
    } else if ids.contains(game_id) {
        let k = choose|k: int| 0 <= k < new.len() && new[k] == game_id;
        assert(after.entries[n + k].item.is_match_for(game_id));
    }
}

/// Searching for one id more queues it, unless it is reported by then.
pub proof fn lemma_enqueued_step(outbox: OutboxView, ids: Seq<i64>)
    requires
        ids.len() > 0,
        outbox.next_id + new_games(outbox, ids).len() <= u64::MAX,
    ensures
        ({
            let before = enqueued(outbox, ids.drop_last());
            &&& before.has_match_for(ids.last()) ==> enqueued(outbox, ids) == before
            &&& !before.has_match_for(ids.last()) ==> {
                &&& before.next_id < u64::MAX
                &&& enqueued(outbox, ids) == before.pushed(
                    ItemView::PendingMatch { game_id: ids.last() },
                )
            }
        }),
{
    let rest = ids.drop_last();
    let before = enqueued(outbox, rest);
    lemma_enqueued_reports(outbox, rest, ids.last());
    if !before.has_match_for(ids.last()) {
        assert(enqueued(outbox, ids).entries =~= before.pushed(
            ItemView::PendingMatch { game_id: ids.last() },
        ).entries);
    }
}

/// Queues a pending game for each id that the queue does not report yet.
pub fn enqueue_matches(outbox: &mut Outbox, ids: &Vec<i64>)
    requires
        old(outbox)@.next_id + new_games(old(outbox)@, ids@).len() <= u64::MAX,
    ensures
        final(outbox)@ == enqueued(old(outbox)@, ids@),
        final(outbox)@ == old(outbox)@ ==> *final(outbox) == *old(outbox),
        final(outbox)@ != old(outbox)@ ==> final(outbox).save_due(),
{
    let ghost before = *outbox;
    let mut i: usize = 0;
    assert(enqueued(before@, ids@.take(0)).entries =~= before@.entries);
    while i < ids.len()
        invariant
            i <= ids.len(),
            before == *old(outbox),
            before@.next_id + new_games(before@, ids@).len() <= u64::MAX,
            outbox@ == enqueued(before@, ids@.take(i as int)),
            before@.next_id <= outbox@.next_id,
            outbox@.next_id == before@.next_id ==> *outbox == before,
            outbox@.next_id != before@.next_id ==> outbox.save_due(),
        decreases ids.len() - i,
    {
        proof {
            assert(ids@.take(i + 1).drop_last() =~= ids@.take(i as int));
            assert(ids@.take(i + 1).last() == ids@[i as int]);
            lemma_new_games_grow(before@, ids@, i + 1);
            lemma_enqueued_step(before@, ids@.take(i + 1));
        }
        if !outbox.has_match_for(ids[i]) {
            outbox.push(OutboxItem::PendingMatch { game_id: ids[i] });
        }
        i = i + 1;
    }
    assert(ids@.take(i as int) =~= ids@);
}

/// What the detail of a pending game, or the lack of one, does to the queue.
pub open spec fn detail_taken(
    outbox: OutboxView,
    entry_id: u64,
    game_id: i64,
    puuid: Seq<char>,
    detail: Result<GameDetail, LcuError>,
) -> OutboxView {
    match detail {
        Ok(game) => match payload::my_index(game@, puuid) {
            Some(i) => outbox.replaced(
                entry_id,
                ItemView::MatchPayload {
                    game_id,
                    payload: payload::match_payload(game@, game@.participants[i]),
                },
            ),
            None => outbox.failed_permanently(entry_id, NO_PARTICIPANT@),
        },
        Err(e) => outbox.failed_transiently(entry_id, lcu::error_text(e)),
    }
}

/// What the outcome of looking for the client leads to.
pub open spec fn discovery_taken(
    run: SyncView,
    state: AppState,
    creds: Option<CredsView>,
    after: SyncPoint,
) -> bool {
    &&& after.state == AppState { lcu_connected: creds is Some, ..state }
    &&& match creds {
        Some(found) => {
            &&& after.run == SyncView { creds, ..run }
            &&& after.action == ActionView::ReadSummoner { creds: found }
        },
        None => (after.run, after.action) == (SyncView { creds, ..run }).drain(after.state),
    }
}

/// What the answer who is logged in leads to.
pub open spec fn summoner_taken(
    run: SyncView,
    state: AppState,
    read: Result<Summoner, LcuError>,
    after: SyncPoint,
) -> bool {
    match read {
        Ok(player) => {
            let known = SyncView { summoner: Some(summoner_view(player)), ..run };
            &&& after.state == AppState { summoner: after.state.summoner, ..state }
            &&& after.state.summoner is Some
            &&& after.state.summoner->0.game_name@ == player.game_name@
            &&& after.state.summoner->0.tag_line@ == player.tag_line@
            &&& if search_due(state, run.creds->0) {
                &&& after.run == known
                &&& after.action == ActionView::ReadRecent {
                    creds: run.creds->0,
                    puuid: player.puuid@,
                }
            } else {
                (after.run, after.action) == known.drain(after.state)
            }
        },
        Err(_) => {
            &&& after.state == state
            &&& (after.run, after.action) == run.drain(state)
        },
    }
}

/// What the window of the match history leads to.
pub open spec fn recent_taken(
    run: SyncView,
    state: AppState,
    games: Result<Seq<JsonView>, LcuError>,
    known: Set<i64>,
    after: SyncPoint,
) -> bool {
    &&& match games {
        Ok(games) => {
            let ids = lcu::new_mayhem_ids(games, known);
            &&& after.state == AppState {
                outbox: after.state.outbox,
                backfilled_lcu: after.state.backfilled_lcu,
                ..state
            }
            &&& after.state.outbox@ == enqueued(state.outbox@, ids)
            &&& after.state.outbox@ != state.outbox@ ==> after.state.outbox.save_due()
            &&& after.state.outbox@ == state.outbox@ ==> after.state.outbox == state.outbox
            &&& text::opt_text(after.state.backfilled_lcu) == Some(
                lcu::session_text(run.creds->0),
            )
        },
        Err(_) => after.state == state,
    }
    &&& (after.run, after.action) == run.drain(after.state)
}

/// What the detail of a pending game leads to.
pub open spec fn detail_answered(
    run: SyncView,
    state: AppState,
    entry_id: u64,
    game_id: i64,
    detail: Result<GameDetail, LcuError>,
    after: SyncPoint,
) -> bool {
    &&& after.state == AppState { outbox: after.state.outbox, ..state }
    &&& after.state.outbox@ == detail_taken(
        state.outbox@,
        entry_id,
        game_id,
        run.summoner->0.puuid,
        detail,
    )
    &&& after.state.outbox.save_due()
    &&& (after.run, after.action) == run.after_entry(after.state)
}

/// What the reply to a posted game leads to.
pub open spec fn match_answered(
    run: SyncView,
    state: AppState,
    entry_id: u64,
    game_id: i64,
    posted: Result<u64, AdgError>,
    after: SyncPoint,
) -> bool {
    match posted {
        Ok(n) => {
            &&& after.state == AppState {
                outbox: after.state.outbox,
                config: after.state.config,
                ..state
            }
            &&& after.state.outbox@ == state.outbox@.removed(entry_id)
            &&& after.state.outbox.save_due()
            &&& after.state.config.synced_ids@ == state.config.synced_ids@.insert(game_id)
            &&& after.state.config.total_synced == state.config.total_synced + n
            &&& after.state.config.last_sync_ms == state.config.last_sync_ms
            &&& (after.run, after.action) == (SyncView {
                sent: (run.sent + n) as u64,
                ..run
            }).after_entry(after.state)
        },
        Err(e) => {
            &&& state::send_error_taken(state, after.state, entry_id, e)
            &&& (after.run, after.action) == (SyncView { send_failed: true, ..run }).after_entry(
                after.state,
            )
        },
    }
}

/// What the reply to a posted snapshot leads to.
pub open spec fn snapshot_answered(
    run: SyncView,
    state: AppState,
    entry_id: u64,
    posted: Result<(), AdgError>,
    after: SyncPoint,
) -> bool {
    match posted {
        Ok(()) => {
            &&& after.state == AppState { outbox: after.state.outbox, ..state }
            &&& after.state.outbox@ == state.outbox@.removed(entry_id)
            &&& after.state.outbox.save_due()
            &&& (after.run, after.action) == run.after_entry(after.state)
        },
        Err(e) => {
            &&& state::send_error_taken(state, after.state, entry_id, e)
            &&& (after.run, after.action) == (SyncView { send_failed: true, ..run }).after_entry(
                after.state,
            )
        },
    }
}

/// Whether a sync that has nothing left to do was successful: nothing that it
/// sent failed, and the backend wants no update, which would have kept it from
/// sending.
pub open spec fn succeeded(run: SyncView, state: AppState) -> bool {
    !run.send_failed && state.update_required is None
}

impl SyncRun {
    /// Starts a sync, which needs a session. The client has to be looked for
    /// first.
    pub fn start(s: &AppState, api_base: String, app_version: &str) -> (run: Result<
        SyncRun,
        String,
    >)
        ensures
            match run {
                Ok(run) => s.token is Some && run@ == (SyncView {
                    token: s.token->0@,
                    api_base: api_base@,
                    app_version: app_version@,
                    creds: None,
                    summoner: None,
                    waiting: Seq::empty(),
                    sent: 0,
                    send_failed: false,
                }),
                Err(msg) => s.token is None && msg@ == NOT_LOGGED_IN@,
            },
    {
        match &s.token {
            Some(token) => {
                let run = SyncRun {
                    token: token.clone(),
                    api_base,
                    app_version: app_version.to_string(),
                    creds: None,
                    summoner: None,
                    waiting: Vec::new(),
                    sent: 0,
                    send_failed: false,
                };
                assert(run@.waiting =~= Seq::<EntryView>::empty());
                Ok(run)
            },
            None => Err(NOT_LOGGED_IN.to_string()),
        }
    }

    fn next_action(&mut self) -> (action: SyncAction)
        ensures
            (final(self)@, action@) == old(self)@.next(),
    {
        let ghost before = self@;
        let ghost has_client = before.creds is Some;
        let ghost has_player = before.summoner is Some;
        let ghost test = |e: EntryView| can_act(has_client, has_player, e.item);
        let ghost mut passed: int = 0;
        assert(self@.waiting.skip(0) =~= self@.waiting);
        while self.waiting.len() > 0
            invariant
                before == old(self)@,
                has_client == (before.creds is Some),
                has_player == (before.summoner is Some),
                test == (|e: EntryView| can_act(has_client, has_player, e.item)),
                0 <= passed <= before.waiting.len(),
                forall|j: int| 0 <= j < passed ==> !test(#[trigger] before.waiting[j]),
                self@ == (SyncView { waiting: before.waiting.skip(passed), ..before }),
            decreases self.waiting.len(),
        {
            let ghost now = self@.waiting;
            assert(now.len() == self.waiting@.len());
            assert(now[0] == before.waiting[passed]);
            assert(now[0] == self.waiting@[0]@);
            let entry = self.waiting.remove(0);
            proof {
                assert(self@.waiting =~= now.skip(1));
                assert(now.skip(1) =~= before.waiting.skip(passed + 1));
            }
            let entry_id: u64 = entry.id;
            match entry.item {
                OutboxItem::PendingMatch { game_id } => {
                    if let (Some(creds), Some(_)) = (&self.creds, &self.summoner) {
                        let action = SyncAction::ReadDetail {
                            creds: creds.clone(),
                            entry_id,
                            game_id,
                        };
                        proof {
                            first::lemma_first_is(before.waiting, test, passed);
                        }
                        return action;
                    }
                },
                OutboxItem::MatchPayload { game_id, payload } => {
                    if let Some(player) = &self.summoner {
                        let mut matches: Vec<Json> = Vec::new();
                        proof {
                            json::lemma_empty_views();
                            json::lemma_list_push(matches@, payload);
                        }
                        matches.push(payload);
                        proof {
                            assert(json::list_view(matches@) =~= seq![payload@]);
                            first::lemma_first_is(before.waiting, test, passed);
                        }
                        let request = matches_request(
                            self.api_base.as_str(),
                            self.app_version.as_str(),
                            self.token.as_str(),
                            player.puuid.as_str(),
                            player.game_name.as_str(),
                            player.tag_line.as_str(),
                            matches,
                        );
                        return SyncAction::PostMatch { entry_id, game_id, request };
                    }
                },
                OutboxItem::Snapshot { game_id, champion_stats, peak } => {
                    proof {
                        first::lemma_first_is(before.waiting, test, passed);
                    }
                    let request = snapshot_request(
                        self.api_base.as_str(),
                        self.app_version.as_str(),
                        self.token.as_str(),
                        game_id,
                        champion_stats,
                        peak,
                    );
                    return SyncAction::PostSnapshot { entry_id, game_id, request };
                },
            }
            proof {
                passed = passed + 1;
            }
        }
        proof {
            assert(self@.waiting.len() == self.waiting@.len());
            assert(passed == before.waiting.len());
            first::lemma_first_none(before.waiting, test);
            assert(self@.waiting =~= Seq::<EntryView>::empty());
        }
        SyncAction::Finish
    }

    fn halt(&mut self) -> (action: SyncAction)
        ensures
            (final(self)@, action@) == old(self)@.halted(),
    {
        self.waiting = Vec::new();
        assert(self@.waiting =~= Seq::<EntryView>::empty());
        SyncAction::Finish
    }

    fn after_entry(&mut self, s: &AppState) -> (action: SyncAction)
        ensures
            (final(self)@, action@) == old(self)@.after_entry(*s),
    {
        if s.update_required.is_some() {
            self.halt()
        } else {
            self.next_action()
        }
    }

    /// Starts to drain the outbox.
    pub fn drain_outbox(&mut self, s: &AppState) -> (action: SyncAction)
        ensures
            (final(self)@, action@) == old(self)@.drain(*s),
    {
        if s.update_required.is_some() {
            self.halt()
        } else {
            self.waiting = s.outbox.entries();
            assert(self@ == (SyncView { waiting: s.outbox@.entries, ..old(self)@ }));
            self.next_action()
        }
    }

    /// Takes whether the client was found. With it, the player is asked for
    /// next; without it, the drain starts.
    pub fn discovered(&mut self, s: &mut AppState, creds: Option<LcuCreds>) -> (action: SyncAction)
        ensures
            discovery_taken(
                old(self)@,
                *old(s),
                match creds {
                    Some(creds) => Some(creds@),
                    None => None,
                },
                (SyncPoint { run: final(self)@, state: *final(s), action: action@ }),
            ),
    {
        s.lcu_connected = creds.is_some();
        let ask = match &creds {
            Some(creds) => Some(creds.clone()),
            None => None,
        };
        self.creds = creds;
        match ask {
            Some(creds) => SyncAction::ReadSummoner { creds },
            None => {
                assert(self@ == (SyncView { creds: None, ..old(self)@ }));
                self.drain_outbox(s)
            },
        }
    }

    /// Takes who is logged in to the client. Where that is known and the
    /// history of this session of the client was not searched yet, it is asked
    /// for next; else the drain starts.
    pub fn summoner_read(&mut self, s: &mut AppState, read: Result<Summoner, LcuError>) -> (action:
        SyncAction)
        requires
            old(self).creds is Some,
        ensures
            summoner_taken(
                old(self)@,
                *old(s),
                read,
                (SyncPoint { run: final(self)@, state: *final(s), action: action@ }),
            ),
    {
        match read {
            Ok(player) => {
                s.summoner = Some(
                    SummonerInfo {
                        game_name: player.game_name.clone(),
                        tag_line: player.tag_line.clone(),
                    },
                );
                let puuid = player.puuid.clone();
                self.summoner = Some(player);
                assert(self@ == (SyncView {
                    summoner: Some(summoner_view(player)),
                    ..old(self)@
                }));
                if let Some(creds) = &self.creds {
                    let key = session_key(creds);
                    let searched = match &s.backfilled_lcu {
                        Some(session) => same(session.as_str(), key.as_str()),
                        None => false,
                    };
                    if !searched {
                        return SyncAction::ReadRecent { creds: creds.clone(), puuid };
                    }
                }
                self.drain_outbox(s)
            },
            Err(_) => self.drain_outbox(s),
        }
    }

    /// Takes the window of the match history: the games of ARAM: Mayhem that
    /// were not known are queued, and this session of the client counts as
    /// searched. Without a window the search stays due. The drain follows.
    pub fn recent_read(
        &mut self,
        s: &mut AppState,
        games: Result<Vec<Json>, LcuError>,
        known: &HashSet<i64>,
    ) -> (action: SyncAction)
        requires
            old(self).creds is Some,
            games matches Ok(games) ==> old(s).outbox@.next_id + new_games(
                old(s).outbox@,
                lcu::new_mayhem_ids(json::list_view(games@), known@),
            ).len() <= u64::MAX,
        ensures
            recent_taken(
                old(self)@,
                *old(s),
                lcu::games_view(games),
                known@,
                (SyncPoint { run: final(self)@, state: *final(s), action: action@ }),
            ),
    {
        if let Ok(games) = games {
            let ids = get_recent_mayhem_ids(&games, known);
            enqueue_matches(&mut s.outbox, &ids);
            if let Some(creds) = &self.creds {
                s.backfilled_lcu = Some(session_key(creds));
            }
        }
        self.drain_outbox(s)
    }

    /// Takes the detail of a pending game: the entry becomes a payload. A game
    /// without participants is a permanent failure, a game without detail a
    /// transient one.
    pub fn detail_read(
        &mut self,
        s: &mut AppState,
        entry_id: u64,
        game_id: i64,
        detail: Result<GameDetail, LcuError>,
    ) -> (action: SyncAction)
        requires
            old(self).summoner is Some,
            detail matches Ok(game) ==> game.participants@.len() == 0 ==> old(
                s,
            ).outbox@.can_count(entry_id),
        ensures
            detail_answered(
                old(self)@,
                *old(s),
                entry_id,
                game_id,
                detail,
                (SyncPoint { run: final(self)@, state: *final(s), action: action@ }),
            ),
    {
        match detail {
            Ok(game) => {
                if let Some(player) = &self.summoner {
                    match find_my_participant(&game, player.puuid.as_str()) {
                        Some(part) => {
                            let payload = build_match_payload(&game, part);
                            s.outbox.replace_item(
                                entry_id,
                                OutboxItem::MatchPayload { game_id, payload },
                            );
                        },
                        None => {
                            s.outbox.record_permanent_failure(entry_id, NO_PARTICIPANT);
                        },
                    }
                }
            },
            Err(e) => {
                s.outbox.record_transient_failure(entry_id, e.message().as_str());
            },
        }
        self.after_entry(s)
    }

    /// Takes what posting a game came to: once the backend has taken it, the
    /// entry leaves the queue and the game counts as synced.
    pub fn match_posted(
        &mut self,
        s: &mut AppState,
        entry_id: u64,
        game_id: i64,
        posted: Result<u64, AdgError>,
    ) -> (action: SyncAction)
        requires
            posted matches Ok(n) ==> {
                &&& old(s).config.total_synced + n <= u64::MAX
                &&& old(self).sent + n <= u64::MAX
            },
            posted matches Err(e) ==> e is Permanent ==> old(s).outbox@.can_count(entry_id),
        ensures
            match_answered(
                old(self)@,
                *old(s),
                entry_id,
                game_id,
                posted,
                (SyncPoint { run: final(self)@, state: *final(s), action: action@ }),
            ),
    {
        match posted {
            Ok(n) => {
                s.outbox.remove(entry_id);
                s.config.synced_ids.insert(game_id);
                s.config.total_synced = s.config.total_synced + n;
                self.sent = self.sent + n;
            },
            Err(e) => {
                handle_send_error(s, entry_id, e);
                self.send_failed = true;
            },
        }
        self.after_entry(s)
    }

    /// Takes what posting a snapshot came to: once the backend has taken it,
    /// the entry leaves the queue.
    pub fn snapshot_posted(
        &mut self,
        s: &mut AppState,
        entry_id: u64,
        posted: Result<(), AdgError>,
    ) -> (action: SyncAction)
        requires
            posted matches Err(e) ==> e is Permanent ==> old(s).outbox@.can_count(entry_id),
        ensures
            snapshot_answered(
                old(self)@,
                *old(s),
                entry_id,
                posted,
                (SyncPoint { run: final(self)@, state: *final(s), action: action@ }),
            ),
    {
        match posted {
            Ok(()) => s.outbox.remove(entry_id),
            Err(e) => {
                handle_send_error(s, entry_id, e);
                self.send_failed = true;
            },
        }
        self.after_entry(s)
    }

    /// Ends a sync: after a successful one the time is noted, and with nothing
    /// left to send and no update wanted the last error is forgotten. A sync in
    /// which a send failed, or which an update kept from sending, was not
    /// successful.
    pub fn finish(&self, s: &mut AppState, now_ms: i64) -> (report: SyncReport)
        ensures
            *final(s) == (AppState {
                config: final(s).config,
                last_error: if old(s).outbox@.entries.len() == 0 && old(s).update_required is None {
                    None
                } else {
                    old(s).last_error
                },
                ..*old(s)
            }),
            final(s).config.synced_ids == old(s).config.synced_ids,
            final(s).config.last_sync_ms == if succeeded(self@, *old(s)) {
                Some(now_ms)
            } else {
                old(s).config.last_sync_ms
            },
            final(s).config.total_synced == old(s).config.total_synced,
            report.sent == self.sent,
            report.total == old(s).outbox@.entries.len(),
    {
        if !self.send_failed && s.update_required.is_none() {
            s.config.last_sync_ms = Some(now_ms);
        }
        if s.outbox.len() == 0 && s.update_required.is_none() {
            s.last_error = None;
        }
        SyncReport { sent: self.sent, total: s.outbox.len() as u64 }
    }
}

impl SyncReport {
    /// The report as the interface gets it.
    pub fn to_json(&self) -> (doc: Json)
        ensures
            doc@ == JsonView::Object(
                map![
                    "sent"@ => JsonView::Int(self.sent as int),
                    "total"@ => JsonView::Int(self.total as int),
                ],
            ),
    {
        let mut m: Vec<(String, Json)> = Vec::new();
        proof {
            json::lemma_empty_views();
        }
        put(&mut m, "sent", Json::Big(self.sent));
        put(&mut m, "total", Json::Big(self.total));
        Json::Object(m)
    }
}

} // verus!
