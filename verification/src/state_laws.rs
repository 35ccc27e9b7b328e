//! What the commands and the background task do to the state.
use crate::adg::AdgError;
use crate::background::{self, CycleStep};
use crate::outbox::{EntryView, Outbox};
use crate::queue_laws;
use crate::state::{self, AppState, FrontendState};
use crate::store::{self, Config, Keychain};
use crate::sync::SyncReport;
use crate::text;
use crate::text_laws;
use vstd::prelude::*;

verus! {

/// The settings are those that were read; without any, nothing was synced yet.
pub proof fn law_settings(read: Option<Config>, config: Config, fresh: Config)
    requires
        call_ensures(store::load_config, (read,), config),
        call_ensures(Config::default, (), fresh),
    ensures
        fresh.synced_ids@ == Set::<i64>::empty() && fresh.last_sync_ms is None
            && fresh.total_synced == 0,
        read matches Some(kept) ==> config == kept,
        read is None ==> config.synced_ids@ == Set::<i64>::empty() && config.last_sync_ms is None
            && config.total_synced == 0,
{
}

/// A token is saved or the reason is told; one that is not held is none, and
/// one that was not there is deleted.
pub proof fn law_keychain_answers(
    save: Keychain<()>,
    saved: Result<(), String>,
    load: Keychain<String>,
    loaded: Result<Option<String>, String>,
    delete: Keychain<()>,
    deleted: Result<(), String>,
)
    requires
        call_ensures(store::save_token, (save,), saved),
        call_ensures(store::load_token, (load,), loaded),
        call_ensures(store::delete_token, (delete,), deleted),
    ensures
        match save {
            Keychain::Done(_) => saved is Ok,
            Keychain::Unavailable => saved is Err && saved->Err_0@ == "criar entrada no keychain"@,
            _ => saved is Err && saved->Err_0@ == "salvar token no keychain"@,
        },
        match load {
            Keychain::Done(token) => loaded == Ok::<Option<String>, String>(Some(token)),
            Keychain::NoEntry => loaded == Ok::<Option<String>, String>(None),
            Keychain::Failed(why) => loaded is Err && loaded->Err_0@
                == "erro ao ler token do keychain: "@ + why@,
            Keychain::Unavailable => loaded is Err && loaded->Err_0@
                == "criar entrada no keychain"@,
        },
        match delete {
            Keychain::Done(_) => deleted is Ok,
            Keychain::NoEntry => deleted is Ok,
            Keychain::Failed(why) => deleted is Err && deleted->Err_0@
                == "erro ao remover token do keychain: "@ + why@,
            Keychain::Unavailable => deleted is Err && deleted->Err_0@
                == "criar entrada no keychain"@,
        },
{
}

/// At the start there is what was kept and nothing else; a token that cannot be
/// read is none.
pub proof fn law_start_has_what_was_kept(
    config: Config,
    outbox: Outbox,
    token: Result<Option<String>, String>,
    s: AppState,
)
    requires
        call_ensures(AppState::start, (config, outbox, token), s),
    ensures
        s.config == config && s.outbox == outbox,
        token matches Ok(held) ==> s.token == held,
        token is Err ==> s.token is None,
        s.summoner is None && !s.lcu_connected && s.update_required is None,
        s.backfilled_lcu is None && s.last_error is None,
{
}

/// The backend is where the build says, or on this machine.
pub proof fn law_backend_is_where_the_build_says(configured: Option<&str>, base: String)
    requires
        call_ensures(state::api_base, (configured,), base),
    ensures
        configured matches Some(url) ==> base@ == url@,
        configured is None ==> base@ == "http://localhost:3100"@,
{
}

/// The interface sees the state as it is.
pub proof fn law_interface_sees_the_state(
    s: AppState,
    base: String,
    version: &str,
    front: FrontendState,
)
    requires
        call_ensures(state::get_state, (&s, base, version), front),
    ensures
        front.lcu_connected == s.lcu_connected,
        front.summoner == s.summoner,
        front.logged_in <==> s.token is Some,
        front.api_base@ == base@,
        front.synced_count == s.config.total_synced,
        front.last_sync == s.config.last_sync_ms,
        front.last_error == s.last_error,
        front.update_required == s.update_required,
        front.version@ == version@,
        front.pending_count == s.outbox@.entries.len(),
{
}

/// Whether two states are the same but for the session and what was learned of
/// the client.
pub open spec fn keeps_the_rest(before: AppState, after: AppState) -> bool {
    &&& after.config == before.config
    &&& after.outbox == before.outbox
    &&& after.update_required == before.update_required
    &&& after.backfilled_lcu == before.backfilled_lcu
    &&& after.last_error == before.last_error
}

/// Opening a session sets the token and nothing else.
pub proof fn law_session_opens(s: &mut AppState, token: String)
    requires
        call_ensures(state::open_session, (s, token), ()),
    ensures
        final(s).token == Some(token),
        final(s).summoner == old(s).summoner && final(s).lcu_connected == old(s).lcu_connected,
        keeps_the_rest(*old(s), *final(s)),
{
}

/// Closing a session forgets the token and the player; the queue and the
/// settings stay.
pub proof fn law_session_closes(s: &mut AppState)
    requires
        call_ensures(state::logout, (s,), ()),
    ensures
        final(s).token is None && final(s).summoner is None && !final(s).lcu_connected,
        keeps_the_rest(*old(s), *final(s)),
{
}

/// A URL may be opened if and only if it begins with `http://` or `https://`.
pub proof fn law_only_web_urls_are_opened(url: &str, allowed: Result<(), String>)
    requires
        call_ensures(state::open_external, (url,), allowed),
    ensures
        allowed is Ok <==> (exists|rest: Seq<char>| url@ == #[trigger] ("http://"@ + rest)) || (
        exists|rest: Seq<char>| url@ == #[trigger] ("https://"@ + rest)),
        allowed is Err ==> allowed->Err_0@ == "URL inválida"@,
{
    text_laws::lemma_stands_first(url@, "http://"@);
    text_laws::lemma_stands_first(url@, "https://"@);
}

/// What a failed send leaves alone, whatever the error.
pub open spec fn keeps_all_but_the_queue(before: AppState, after: AppState) -> bool {
    &&& after.config == before.config
    &&& after.token == before.token
    &&& after.summoner == before.summoner
    &&& after.lcu_connected == before.lcu_connected
    &&& after.backfilled_lcu == before.backfilled_lcu
}

/// What a failed send of the entry at `i` does: a wanted update is noted and
/// leaves the queue alone; a permanent failure is counted and drops the entry at
/// the fifth; a transient one is noted on it.
pub open spec fn send_failed(before: AppState, after: AppState, i: int, e: AdgError) -> bool {
    let entry = before.outbox@.entries[i];
    &&& keeps_all_but_the_queue(before, after)
    &&& match e {
        AdgError::UpdateRequired { min_version, download_url } => {
            &&& after.outbox == before.outbox
            &&& after.update_required matches Some(wanted) && wanted.min_version@ == min_version@
                && wanted.download_url == download_url
            &&& after.last_error matches Some(msg) && msg@ == "Atualização obrigatória (mínima "@
                + min_version@ + ")"@
        },
        AdgError::Permanent(why) => {
            &&& after.update_required == before.update_required
            &&& after.last_error matches Some(msg) && msg@ == why@
            &&& entry.permanent_failures < 4 ==> queue_laws::changed(
                before.outbox@,
                after.outbox@,
                i,
                EntryView {
                    permanent_failures: (entry.permanent_failures + 1) as u32,
                    last_error: Some(why@),
                    ..entry
                },
            )
            &&& entry.permanent_failures >= 4 ==> queue_laws::without(
                before.outbox@,
                after.outbox@,
                entry.id,
            )
        },
        AdgError::Transient(why) => {
            &&& after.update_required == before.update_required
            &&& after.last_error matches Some(msg) && msg@ == why@
            &&& queue_laws::changed(
                before.outbox@,
                after.outbox@,
                i,
                EntryView { last_error: Some(why@), ..entry },
            )
        },
    }
}

/// What a failed send does whose entry has left the queue meanwhile: it is
/// noted, and the queue stays as it is.
pub open spec fn send_failed_late(before: AppState, after: AppState, e: AdgError) -> bool {
    &&& keeps_all_but_the_queue(before, after)
    &&& after.outbox@ == before.outbox@
    &&& match e {
        AdgError::UpdateRequired { min_version, download_url } => {
            &&& after.update_required matches Some(wanted) && wanted.min_version@ == min_version@
                && wanted.download_url == download_url
            &&& after.last_error matches Some(msg) && msg@ == "Atualização obrigatória (mínima "@
                + min_version@ + ")"@
        },
        AdgError::Permanent(why) => {
            &&& after.update_required == before.update_required
            &&& after.last_error matches Some(msg) && msg@ == why@
        },
        AdgError::Transient(why) => {
            &&& after.update_required == before.update_required
            &&& after.last_error matches Some(msg) && msg@ == why@
        },
    }
}

/// A failed send does to the entry and to the state what its error says.
pub proof fn law_failed_send_is_taken(s: &mut AppState, id: u64, e: AdgError, i: int)
    requires
        call_ensures(state::handle_send_error, (s, id, e), ()),
    ensures
        queue_laws::first_numbered(old(s).outbox@, id, i) ==> send_failed(
            *old(s),
            *final(s),
            i,
            e,
        ),
        queue_laws::unnumbered(old(s).outbox@, id) ==> send_failed_late(*old(s), *final(s), e),
{
    lemma_send_failed(*old(s), *final(s), id, e, i);
}

/// A failed send, stated over the entry.
pub proof fn lemma_send_failed(before: AppState, after: AppState, id: u64, e: AdgError, i: int)
    requires
        state::send_error_taken(before, after, id, e),
    ensures
        queue_laws::first_numbered(before.outbox@, id, i) ==> send_failed(before, after, i, e),
        queue_laws::unnumbered(before.outbox@, id) ==> send_failed_late(before, after, e),
{
    queue_laws::lemma_place_is_first(before.outbox@, id);
}

/// A sync is due with a session only; a missing session is not worth a report,
/// and every other error is, and is noted.
pub proof fn law_missing_session_is_not_reported(
    s: AppState,
    due: bool,
    msg: &str,
    reportable: bool,
    t: &mut AppState,
    text: String,
    noted: bool,
)
    requires
        call_ensures(state::sync_due, (&s,), due),
        call_ensures(state::is_reportable, (msg,), reportable),
        call_ensures(state::note_sync_error, (t, text), noted),
    ensures
        due <==> s.token is Some,
        reportable <==> !names_missing_session(msg@),
        noted <==> !names_missing_session(text@),
        noted ==> final(t).last_error == Some(text),
        !noted ==> final(t).last_error == old(t).last_error,
        keeps_all_but_the_queue(*old(t), *final(t)),
        final(t).outbox == old(t).outbox && final(t).update_required == old(t).update_required,
{
    lemma_missing_session(msg@);
    lemma_missing_session(text@);
}

/// Whether a text says somewhere that there is no session.
pub open spec fn names_missing_session(text: Seq<char>) -> bool {
    exists|before: Seq<char>, after: Seq<char>|
        text == #[trigger] (before + "não logado"@ + after)
}

proof fn lemma_missing_session(s: Seq<char>)
    ensures
        text::contains_part(s, state::NOT_LOGGED_IN@) <==> names_missing_session(s),
{
    let part = "não logado"@;
    if text::contains_part(s, part) {
        let at = choose|at: int| text::stands_at(s, part, at);
        let before = s.subrange(0, at);
        let after = s.subrange(at + part.len(), s.len() as int);
        assert(s =~= before + part + after);
    }
    if names_missing_session(s) {
        let (before, after) = choose|before: Seq<char>, after: Seq<char>|
            s == #[trigger] (before + "não logado"@ + after);
        let at = before.len() as int;
        assert(s.subrange(at, at + part.len()) =~= part);
        assert(text::stands_at(s, part, at));
    }
}

/// The background task waits twenty seconds, syncs where there is a session
/// then, and waits again whatever came of it; an error is noted unless it is a
/// missing session.
pub proof fn law_background_waits_and_syncs(
    start: CycleStep,
    s: AppState,
    then: CycleStep,
    t: &mut AppState,
    outcome: Result<SyncReport, String>,
    next: CycleStep,
)
    requires
        call_ensures(background::cycle_start, (), start),
        call_ensures(background::waited, (&s,), then),
        call_ensures(background::synced, (t, outcome), next),
    ensures
        start == (CycleStep::Wait { secs: 20 }),
        s.token is Some ==> then is Sync,
        s.token is None ==> then == (CycleStep::Wait { secs: 20 }),
        next == (CycleStep::Wait { secs: 20 }),
        outcome matches Err(msg) ==> !names_missing_session(msg@) ==> final(t).last_error == Some(
            msg,
        ),
        outcome matches Err(msg) ==> names_missing_session(msg@) ==> *final(t) == *old(t),
        outcome is Ok ==> *final(t) == *old(t),
        keeps_all_but_the_queue(*old(t), *final(t)),
        final(t).outbox == old(t).outbox && final(t).update_required == old(t).update_required,
{
    if let Err(msg) = outcome {
        lemma_missing_session(msg@);
    }
}

} // verus!
