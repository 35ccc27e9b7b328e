//! The state that the commands of the interface and the background tasks share.
use crate::adg::AdgError;
use crate::outbox::Outbox;
use crate::store::Config;
use crate::text::{self, clone_opt, has_part, has_prefix, join3};
use vstd::prelude::*;

verus! {

/// Where the backend answers unless the build says otherwise.
pub const DEFAULT_API_BASE: &'static str = "http://localhost:3100";

/// How long the background task waits between two syncs, in seconds.
pub const SYNC_INTERVAL_SECS: u64 = 20;

/// What a sync without a session reports.
pub const NOT_LOGGED_IN: &'static str = "não logado";

/// The state of the companion.
#[derive(Debug)]
pub struct AppState {
    /// The settings, and which games the backend has taken.
    pub config: Config,
    /// What still has to reach the backend.
    pub outbox: Outbox,
    /// The token of the session.
    pub token: Option<String>,
    /// The player, as last read.
    pub summoner: Option<SummonerInfo>,
    /// Whether the last sync found the client.
    pub lcu_connected: bool,
    /// The update that the backend wants before it takes anything.
    pub update_required: Option<UpdateInfo>,
    /// The session of the client whose history was searched.
    pub backfilled_lcu: Option<String>,
    /// The last error, cleared on success: by a sync that leaves nothing to send.
    pub last_error: Option<String>,
}

/// The names of the player.
#[derive(Debug)]
pub struct SummonerInfo {
    pub game_name: String,
    pub tag_line: String,
}

impl Clone for SummonerInfo {
    fn clone(&self) -> (copy: Self)
        ensures
            copy == *self,
    {
        SummonerInfo { game_name: self.game_name.clone(), tag_line: self.tag_line.clone() }
    }
}

/// The update that the backend wants.
#[derive(Debug)]
pub struct UpdateInfo {
    pub min_version: String,
    pub download_url: Option<String>,
}

impl Clone for UpdateInfo {
    fn clone(&self) -> (copy: Self)
        ensures
            copy == *self,
    {
        UpdateInfo {
            min_version: self.min_version.clone(),
            download_url: clone_opt(&self.download_url),
        }
    }
}

/// What the interface sees of the state.
#[derive(Debug)]
pub struct FrontendState {
    pub lcu_connected: bool,
    pub summoner: Option<SummonerInfo>,
    pub logged_in: bool,
    pub api_base: String,
    pub synced_count: u64,
    pub last_sync: Option<i64>,
    pub last_error: Option<String>,
    pub update_required: Option<UpdateInfo>,
    pub version: String,
    pub pending_count: usize,
}

impl AppState {
    /// The state at the start: what was kept, and nothing learned yet. A token
    /// that cannot be read is none.
    pub fn start(config: Config, outbox: Outbox, token: Result<Option<String>, String>) -> (s:
        AppState)
        ensures
            s.config == config,
            s.outbox == outbox,
            s.token == match token {
                Ok(token) => token,
                Err(_) => None,
            },
            s.summoner is None,
            !s.lcu_connected,
            s.update_required is None,
            s.backfilled_lcu is None,
            s.last_error is None,
    {
        AppState {
            config,
            outbox,
            token: match token {
                Ok(token) => token,
                Err(_) => None,
            },
            summoner: None,
            lcu_connected: false,
            update_required: None,
            backfilled_lcu: None,
            last_error: None,
        }
    }
}

/// Where the backend answers: where the build says, else on this machine.
pub fn api_base(configured: Option<&str>) -> (base: String)
    ensures
        base@ == match configured {
            Some(url) => url@,
            None => DEFAULT_API_BASE@,
        },
{
    match configured {
        Some(url) => url.to_string(),
        None => DEFAULT_API_BASE.to_string(),
    }
}

/// What the interface sees of the state.
pub fn get_state(s: &AppState, api_base: String, version: &str) -> (front: FrontendState)
    ensures
        front.lcu_connected == s.lcu_connected,
        front.summoner == s.summoner,
        front.logged_in == (s.token is Some),
        front.api_base == api_base,
        front.synced_count == s.config.total_synced,
        front.last_sync == s.config.last_sync_ms,
        front.last_error == s.last_error,
        front.update_required == s.update_required,
        front.version@ == version@,
        front.pending_count == s.outbox@.entries.len(),
{
    FrontendState {
        lcu_connected: s.lcu_connected,
        summoner: match &s.summoner {
            Some(summoner) => Some(summoner.clone()),
            None => None,
        },
        logged_in: s.token.is_some(),
        api_base,
        synced_count: s.config.total_synced,
        last_sync: s.config.last_sync_ms,
        last_error: clone_opt(&s.last_error),
        update_required: match &s.update_required {
            Some(update) => Some(update.clone()),
            None => None,
        },
        version: version.to_string(),
        pending_count: s.outbox.len(),
    }
}

/// Opens the session that a login handed over.
pub fn open_session(s: &mut AppState, token: String)
    ensures
        *final(s) == (AppState { token: Some(token), ..*old(s) }),
{
    s.token = Some(token);
}

/// Closes the session; the queue and the settings stay.
pub fn logout(s: &mut AppState)
    ensures
        *final(s) == (AppState { token: None, summoner: None, lcu_connected: false, ..*old(s) }),
{
    s.token = None;
    s.summoner = None;
    s.lcu_connected = false;
}

/// Whether a URL may be opened in the browser: only what goes over HTTP.
pub open spec fn is_web_url(url: Seq<char>) -> bool {
    text::stands_at(url, "http://"@, 0) || text::stands_at(url, "https://"@, 0)
}

/// Refuses a URL that may not be opened in the browser.
pub fn open_external(url: &str) -> (allowed: Result<(), String>)
    ensures
        allowed is Ok <==> is_web_url(url@),
        allowed is Err ==> allowed->Err_0@ == "URL inválida"@,
{
    if !has_prefix(url, "http://") && !has_prefix(url, "https://") {
        return Err("URL inválida".to_string());
    }
    Ok(())
}

/// What a failed send leaves as the last error.
pub open spec fn send_error_text(e: AdgError) -> Seq<char> {
    match e {
        AdgError::UpdateRequired { min_version, .. } => "Atualização obrigatória (mínima "@
            + min_version@ + ")"@,
        AdgError::Permanent(msg) => msg@,
        AdgError::Transient(msg) => msg@,
    }
}

/// What a failed send of an entry does to the state: a required update leaves
/// the queue alone and blocks what follows, a permanent failure is counted, a
/// transient one only noted.
pub open spec fn send_error_taken(
    before: AppState,
    after: AppState,
    entry_id: u64,
    e: AdgError,
) -> bool {
    &&& after == AppState {
        outbox: after.outbox,
        update_required: after.update_required,
        last_error: after.last_error,
        ..before
    }
    &&& text::opt_text(after.last_error) == Some(send_error_text(e))
    &&& match e {
        AdgError::UpdateRequired { min_version, download_url } => {
            &&& after.outbox == before.outbox
            &&& after.update_required == Some(UpdateInfo { min_version, download_url })
        },
        AdgError::Permanent(msg) => {
            &&& after.outbox@ == before.outbox@.failed_permanently(entry_id, msg@)
            &&& after.outbox.save_due()
            &&& after.update_required == before.update_required
        },
        AdgError::Transient(msg) => {
            &&& after.outbox@ == before.outbox@.failed_transiently(entry_id, msg@)
            &&& after.outbox.save_due()
            &&& after.update_required == before.update_required
        },
    }
}

/// Takes a failed send of an entry.
pub fn handle_send_error(s: &mut AppState, entry_id: u64, e: AdgError)
    requires
        e is Permanent ==> old(s).outbox@.can_count(entry_id),
    ensures
        send_error_taken(*old(s), *final(s), entry_id, e),
{
    match e {
        AdgError::UpdateRequired { min_version, download_url } => {
            s.last_error = Some(
                join3("Atualização obrigatória (mínima ", min_version.as_str(), ")"),
            );
            s.update_required = Some(UpdateInfo { min_version, download_url });
        },
        AdgError::Permanent(msg) => {
            s.outbox.record_permanent_failure(entry_id, msg.as_str());
            s.last_error = Some(msg);
        },
        AdgError::Transient(msg) => {
            s.outbox.record_transient_failure(entry_id, msg.as_str());
            s.last_error = Some(msg);
        },
    }
}

/// Whether the background task syncs now: only with a session.
pub fn sync_due(s: &AppState) -> (due: bool)
    ensures
        due == (s.token is Some),
{
    s.token.is_some()
}

/// Whether a failed sync is worth reporting: all but a missing session.
pub fn is_reportable(msg: &str) -> (r: bool)
    ensures
        r == !text::contains_part(msg@, NOT_LOGGED_IN@),
{
    !has_part(msg, NOT_LOGGED_IN)
}

/// Takes a failed sync of the background task; says whether it was noted.
pub fn note_sync_error(s: &mut AppState, msg: String) -> (noted: bool)
    ensures
        noted == !text::contains_part(msg@, NOT_LOGGED_IN@),
        *final(s) == if noted {
            AppState { last_error: Some(msg), ..*old(s) }
        } else {
            *old(s)
        },
{
    if is_reportable(msg.as_str()) {
        s.last_error = Some(msg);
        true
    } else {
        false
    }
}

} // verus!
