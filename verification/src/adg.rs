//! The ADG backend: what it is asked, and what its replies mean.
//!
//! Every request carries the version of the companion. An error says what a
//! retry can do: an update is required first, a retry is of no use, or a retry
//! may help.
use crate::http::{self, read_body, Exchange, Reply, Status};
use crate::json::{self, put, Json, JsonView};
use crate::text::{self, join, join3};
use vstd::prelude::*;

verus! {

/// The name of the header that carries the version of the companion.
pub const VERSION_HEADER: &'static str = "x-companion-version";

/// A failed exchange with the backend, by what a retry can do.
#[derive(Debug)]
pub enum AdgError {
    /// The backend wants a newer companion first.
    UpdateRequired { min_version: String, download_url: Option<String> },
    /// The payload or the credentials are wrong: the same request fails again.
    Permanent(String),
    /// The backend or the network failed: a retry may help.
    Transient(String),
}

/// What an [`AdgError`] says.
pub enum ErrorView {
    UpdateRequired { min_version: Seq<char>, download_url: Option<Seq<char>> },
    Permanent(Seq<char>),
    Transient(Seq<char>),
}

impl View for AdgError {
    type V = ErrorView;

    open spec fn view(&self) -> ErrorView {
        match self {
            AdgError::UpdateRequired { min_version, download_url } => ErrorView::UpdateRequired {
                min_version: min_version@,
                download_url: text::opt_text(*download_url),
            },
            AdgError::Permanent(msg) => ErrorView::Permanent(msg@),
            AdgError::Transient(msg) => ErrorView::Transient(msg@),
        }
    }
}

impl ErrorView {
    /// The error in words.
    pub open spec fn message(self) -> Seq<char> {
        match self {
            ErrorView::UpdateRequired { min_version, .. } =>
                "Atualização obrigatória do companion (mínima "@ + min_version + ")"@,
            ErrorView::Permanent(msg) => msg,
            ErrorView::Transient(msg) => msg,
        }
    }
}

impl AdgError {
    /// The error in words.
    pub fn message(&self) -> (msg: String)
        ensures
            msg@ == self@.message(),
    {
        match self {
            AdgError::UpdateRequired { min_version, .. } => join3(
                "Atualização obrigatória do companion (mínima ",
                min_version.as_str(),
                ")",
            ),
            AdgError::Permanent(msg) => msg.clone(),
            AdgError::Transient(msg) => msg.clone(),
        }
    }
}

/// The error of a step that failed for a reason of the transport.
pub open spec fn transient_view(context: Seq<char>, cause: Seq<char>) -> ErrorView {
    ErrorView::Transient(context + ": "@ + cause)
}

/// The error of a step that failed for a reason of the transport.
pub fn transient(context: &str, cause: &str) -> (e: AdgError)
    ensures
        e@ == transient_view(context@, cause@),
{
    AdgError::Transient(join3(context, ": ", cause))
}

/// What a reply that reports no success means, its body read as `doc`.
pub open spec fn refusal(code: u16, doc: JsonView) -> ErrorView {
    if code == 426 {
        ErrorView::UpdateRequired {
            min_version: match doc.get_text("minVersion"@) {
                Some(version) => version,
                None => "?"@,
            },
            download_url: doc.get_text("downloadUrl"@),
        }
    } else {
        let msg = http::status_text(code) + ": "@ + match doc.get_text("error"@) {
            Some(msg) => msg,
            None => "erro desconhecido"@,
        };
        if http::client_error(code) {
            ErrorView::Permanent(msg)
        } else {
            ErrorView::Transient(msg)
        }
    }
}

/// A body that explains a refusal; one that is no JSON explains nothing.
pub open spec fn explanation(body: Result<Vec<u8>, String>) -> JsonView {
    match http::body_json(body) {
        Ok(doc) => doc,
        Err(_) => JsonView::Null,
    }
}

/// What a reply that reports no success means, its body read as `doc`.
pub fn refuse(status: Status, doc: &Json) -> (e: AdgError)
    ensures
        e@ == refusal(status@, doc@),
{
    if status.code() == 426 {
        let min_version = match doc.get_text("minVersion") {
            Some(version) => version.clone(),
            None => "?".to_string(),
        };
        let download_url = match doc.get_text("downloadUrl") {
            Some(url) => Some(url.clone()),
            None => None,
        };
        return AdgError::UpdateRequired { min_version, download_url };
    }
    let reason = match doc.get_text("error") {
        Some(msg) => msg.clone(),
        None => "erro desconhecido".to_string(),
    };
    let msg = join3(status.text().as_str(), ": ", reason.as_str());
    if status.is_client_error() {
        AdgError::Permanent(msg)
    } else {
        AdgError::Transient(msg)
    }
}

/// What a reply that reports no success means.
pub fn error_from(reply: &Reply) -> (e: AdgError)
    ensures
        e@ == refusal(reply.status@, explanation(reply.body)),
{
    let doc = match read_body(&reply.body) {
        Ok(doc) => doc,
        Err(_) => Json::Null,
    };
    refuse(reply.status, &doc)
}

/// The document of a successful exchange; `asking` and `reading` say in the
/// error which of the two failed.
pub open spec fn accepted(exchange: Exchange, asking: Seq<char>, reading: Seq<char>) -> Result<
    JsonView,
    ErrorView,
> {
    match exchange {
        Ok(reply) => if http::success(reply.status@) {
            match http::body_json(reply.body) {
                Ok(doc) => Ok(doc),
                Err(why) => Err(transient_view(reading, why)),
            }
        } else {
            Err(refusal(reply.status@, explanation(reply.body)))
        },
        Err(why) => Err(transient_view(asking, why@)),
    }
}

fn accept(exchange: &Exchange, asking: &str, reading: &str) -> (doc: Result<Json, AdgError>)
    ensures
        match doc {
            Ok(doc) => accepted(*exchange, asking@, reading@) == Ok::<JsonView, ErrorView>(doc@),
            Err(e) => accepted(*exchange, asking@, reading@) == Err::<JsonView, ErrorView>(e@),
        },
{
    match exchange {
        Ok(reply) => if reply.status.is_success() {
            match read_body(&reply.body) {
                Ok(doc) => Ok(doc),
                Err(why) => Err(transient(reading, why.as_str())),
            }
        } else {
            Err(error_from(reply))
        },
        Err(why) => Err(transient(asking, why.as_str())),
    }
}

/// A POST to the backend.
#[derive(Debug)]
pub struct ApiRequest {
    pub url: String,
    /// The token of the session, where the request needs one.
    pub bearer: Option<String>,
    /// The header with the version of the companion: its name and its value.
    pub version: (String, String),
    pub body: Json,
}

/// What an [`ApiRequest`] says.
pub struct RequestView {
    pub url: Seq<char>,
    pub bearer: Option<Seq<char>>,
    pub version: (Seq<char>, Seq<char>),
    pub body: JsonView,
}

impl View for ApiRequest {
    type V = RequestView;

    open spec fn view(&self) -> RequestView {
        RequestView {
            url: self.url@,
            bearer: text::opt_text(self.bearer),
            version: (self.version.0@, self.version.1@),
            body: self.body@,
        }
    }
}

fn version_header(app_version: &str) -> (header: (String, String))
    ensures
        header.0@ == VERSION_HEADER@,
        header.1@ == app_version@,
{
    (VERSION_HEADER.to_string(), app_version.to_string())
}

/// The request that asks for a session token.
pub open spec fn login_view(
    api_base: Seq<char>,
    app_version: Seq<char>,
    email: Seq<char>,
    password: Seq<char>,
) -> RequestView {
    RequestView {
        url: api_base + "/api/auth/login"@,
        bearer: None,
        version: (VERSION_HEADER@, app_version),
        body: JsonView::Object(
            map!["email"@ => JsonView::Text(email), "password"@ => JsonView::Text(password)],
        ),
    }
}

/// Asks for a session token.
pub fn login_request(api_base: &str, app_version: &str, email: &str, password: &str) -> (r:
    ApiRequest)
    ensures
        r@ == login_view(api_base@, app_version@, email@, password@),
{
    let mut m: Vec<(String, Json)> = Vec::new();
    proof {
        json::lemma_empty_views();
    }
    put(&mut m, "email", Json::Text(email.to_string()));
    put(&mut m, "password", Json::Text(password.to_string()));
    ApiRequest {
        url: join(api_base, "/api/auth/login"),
        bearer: None,
        version: version_header(app_version),
        body: Json::Object(m),
    }
}

/// The session token that a document hands over.
pub open spec fn token_in(doc: JsonView) -> Result<Seq<char>, ErrorView> {
    match doc.get_text("token"@) {
        Some(token) => Ok(token),
        None => Err(ErrorView::Permanent("campo 'token' ausente na resposta de login"@)),
    }
}

/// Reads the session token from the document that a login was answered with.
pub fn read_token(doc: &Json) -> (token: Result<String, AdgError>)
    ensures
        match token {
            Ok(token) => token_in(doc@) == Ok::<Seq<char>, ErrorView>(token@),
            Err(e) => token_in(doc@) == Err::<Seq<char>, ErrorView>(e@),
        },
{
    match doc.get_text("token") {
        Some(token) => Ok(token.clone()),
        None => Err(
            AdgError::Permanent("campo 'token' ausente na resposta de login".to_string()),
        ),
    }
}

/// What a login came to.
pub open spec fn login_outcome(exchange: Exchange) -> Result<Seq<char>, ErrorView> {
    match accepted(exchange, "POST /api/auth/login"@, "parsear resposta de login"@) {
        Ok(doc) => token_in(doc),
        Err(e) => Err(e),
    }
}

/// The session token that a login exchange came to.
pub fn login(exchange: &Exchange) -> (token: Result<String, AdgError>)
    ensures
        match token {
            Ok(token) => login_outcome(*exchange) == Ok::<Seq<char>, ErrorView>(token@),
            Err(e) => login_outcome(*exchange) == Err::<Seq<char>, ErrorView>(e@),
        },
{
    match accept(exchange, "POST /api/auth/login", "parsear resposta de login") {
        Ok(doc) => read_token(&doc),
        Err(e) => Err(e),
    }
}

/// The request that posts games of a player.
pub open spec fn matches_view(
    api_base: Seq<char>,
    app_version: Seq<char>,
    jwt_token: Seq<char>,
    puuid: Seq<char>,
    game_name: Seq<char>,
    tag_line: Seq<char>,
    matches: Seq<JsonView>,
) -> RequestView {
    RequestView {
        url: api_base + "/api/aram-mayhem/matches"@,
        bearer: Some(jwt_token),
        version: (VERSION_HEADER@, app_version),
        body: JsonView::Object(
            map![
                "puuid"@ => JsonView::Text(puuid),
                "gameName"@ => JsonView::Text(game_name),
                "tagLine"@ => JsonView::Text(tag_line),
                "matches"@ => JsonView::List(matches),
            ],
        ),
    }
}

/// Posts games of a player.
pub fn matches_request(
    api_base: &str,
    app_version: &str,
    jwt_token: &str,
    puuid: &str,
    game_name: &str,
    tag_line: &str,
    matches: Vec<Json>,
) -> (r: ApiRequest)
    ensures
        r@ == matches_view(
            api_base@,
            app_version@,
            jwt_token@,
            puuid@,
            game_name@,
            tag_line@,
            json::list_view(matches@),
        ),
{
    let mut m: Vec<(String, Json)> = Vec::new();
    proof {
        json::lemma_empty_views();
    }
    put(&mut m, "puuid", Json::Text(puuid.to_string()));
    put(&mut m, "gameName", Json::Text(game_name.to_string()));
    put(&mut m, "tagLine", Json::Text(tag_line.to_string()));
    put(&mut m, "matches", Json::List(matches));
    ApiRequest {
        url: join(api_base, "/api/aram-mayhem/matches"),
        bearer: Some(jwt_token.to_string()),
        version: version_header(app_version),
        body: Json::Object(m),
    }
}

/// How many rows the backend reports as inserted; 0 where it reports none.
pub open spec fn inserted_in(doc: JsonView) -> u64 {
    match doc.get("inserted"@) {
        Some(member) => match member.as_u64() {
            Some(n) => n,
            None => 0,
        },
        None => 0,
    }
}

/// Reads how many rows the backend inserted.
pub fn read_inserted(doc: &Json) -> (n: u64)
    ensures
        n == inserted_in(doc@),
{
    match doc.get("inserted") {
        Some(member) => match member.as_u64() {
            Some(n) => n,
            None => 0,
        },
        None => 0,
    }
}

/// What posting games came to.
pub open spec fn matches_outcome(exchange: Exchange) -> Result<u64, ErrorView> {
    match accepted(exchange, "POST /api/aram-mayhem/matches"@, "parsear resposta do ingest"@) {
        Ok(doc) => Ok(inserted_in(doc)),
        Err(e) => Err(e),
    }
}

/// How many rows posting games inserted.
pub fn post_matches(exchange: &Exchange) -> (n: Result<u64, AdgError>)
    ensures
        match n {
            Ok(n) => matches_outcome(*exchange) == Ok::<u64, ErrorView>(n),
            Err(e) => matches_outcome(*exchange) == Err::<u64, ErrorView>(e@),
        },
{
    match accept(exchange, "POST /api/aram-mayhem/matches", "parsear resposta do ingest") {
        Ok(doc) => Ok(read_inserted(&doc)),
        Err(e) => Err(e),
    }
}

/// The request that posts the snapshot of a game.
pub open spec fn snapshot_view(
    api_base: Seq<char>,
    app_version: Seq<char>,
    jwt_token: Seq<char>,
    game_id: i64,
    champion_stats: JsonView,
    peak: JsonView,
) -> RequestView {
    RequestView {
        url: api_base + "/api/aram-mayhem/snapshot"@,
        bearer: Some(jwt_token),
        version: (VERSION_HEADER@, app_version),
        body: JsonView::Object(
            map![
                "gameId"@ => JsonView::Int(game_id as int),
                "championStats"@ => champion_stats,
                "peak"@ => peak,
            ],
        ),
    }
}

/// The request that posts the snapshot of a game.
pub fn snapshot_request(
    api_base: &str,
    app_version: &str,
    jwt_token: &str,
    game_id: i64,
    champion_stats: Json,
    peak: Json,
) -> (r: ApiRequest)
    ensures
        r@ == snapshot_view(
            api_base@,
            app_version@,
            jwt_token@,
            game_id,
            champion_stats@,
            peak@,
        ),
{
    let mut m: Vec<(String, Json)> = Vec::new();
    proof {
        json::lemma_empty_views();
    }
    put(&mut m, "gameId", Json::Int(game_id));
    put(&mut m, "championStats", champion_stats);
    put(&mut m, "peak", peak);
    ApiRequest {
        url: join(api_base, "/api/aram-mayhem/snapshot"),
        bearer: Some(jwt_token.to_string()),
        version: version_header(app_version),
        body: Json::Object(m),
    }
}

/// What posting a snapshot came to.
pub open spec fn snapshot_outcome(exchange: Exchange) -> Result<(), ErrorView> {
    match exchange {
        Ok(reply) => if http::success(reply.status@) {
            Ok(())
        } else {
            Err(refusal(reply.status@, explanation(reply.body)))
        },
        Err(why) => Err(transient_view("POST /api/aram-mayhem/snapshot"@, why@)),
    }
}

/// Whether posting a snapshot succeeded.
pub fn post_snapshot(exchange: &Exchange) -> (done: Result<(), AdgError>)
    ensures
        match done {
            Ok(()) => snapshot_outcome(*exchange) == Ok::<(), ErrorView>(()),
            Err(e) => snapshot_outcome(*exchange) == Err::<(), ErrorView>(e@),
        },
{
    match exchange {
        Ok(reply) => if reply.status.is_success() {
            Ok(())
        } else {
            Err(error_from(reply))
        },
        Err(why) => Err(transient("POST /api/aram-mayhem/snapshot", why.as_str())),
    }
}

} // verus!
