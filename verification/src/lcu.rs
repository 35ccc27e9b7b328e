//! The League client (LCU): finding it, asking it and reading its answers.
//!
//! The match history is only ever asked for in the window that the client's
//! own interface uses: the client caches the list, and another window would
//! change what the player sees.
use crate::first;
use crate::game::GameDetail;
use crate::http::{self, read_body, Exchange, Status};
use crate::json::{self, clone_list, Json, JsonView};
use crate::text::{
    self, eq_ignore_ascii_case, join, join3, parse_u16, signed_text, strip_prefix, unsigned_text,
};
use std::collections::HashSet;
use vstd::prelude::*;

verus! {

/// The queue of ARAM: Mayhem.
pub const MAYHEM_QUEUE_ID: i64 = 2400;

/// The last index of the window of the match history; the first one is 0.
pub const HISTORY_WINDOW_END: u32 = 19;

/// How to reach the client on this machine.
#[derive(Debug)]
pub struct LcuCreds {
    pub port: u16,
    pub token: String,
}

/// What [`LcuCreds`] say.
pub struct CredsView {
    pub port: u16,
    pub token: Seq<char>,
}

impl View for LcuCreds {
    type V = CredsView;

    open spec fn view(&self) -> CredsView {
        CredsView { port: self.port, token: self.token@ }
    }
}

impl Clone for LcuCreds {
    fn clone(&self) -> (copy: Self)
        ensures
            copy == *self,
    {
        LcuCreds { port: self.port, token: self.token.clone() }
    }
}

/// The player who is logged in to the client.
#[derive(Debug)]
pub struct Summoner {
    pub puuid: String,
    pub game_name: String,
    pub tag_line: String,
}

impl Clone for Summoner {
    fn clone(&self) -> (copy: Self)
        ensures
            copy == *self,
    {
        Summoner {
            puuid: self.puuid.clone(),
            game_name: self.game_name.clone(),
            tag_line: self.tag_line.clone(),
        }
    }
}

/// A running process: its name and its command line.
#[derive(Debug)]
pub struct ProcessInfo {
    pub name: String,
    pub cmd: Vec<String>,
}

/// A question to the client.
#[derive(Debug, Clone, Copy)]
pub enum LcuCall {
    Summoner,
    GameflowSession,
    MatchHistory,
    GameDetail { game_id: i64 },
}

/// Why the client could not be found, asked or understood.
#[derive(Debug)]
pub enum LcuError {
    /// No process of the client tells how to reach it.
    NotFound,
    /// The credentials make no valid header.
    Header,
    /// No HTTP client could be built.
    Client,
    /// The question got no reply.
    Asking(LcuCall),
    /// The reply reports no success.
    Refused(LcuCall, Status),
    /// The body of the reply is not what the question asks for.
    Reading(LcuCall),
}

/// What a question is called where it got no reply.
pub open spec fn asking_text(call: LcuCall) -> Seq<char> {
    match call {
        LcuCall::Summoner => "GET /lol-summoner/v1/current-summoner"@,
        LcuCall::GameflowSession => "GET /lol-gameflow/v1/session"@,
        LcuCall::MatchHistory => "GET match history"@,
        LcuCall::GameDetail { .. } => "GET game detail"@,
    }
}

/// What a question is called where it was refused.
pub open spec fn refused_text(call: LcuCall) -> Seq<char> {
    match call {
        LcuCall::Summoner => "/current-summoner"@,
        LcuCall::GameflowSession => "/lol-gameflow/v1/session"@,
        LcuCall::MatchHistory => "match history"@,
        LcuCall::GameDetail { game_id } => "/games/"@ + text::decimal(game_id as int),
    }
}

/// What a question is called where its reply could not be read.
pub open spec fn reading_text(call: LcuCall) -> Seq<char> {
    match call {
        LcuCall::Summoner => "parsear summoner"@,
        LcuCall::GameflowSession => "parsear gameflow session"@,
        LcuCall::MatchHistory => "parsear match history"@,
        LcuCall::GameDetail { .. } => "parsear game detail"@,
    }
}

/// An error in words.
pub open spec fn error_text(e: LcuError) -> Seq<char> {
    match e {
        LcuError::NotFound => "LeagueClientUx não encontrado — abra o cliente do LoL"@,
        LcuError::Header => "header de autenticação inválido"@,
        LcuError::Client => "construir cliente HTTP do LCU"@,
        LcuError::Asking(call) => asking_text(call),
        LcuError::Refused(call, status) => "LCU retornou "@ + http::status_text(status@) + " em "@
            + refused_text(call),
        LcuError::Reading(call) => reading_text(call),
    }
}

impl LcuError {
    /// The error in words.
    pub fn message(&self) -> (msg: String)
        ensures
            msg@ == error_text(*self),
    {
        match self {
            LcuError::NotFound =>
                "LeagueClientUx não encontrado — abra o cliente do LoL".to_string(),
            LcuError::Header => "header de autenticação inválido".to_string(),
            LcuError::Client => "construir cliente HTTP do LCU".to_string(),
            LcuError::Asking(call) => match call {
                LcuCall::Summoner => "GET /lol-summoner/v1/current-summoner".to_string(),
                LcuCall::GameflowSession => "GET /lol-gameflow/v1/session".to_string(),
                LcuCall::MatchHistory => "GET match history".to_string(),
                LcuCall::GameDetail { .. } => "GET game detail".to_string(),
            },
            LcuError::Refused(call, status) => {
                let at = match call {
                    LcuCall::Summoner => "/current-summoner".to_string(),
                    LcuCall::GameflowSession => "/lol-gameflow/v1/session".to_string(),
                    LcuCall::MatchHistory => "match history".to_string(),
                    LcuCall::GameDetail { game_id } => join(
                        "/games/",
                        signed_text(*game_id).as_str(),
                    ),
                };
                let head = join3("LCU retornou ", status.text().as_str(), " em ");
                join(head.as_str(), at.as_str())
            },
            LcuError::Reading(call) => match call {
                LcuCall::Summoner => "parsear summoner".to_string(),
                LcuCall::GameflowSession => "parsear gameflow session".to_string(),
                LcuCall::MatchHistory => "parsear match history".to_string(),
                LcuCall::GameDetail { .. } => "parsear game detail".to_string(),
            },
        }
    }
}

/// Whether a process by its name is the client.
pub open spec fn is_client_name(name: Seq<char>) -> bool {
    text::same_ignoring_case(name, "LeagueClientUx.exe"@) || text::same_ignoring_case(
        name,
        "LeagueClientUx"@,
    )
}

/// The arguments of a command line.
pub open spec fn args_view(cmd: Seq<String>) -> Seq<Seq<char>> {
    cmd.map_values(|arg: String| arg@)
}

/// The port and the token that a command line gives; the last argument that
/// names either decides.
pub open spec fn scan_args(args: Seq<Seq<char>>) -> (Option<u16>, Option<Seq<char>>)
    decreases args.len(),
{
    if args.len() == 0 {
        (None, None)
    } else {
        let (port, token) = scan_args(args.drop_last());
        match text::stripped(args.last(), "--app-port="@) {
            Some(v) => (text::u16_of(v), token),
            None => match text::stripped(args.last(), "--remoting-auth-token="@) {
                Some(v) => (port, Some(v)),
                None => (port, token),
            },
        }
    }
}

/// How to reach the client, where a process is the client and tells it.
pub open spec fn creds_in(process: ProcessInfo) -> Option<CredsView> {
    if is_client_name(process.name@) {
        match scan_args(args_view(process.cmd@)) {
            (Some(port), Some(token)) => Some(CredsView { port, token }),
            _ => None,
        }
    } else {
        None
    }
}

/// How to reach the client: what the first process tells that is the client
/// and tells it.
pub open spec fn creds_among(processes: Seq<ProcessInfo>) -> Option<CredsView> {
    match first::first_item(processes, |p: ProcessInfo| creds_in(p) is Some) {
        Some(process) => creds_in(process),
        None => None,
    }
}

/// Whether a process by its name is the client.
pub fn is_client(name: &str) -> (r: bool)
    ensures
        r == is_client_name(name@),
{
    eq_ignore_ascii_case(name, "LeagueClientUx.exe") || eq_ignore_ascii_case(name, "LeagueClientUx")
}

/// Reads how to reach the client, where a process is the client and tells it.
pub fn read_creds(process: &ProcessInfo) -> (creds: Option<LcuCreds>)
    ensures
        match creds {
            Some(creds) => creds_in(*process) == Some(creds@),
            None => creds_in(*process) is None,
        },
{
    if !is_client(process.name.as_str()) {
        return None;
    }
    let ghost args = args_view(process.cmd@);
    let mut port: Option<u16> = None;
    let mut token: Option<String> = None;
    let mut i: usize = 0;
    while i < process.cmd.len()
        invariant
            i <= process.cmd.len(),
            args == args_view(process.cmd@),
            (port, text::opt_text(token)) == scan_args(args.take(i as int)),
        decreases process.cmd.len() - i,
    {
        let arg = process.cmd[i].as_str();
        proof {
            assert(args.take(i + 1).drop_last() =~= args.take(i as int));
            assert(args.take(i + 1).last() == arg@);
        }
        match strip_prefix(arg, "--app-port=") {
            Some(v) => {
                port = parse_u16(v.as_str());
            },
            None => {
                if let Some(v) = strip_prefix(arg, "--remoting-auth-token=") {
                    token = Some(v);
                }
            },
        }
        i = i + 1;
    }
    assert(args.take(i as int) =~= args);
    match (port, token) {
        (Some(port), Some(token)) => Some(LcuCreds { port, token }),
        _ => None,
    }
}

/// Finds the client among the running processes.
pub fn discover_lcu(processes: &Vec<ProcessInfo>) -> (creds: Result<LcuCreds, LcuError>)
    ensures
        match creds {
            Ok(creds) => creds_among(processes@) == Some(creds@),
            Err(e) => creds_among(processes@) is None && e is NotFound,
        },
{
    let ghost test = |p: ProcessInfo| creds_in(p) is Some;
    let mut i: usize = 0;
    while i < processes.len()
        invariant
            i <= processes.len(),
            test == (|p: ProcessInfo| creds_in(p) is Some),
            forall|j: int| 0 <= j < i ==> !test(#[trigger] processes@[j]),
        decreases processes.len() - i,
    {
        if let Some(creds) = read_creds(&processes[i]) {
            proof {
                first::lemma_first_is(processes@, test, i as int);
            }
            return Ok(creds);
        }
        i = i + 1;
    }
    proof {
        first::lemma_first_none(processes@, test);
    }
    Err(LcuError::NotFound)
}

/// What every request to the client needs: where it goes, and the header that
/// authorizes it.
#[derive(Debug)]
pub struct LcuClient {
    pub authorization: String,
    pub base: String,
}

/// The standard base64 encoding, with padding, of a text in UTF-8.
pub uninterp spec fn base64_text(text: Seq<char>) -> Seq<char>;

/// The characters of the standard base64 alphabet and its padding.
pub open spec fn is_base64_char(c: char) -> bool {
    ||| 'A' <= c && c <= 'Z'
    ||| 'a' <= c && c <= 'z'
    ||| '0' <= c && c <= '9'
    ||| c == '+'
    ||| c == '/'
    ||| c == '='
}

/// `base64::engine::general_purpose::STANDARD.encode`: the encoding depends on
/// the text alone, and is written in the standard alphabet.
#[verifier::external_body]
fn encode_base64(text: &str) -> (encoded: String)
    ensures
        encoded@ == base64_text(text@),
        forall|i: int| 0 <= i < encoded@.len() ==> is_base64_char(#[trigger] encoded@[i]),
{
    base64::Engine::encode(&base64::engine::general_purpose::STANDARD, text)
}

/// The header that authorizes requests to the client.
pub open spec fn authorization_text(token: Seq<char>) -> Seq<char> {
    "Basic "@ + base64_text("riot:"@ + token)
}

/// Where the client answers.
pub open spec fn base_text(port: u16) -> Seq<char> {
    "https://127.0.0.1:"@ + text::decimal(port as int)
}

/// Whether a header value may hold a character: a tab, or visible ASCII.
pub open spec fn is_header_char(c: char) -> bool {
    c == '\t' || (' ' <= c && c <= '~')
}

/// Prepares requests to the client: whatever the token, the header is valid.
pub fn build_lcu_client(creds: &LcuCreds) -> (client: LcuClient)
    ensures
        client.authorization@ == authorization_text(creds.token@),
        client.base@ == base_text(creds.port),
        forall|i: int|
            0 <= i < client.authorization@.len() ==> is_header_char(
                #[trigger] client.authorization@[i],
            ),
{
    let basic = encode_base64(join("riot:", creds.token.as_str()).as_str());
    let authorization = join("Basic ", basic.as_str());
    proof {
        reveal_strlit("Basic ");
        assert forall|i: int| 0 <= i < authorization@.len() implies is_header_char(
            #[trigger] authorization@[i],
        ) by {
            if i >= 6 {
                assert(is_base64_char(basic@[i - 6]));
                assert(authorization@[i] == basic@[i - 6]);
            } else {
                assert(authorization@[i] == "Basic "@[i]);
            }
        }
    }
    LcuClient {
        authorization,
        base: join("https://127.0.0.1:", unsigned_text(creds.port as u64).as_str()),
    }
}

/// What tells one session of the client from another.
pub open spec fn session_text(creds: CredsView) -> Seq<char> {
    text::decimal(creds.port as int) + ":"@ + creds.token
}

/// What tells one session of the client from another.
pub fn session_key(creds: &LcuCreds) -> (key: String)
    ensures
        key@ == session_text(creds@),
{
    join3(unsigned_text(creds.port as u64).as_str(), ":", creds.token.as_str())
}

/// The URL that asks who is logged in.
pub fn summoner_url(client: &LcuClient) -> (url: String)
    ensures
        url@ == client.base@ + "/lol-summoner/v1/current-summoner"@,
{
    join(client.base.as_str(), "/lol-summoner/v1/current-summoner")
}

/// The URL that asks which game is under way.
pub fn session_url(client: &LcuClient) -> (url: String)
    ensures
        url@ == client.base@ + "/lol-gameflow/v1/session"@,
{
    join(client.base.as_str(), "/lol-gameflow/v1/session")
}

/// The URL that asks for the detail of a game.
pub fn detail_url(client: &LcuClient, game_id: i64) -> (url: String)
    ensures
        url@ == client.base@ + "/lol-match-history/v1/games/"@ + text::decimal(game_id as int),
{
    join3(client.base.as_str(), "/lol-match-history/v1/games/", signed_text(game_id).as_str())
}

/// The URL of the window of the match history, asked for under `path`.
pub open spec fn window_text(base: Seq<char>, path: Seq<char>) -> Seq<char> {
    base + "/lol-match-history/v1/products/lol/"@ + path + "/matches?begIndex="@ + text::decimal(0)
        + "&endIndex="@ + text::decimal(HISTORY_WINDOW_END as int)
}

/// The URL of the window of the match history, asked for under `path`.
pub fn window_url(client: &LcuClient, path: &str) -> (url: String)
    ensures
        url@ == window_text(client.base@, path@),
{
    let head = join3(client.base.as_str(), "/lol-match-history/v1/products/lol/", path);
    let from = join3(head.as_str(), "/matches?begIndex=", unsigned_text(0).as_str());
    join3(from.as_str(), "&endIndex=", unsigned_text(HISTORY_WINDOW_END as u64).as_str())
}

/// What a question came to whose answer is read as a `T`: no reply, or a
/// status and the answer where the body was one.
pub open spec fn settled<T>(call: LcuCall, exchange: Option<(Status, Option<T>)>) -> Result<
    T,
    LcuError,
> {
    match exchange {
        None => Err(LcuError::Asking(call)),
        Some((status, answer)) => if !http::success(status@) {
            Err(LcuError::Refused(call, status))
        } else {
            match answer {
                Some(answer) => Ok(answer),
                None => Err(LcuError::Reading(call)),
            }
        },
    }
}

fn settle<T>(call: LcuCall, exchange: Option<(Status, Option<T>)>) -> (answer: Result<T, LcuError>)
    ensures
        answer == settled(call, exchange),
{
    match exchange {
        None => Err(LcuError::Asking(call)),
        Some((status, answer)) => if !status.is_success() {
            Err(LcuError::Refused(call, status))
        } else {
            match answer {
                Some(answer) => Ok(answer),
                None => Err(LcuError::Reading(call)),
            }
        },
    }
}

/// The player who is logged in, as the client answered.
pub fn get_summoner(exchange: Option<(Status, Option<Summoner>)>) -> (summoner: Result<
    Summoner,
    LcuError,
>)
    ensures
        summoner == settled(LcuCall::Summoner, exchange),
{
    settle(LcuCall::Summoner, exchange)
}

/// The detail of a game, as the client answered.
pub fn get_game_detail(game_id: i64, exchange: Option<(Status, Option<GameDetail>)>) -> (detail:
    Result<GameDetail, LcuError>)
    ensures
        detail == settled(LcuCall::GameDetail { game_id }, exchange),
{
    settle(LcuCall::GameDetail { game_id }, exchange)
}

/// The game that a gameflow session is in: its id, where that is positive.
pub open spec fn game_under_way(session: JsonView) -> Option<i64> {
    match session.get("gameData"@) {
        Some(data) => match data.get_i64("gameId"@) {
            Some(id) if id > 0 => Some(id),
            _ => None,
        },
        None => None,
    }
}

/// Reads the game that a gameflow session is in.
pub fn read_game_under_way(session: &Json) -> (id: Option<i64>)
    ensures
        id == game_under_way(session@),
{
    match session.get("gameData") {
        Some(data) => match data.get_i64("gameId") {
            Some(id) => if id > 0 {
                Some(id)
            } else {
                None
            },
            None => None,
        },
        None => None,
    }
}

/// What asking for the game under way came to.
pub open spec fn current_game(exchange: Exchange) -> Result<Option<i64>, LcuError> {
    match exchange {
        Err(_) => Err(LcuError::Asking(LcuCall::GameflowSession)),
        Ok(reply) => if !http::success(reply.status@) {
            Ok(None)
        } else {
            match http::body_json(reply.body) {
                Ok(session) => Ok(game_under_way(session)),
                Err(_) => Err(LcuError::Reading(LcuCall::GameflowSession)),
            }
        },
    }
}

/// The game under way, as the client answered.
pub fn get_current_game_id(exchange: &Exchange) -> (id: Result<Option<i64>, LcuError>)
    ensures
        id == current_game(*exchange),
{
    match exchange {
        Err(_) => Err(LcuError::Asking(LcuCall::GameflowSession)),
        Ok(reply) => if !reply.status.is_success() {
            Ok(None)
        } else {
            match read_body(&reply.body) {
                Ok(session) => Ok(read_game_under_way(&session)),
                Err(_) => Err(LcuError::Reading(LcuCall::GameflowSession)),
            }
        },
    }
}

/// The games that a page of the match history lists: under `games`, or under
/// `games` within that.
pub open spec fn games_in(page: JsonView) -> Seq<JsonView> {
    let outer = match page.get("games"@) {
        Some(games) => games,
        None => JsonView::Null,
    };
    let list = match outer.get("games"@) {
        Some(games) => games,
        None => outer,
    };
    match list {
        JsonView::List(games) => games,
        _ => Seq::empty(),
    }
}

/// Reads the games that a page of the match history lists.
pub fn read_games(page: &Json) -> (games: Vec<Json>)
    ensures
        json::list_view(games@) == games_in(page@),
{
    proof {
        json::lemma_empty_views();
    }
    let outer = match page.get("games") {
        Some(games) => games,
        None => {
            return Vec::new();
        },
    };
    let list = match outer.get("games") {
        Some(games) => games,
        None => outer,
    };
    match list {
        Json::List(games) => clone_list(games),
        _ => Vec::new(),
    }
}

/// What asking for a page of the match history came to.
pub open spec fn history_page(exchange: Exchange) -> Result<Seq<JsonView>, LcuError> {
    match exchange {
        Err(_) => Err(LcuError::Asking(LcuCall::MatchHistory)),
        Ok(reply) => if !http::success(reply.status@) {
            Err(LcuError::Refused(LcuCall::MatchHistory, reply.status))
        } else {
            match http::body_json(reply.body) {
                Ok(page) => Ok(games_in(page)),
                Err(_) => Err(LcuError::Reading(LcuCall::MatchHistory)),
            }
        },
    }
}

/// What a list of games, or the error in its place, means.
pub open spec fn games_view(games: Result<Vec<Json>, LcuError>) -> Result<Seq<JsonView>, LcuError> {
    match games {
        Ok(games) => Ok(json::list_view(games@)),
        Err(e) => Err(e),
    }
}

/// The games of a page of the match history, as the client answered.
pub fn fetch_history_page(exchange: &Exchange) -> (games: Result<Vec<Json>, LcuError>)
    ensures
        games_view(games) == history_page(*exchange),
{
    match exchange {
        Err(_) => Err(LcuError::Asking(LcuCall::MatchHistory)),
        Ok(reply) => if !reply.status.is_success() {
            Err(LcuError::Refused(LcuCall::MatchHistory, reply.status))
        } else {
            match read_body(&reply.body) {
                Ok(page) => Ok(read_games(&page)),
                Err(_) => Err(LcuError::Reading(LcuCall::MatchHistory)),
            }
        },
    }
}

/// Asking for the window of the match history: under the current summoner
/// first, and under the player's unique id where that fails.
#[derive(Debug)]
pub struct WindowFetch {
    pub puuid: String,
    pub fell_back: bool,
}

/// What to do after an attempt at the window.
#[derive(Debug)]
pub enum WindowStep {
    Again(WindowFetch),
    Done(Result<Vec<Json>, LcuError>),
}

impl WindowFetch {
    /// Before the first attempt.
    pub fn start(puuid: &str) -> (fetch: WindowFetch)
        ensures
            fetch.puuid@ == puuid@,
            !fetch.fell_back,
    {
        WindowFetch { puuid: puuid.to_string(), fell_back: false }
    }

    /// The URL of the attempt that is due.
    pub fn url(&self, client: &LcuClient) -> (url: String)
        ensures
            url@ == window_text(
                client.base@,
                if self.fell_back {
                    self.puuid@
                } else {
                    "current-summoner"@
                },
            ),
    {
        if self.fell_back {
            window_url(client, self.puuid.as_str())
        } else {
            window_url(client, "current-summoner")
        }
    }

    /// Takes the outcome of an attempt.
    pub fn fetch_default_window(self, page: Result<Vec<Json>, LcuError>) -> (step: WindowStep)
        ensures
            step == if page is Ok || self.fell_back {
                WindowStep::Done(page)
            } else {
                WindowStep::Again(WindowFetch { puuid: self.puuid, fell_back: true })
            },
    {
        match page {
            Ok(games) => WindowStep::Done(Ok(games)),
            Err(e) => if self.fell_back {
                WindowStep::Done(Err(e))
            } else {
                WindowStep::Again(WindowFetch { puuid: self.puuid, fell_back: true })
            },
        }
    }
}

/// Whether a listed game was ARAM: Mayhem.
pub open spec fn is_mayhem(game: JsonView) -> bool {
    game.get_i64("queueId"@) == Some(MAYHEM_QUEUE_ID)
}

/// The id of a listed game that was ARAM: Mayhem and is not known yet.
pub open spec fn new_mayhem_id(game: JsonView, known: Set<i64>) -> Option<i64> {
    match game.get_i64("gameId"@) {
        Some(id) if is_mayhem(game) && !known.contains(id) => Some(id),
        _ => None,
    }
}

/// The ids of the listed games that were ARAM: Mayhem and are not known yet.
pub open spec fn new_mayhem_ids(games: Seq<JsonView>, known: Set<i64>) -> Seq<i64> {
    games.filter_map(|game: JsonView| new_mayhem_id(game, known))
}

fn check_mayhem(game: &Json) -> (r: bool)
    ensures
        r == is_mayhem(game@),
{
    match game.get_i64("queueId") {
        Some(queue) => queue == MAYHEM_QUEUE_ID,
        None => false,
    }
}

/// Picks the listed games that were ARAM: Mayhem and are not known yet.
pub fn get_recent_mayhem_ids(games: &Vec<Json>, known: &HashSet<i64>) -> (ids: Vec<i64>)
    ensures
        ids@ == new_mayhem_ids(json::list_view(games@), known@),
{
    broadcast use vstd::std_specs::hash::group_hash_axioms;

    let ghost all = json::list_view(games@);
    let ghost pick = |game: JsonView| new_mayhem_id(game, known@);
    let mut ids: Vec<i64> = Vec::new();
    let mut i: usize = 0;
    proof {
        json::lemma_list_view(games@);
        reveal(Seq::filter_map);
    }
    while i < games.len()
        invariant
            i <= games.len(),
            all == json::list_view(games@),
            all.len() == games@.len(),
            forall|j: int| 0 <= j < all.len() ==> #[trigger] all[j] == games@[j]@,
            pick == (|game: JsonView| new_mayhem_id(game, known@)),
            ids@ == all.take(i as int).filter_map(pick),
        decreases games.len() - i,
    {
        let game = &games[i];
        proof {
            reveal(Seq::filter_map);
            assert(all[i as int] == game@);
            assert(all.take(i + 1).drop_last() =~= all.take(i as int));
            assert(all.take(i + 1).last() == game@);
        }
        if check_mayhem(game) {
            if let Some(id) = game.get_i64("gameId") {
                if !known.contains(&id) {
                    ids.push(id);
                }
            }
        }
        i = i + 1;
    }
    assert(all.take(i as int) =~= all);
    ids
}

/// The id of the newest listed game of ARAM: Mayhem that has one; games of
/// other queues do not count.
pub open spec fn newest_mayhem_id(games: Seq<JsonView>) -> Option<i64> {
    match first::first_item(
        games,
        |game: JsonView| is_mayhem(game) && game.get_i64("gameId"@) is Some,
    ) {
        Some(game) => game.get_i64("gameId"@),
        None => None,
    }
}

/// The id of the newest listed game of ARAM: Mayhem that has one, else that of
/// the newest game.
pub open spec fn latest_mayhem_id(games: Seq<JsonView>) -> Option<i64> {
    match newest_mayhem_id(games) {
        Some(id) => Some(id),
        None => if games.len() > 0 {
            games[0].get_i64("gameId"@)
        } else {
            None
        },
    }
}

/// Picks the newest listed game of ARAM: Mayhem.
pub fn get_newest_mayhem_game_id(games: &Vec<Json>) -> (id: Option<i64>)
    ensures
        id == newest_mayhem_id(json::list_view(games@)),
{
    let ghost all = json::list_view(games@);
    let ghost test = |game: JsonView| is_mayhem(game) && game.get_i64("gameId"@) is Some;
    let mut i: usize = 0;
    proof {
        json::lemma_list_view(games@);
    }
    while i < games.len()
        invariant
            i <= games.len(),
            all == json::list_view(games@),
            all.len() == games@.len(),
            forall|j: int| 0 <= j < all.len() ==> #[trigger] all[j] == games@[j]@,
            test == (|game: JsonView| is_mayhem(game) && game.get_i64("gameId"@) is Some),
            forall|j: int| 0 <= j < i ==> !test(#[trigger] all[j]),
        decreases games.len() - i,
    {
        let game = &games[i];
        assert(all[i as int] == game@);
        if check_mayhem(game) {
            if let Some(id) = game.get_i64("gameId") {
                proof {
                    first::lemma_first_is(all, test, i as int);
                }
                return Some(id);
            }
        }
        i = i + 1;
    }
    proof {
        first::lemma_first_none(all, test);
    }
    None
}

/// Picks the newest listed game of ARAM: Mayhem, else the newest game.
pub fn get_latest_mayhem_game_id(games: &Vec<Json>) -> (id: Option<i64>)
    ensures
        id == latest_mayhem_id(json::list_view(games@)),
{
    proof {
        json::lemma_list_view(games@);
    }
    match get_newest_mayhem_game_id(games) {
        Some(id) => Some(id),
        None => if games.len() > 0 {
            assert(json::list_view(games@)[0] == games@[0]@);
            games[0].get_i64("gameId")
        } else {
            None
        },
    }
}

} // verus!
