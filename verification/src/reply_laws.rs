//! What holds of what is asked over HTTP and of what is made of the replies.
use crate::adg::{self, AdgError, ApiRequest};
use crate::http::{self, Exchange, Reply, Status};
use crate::json::{self, Json, JsonView};
use crate::liveclient;
use vstd::prelude::*;

verus! {

/// A status is a code of three digits; those from 200 to 299 report success and
/// those from 400 to 499 blame the client.
pub proof fn law_status_codes(
    code: u16,
    made: Option<Status>,
    status: Status,
    read: u16,
    success: bool,
    blame: bool,
    text: String,
)
    requires
        call_ensures(Status::from_u16, (code,), made),
        call_ensures(Status::code, (&status,), read),
        call_ensures(Status::is_success, (&status,), success),
        call_ensures(Status::is_client_error, (&status,), blame),
        call_ensures(Status::text, (&status,), text),
    ensures
        made is Some <==> 100 <= code <= 999,
        made matches Some(status) ==> status@ == code,
        read == status@,
        success <==> 200 <= status@ <= 299,
        blame <==> 400 <= status@ <= 499,
        text@ == http::status_text(status@),
{
}

/// The document that a body holds, where it was read and is JSON.
pub open spec fn document(body: Result<Vec<u8>, String>) -> Option<JsonView> {
    match body {
        Ok(bytes) => json::json_text(bytes@),
        Err(_) => None,
    }
}

/// A body is read as the document that it holds; where it could not be read the
/// reason stands, and where it is no JSON it could not be decoded.
pub proof fn law_bodies_are_read_as_json(
    body: Result<Vec<u8>, String>,
    read: Result<Json, String>,
)
    requires
        call_ensures(http::read_body, (&body,), read),
    ensures
        read is Ok <==> document(body) is Some,
        read matches Ok(doc) ==> document(body) == Some(doc@),
        body matches Err(why) ==> read matches Err(reason) && reason@ == why@,
        body is Ok && read is Err ==> read->Err_0@ == "error decoding response body"@,
{
}

/// The text under a key of a document, or another text.
pub open spec fn text_or(doc: Option<JsonView>, key: Seq<char>, other: Seq<char>) -> Seq<char> {
    match doc {
        Some(doc) => match doc.get(key) {
            Some(JsonView::Text(text)) => text,
            _ => other,
        },
        None => other,
    }
}

/// Whether an error says what a refusing reply says: 426 wants an update, to
/// the version and from the place that the body names; any other code that
/// blames the client is permanent and the rest is transient, both with the
/// status and the reason that the body gives.
pub open spec fn says_refusal(e: AdgError, code: u16, doc: Option<JsonView>) -> bool {
    if code == 426 {
        e matches AdgError::UpdateRequired { min_version, download_url } && min_version@ == text_or(
            doc,
            "minVersion"@,
            "?"@,
        ) && match download_url {
            Some(url) => doc is Some && doc->0.get("downloadUrl"@) == Some(JsonView::Text(url@)),
            None => doc is None || !(doc->0.get("downloadUrl"@) matches Some(JsonView::Text(_))),
        }
    } else {
        let reason = http::status_text(code) + ": "@ + text_or(
            doc,
            "error"@,
            "erro desconhecido"@,
        );
        if 400 <= code <= 499 {
            e matches AdgError::Permanent(msg) && msg@ == reason
        } else {
            e matches AdgError::Transient(msg) && msg@ == reason
        }
    }
}

/// A refusing reply becomes the error that it says.
pub proof fn law_refusal_says_what_a_retry_can_do(
    status: Status,
    doc: Json,
    e: AdgError,
    reply: Reply,
    of_reply: AdgError,
)
    requires
        call_ensures(adg::refuse, (status, &doc), e),
        call_ensures(adg::error_from, (&reply,), of_reply),
    ensures
        says_refusal(e, status@, Some(doc@)),
        says_refusal(of_reply, reply.status@, document(reply.body)),
{
}

/// Whether an error is transient and says what failed and why.
pub open spec fn says_failed(e: AdgError, what: Seq<char>, why: Seq<char>) -> bool {
    e matches AdgError::Transient(msg) && msg@ == what + ": "@ + why
}

/// Why a body is no document.
pub open spec fn unreadable(body: Result<Vec<u8>, String>) -> Seq<char> {
    match body {
        Ok(_) => "error decoding response body"@,
        Err(why) => why@,
    }
}

/// An error names what failed and why; the one of a required update names the
/// version that is wanted.
pub proof fn law_errors_in_words(
    what: &str,
    why: &str,
    e: AdgError,
    any: AdgError,
    msg: String,
)
    requires
        call_ensures(adg::transient, (what, why), e),
        call_ensures(AdgError::message, (&any,), msg),
    ensures
        says_failed(e, what@, why@),
        any matches AdgError::Permanent(text) ==> msg@ == text@,
        any matches AdgError::Transient(text) ==> msg@ == text@,
        any matches AdgError::UpdateRequired { min_version, .. } ==> msg@
            == "Atualização obrigatória do companion (mínima "@ + min_version@ + ")"@,
{
}

/// A login comes to the text under `token` of a successful reply. Without a
/// reply, or with one that cannot be read, it failed transiently; a refusal says
/// what it says; and a reply without the token is a permanent failure.
pub proof fn law_login_gives_the_token(exchange: Exchange, token: Result<String, AdgError>)
    requires
        call_ensures(adg::login, (&exchange,), token),
    ensures
        exchange matches Err(why) ==> token is Err && says_failed(
            token->Err_0,
            "POST /api/auth/login"@,
            why@,
        ),
        exchange matches Ok(reply) ==> {
            let doc = document(reply.body);
            if !(200 <= reply.status@ <= 299) {
                token is Err && says_refusal(token->Err_0, reply.status@, doc)
            } else if doc is None {
                token is Err && says_failed(
                    token->Err_0,
                    "parsear resposta de login"@,
                    unreadable(reply.body),
                )
            } else {
                match doc->0.get("token"@) {
                    Some(JsonView::Text(text)) => token is Ok && token->Ok_0@ == text,
                    _ => token is Err && (token->Err_0 matches AdgError::Permanent(msg) && msg@
                        == "campo 'token' ausente na resposta de login"@),
                }
            }
        },
{
}

/// The token is the text under `token`.
pub proof fn law_token_is_read(doc: Json, token: Result<String, AdgError>)
    requires
        call_ensures(adg::read_token, (&doc,), token),
    ensures
        token matches Ok(text) ==> doc@.get("token"@) == Some(JsonView::Text(text@)),
        token is Err <==> !(doc@.get("token"@) matches Some(JsonView::Text(_))),
        token is Err ==> (token->Err_0 matches AdgError::Permanent(msg) && msg@
            == "campo 'token' ausente na resposta de login"@),
{
}

/// The integer under `inserted`, where a `u64` holds it; else 0.
pub open spec fn inserted(doc: JsonView) -> int {
    match doc.get("inserted"@) {
        Some(JsonView::Int(n)) if 0 <= n <= u64::MAX => n,
        _ => 0,
    }
}

/// Posting games comes to the integer under `inserted` of a successful reply,
/// and to 0 where it has none; it fails as a login does.
pub proof fn law_posting_games_counts_the_inserted(
    exchange: Exchange,
    n: Result<u64, AdgError>,
    doc: Json,
    read: u64,
)
    requires
        call_ensures(adg::post_matches, (&exchange,), n),
        call_ensures(adg::read_inserted, (&doc,), read),
    ensures
        read == inserted(doc@),
        exchange matches Err(why) ==> n is Err && says_failed(
            n->Err_0,
            "POST /api/aram-mayhem/matches"@,
            why@,
        ),
        exchange matches Ok(reply) ==> {
            let doc = document(reply.body);
            if !(200 <= reply.status@ <= 299) {
                n is Err && says_refusal(n->Err_0, reply.status@, doc)
            } else if doc is None {
                n is Err && says_failed(
                    n->Err_0,
                    "parsear resposta do ingest"@,
                    unreadable(reply.body),
                )
            } else {
                n is Ok && n->Ok_0 == inserted(doc->0)
            }
        },
{
}

/// Posting a snapshot succeeds with a successful reply, whatever its body.
pub proof fn law_posting_a_snapshot_needs_success_only(
    exchange: Exchange,
    done: Result<(), AdgError>,
)
    requires
        call_ensures(adg::post_snapshot, (&exchange,), done),
    ensures
        done is Ok <==> exchange is Ok && 200 <= exchange->Ok_0.status@ <= 299,
        exchange matches Err(why) ==> done is Err && says_failed(
            done->Err_0,
            "POST /api/aram-mayhem/snapshot"@,
            why@,
        ),
        exchange matches Ok(reply) ==> done matches Err(e) ==> says_refusal(
            e,
            reply.status@,
            document(reply.body),
        ),
{
}

/// Whether a document is an object with these keys and no others.
pub open spec fn has_keys(doc: JsonView, keys: Set<Seq<char>>) -> bool {
    doc is Object && doc->Object_0.dom() == keys
}

/// The names of the members of requests are told apart.
pub proof fn lemma_request_keys()
    ensures
        "email"@.len() == 5,
        "password"@.len() == 8,
        "puuid"@.len() == 5,
        "gameName"@.len() == 8,
        "tagLine"@.len() == 7,
        "matches"@.len() == 7,
        "gameId"@.len() == 6,
        "championStats"@.len() == 13,
        "peak"@.len() == 4,
        "tagLine"@[0] != "matches"@[0],
{
    reveal_strlit("email");
    reveal_strlit("password");
    reveal_strlit("puuid");
    reveal_strlit("gameName");
    reveal_strlit("tagLine");
    reveal_strlit("matches");
    reveal_strlit("gameId");
    reveal_strlit("championStats");
    reveal_strlit("peak");
}

/// A login is asked for at its place in the backend, with the version, without
/// a token, and with the address and the password and nothing else.
pub proof fn law_login_request(
    base: &str,
    version: &str,
    email: &str,
    password: &str,
    r: ApiRequest,
)
    requires
        call_ensures(adg::login_request, (base, version, email, password), r),
    ensures
        r.url@ == base@ + "/api/auth/login"@,
        r.bearer is None,
        r.version.0@ == "x-companion-version"@ && r.version.1@ == version@,
        r.body@.get("email"@) == Some(JsonView::Text(email@)),
        r.body@.get("password"@) == Some(JsonView::Text(password@)),
        has_keys(r.body@, set!["email"@, "password"@]),
{
    lemma_request_keys();
    assert(r.body@->Object_0.dom() =~= set!["email"@, "password"@]);
}

/// Games are posted at their place in the backend, with the version and the
/// token, under the names of the player and in order.
pub proof fn law_matches_request(
    base: &str,
    version: &str,
    token: &str,
    puuid: &str,
    game_name: &str,
    tag_line: &str,
    matches: Vec<Json>,
    r: ApiRequest,
)
    requires
        call_ensures(
            adg::matches_request,
            (base, version, token, puuid, game_name, tag_line, matches),
            r,
        ),
    ensures
        r.url@ == base@ + "/api/aram-mayhem/matches"@,
        r.bearer matches Some(bearer) && bearer@ == token@,
        r.version.0@ == "x-companion-version"@ && r.version.1@ == version@,
        r.body@.get("puuid"@) == Some(JsonView::Text(puuid@)),
        r.body@.get("gameName"@) == Some(JsonView::Text(game_name@)),
        r.body@.get("tagLine"@) == Some(JsonView::Text(tag_line@)),
        r.body@.get("matches"@) matches Some(JsonView::List(posted)) && posted.len()
            == matches@.len() && forall|i: int|
            0 <= i < matches@.len() ==> #[trigger] posted[i] == matches@[i]@,
        has_keys(r.body@, set!["puuid"@, "gameName"@, "tagLine"@, "matches"@]),
{
    lemma_request_keys();
    json::lemma_list_view(matches@);
    assert(r.body@->Object_0.dom() =~= set!["puuid"@, "gameName"@, "tagLine"@, "matches"@]);
}

/// A snapshot is posted at its place in the backend, with the version and the
/// token, under the id of the game and just as it was captured.
pub proof fn law_snapshot_request(
    base: &str,
    version: &str,
    token: &str,
    game_id: i64,
    stats: Json,
    peak: Json,
    r: ApiRequest,
)
    requires
        call_ensures(adg::snapshot_request, (base, version, token, game_id, stats, peak), r),
    ensures
        r.url@ == base@ + "/api/aram-mayhem/snapshot"@,
        r.bearer matches Some(bearer) && bearer@ == token@,
        r.version.0@ == "x-companion-version"@ && r.version.1@ == version@,
        r.body@.get("gameId"@) == Some(JsonView::Int(game_id as int)),
        r.body@.get("championStats"@) == Some(stats@),
        r.body@.get("peak"@) == Some(peak@),
        has_keys(r.body@, set!["gameId"@, "championStats"@, "peak"@]),
{
    lemma_request_keys();
    assert(r.body@->Object_0.dom() =~= set!["gameId"@, "championStats"@, "peak"@]);
}

/// What the LiveClient answered: the document of a successful reply.
pub open spec fn live_answer(exchange: Exchange) -> Option<JsonView> {
    match exchange {
        Ok(reply) => if 200 <= reply.status@ <= 299 {
            document(reply.body)
        } else {
            None
        },
        Err(_) => None,
    }
}

/// The LiveClient is asked on this machine, and its answer is the document of a
/// successful reply.
pub proof fn law_live_client_is_asked_and_read(
    path: &str,
    url: String,
    exchange: Exchange,
    doc: Option<Json>,
)
    requires
        call_ensures(liveclient::live_url, (path,), url),
        call_ensures(liveclient::get_json, (&exchange,), doc),
    ensures
        url@ == "https://127.0.0.1:2999"@ + path@,
        doc is Some <==> live_answer(exchange) is Some,
        doc matches Some(read) ==> live_answer(exchange) == Some(read@),
        liveclient::GAME_STATS_PATH@ == "/liveclientdata/gamestats"@,
        liveclient::ACTIVE_PLAYER_PATH@ == "/liveclientdata/activeplayer"@,
{
}

/// The mode of the game under way is the text under `gameMode` that the
/// LiveClient answers.
pub proof fn law_mode_is_the_answered_text(
    stats: Json,
    read: Option<String>,
    exchange: Exchange,
    mode: Option<String>,
)
    requires
        call_ensures(liveclient::read_game_mode, (&stats,), read),
        call_ensures(liveclient::game_mode, (&exchange,), mode),
    ensures
        read is Some <==> (stats@.get("gameMode"@) matches Some(JsonView::Text(_))),
        read matches Some(text) ==> stats@.get("gameMode"@) == Some(JsonView::Text(text@)),
        mode is Some <==> live_answer(exchange) is Some && (live_answer(exchange)->0.get(
            "gameMode"@,
        ) matches Some(JsonView::Text(_))),
        mode matches Some(text) ==> live_answer(exchange)->0.get("gameMode"@) == Some(
            JsonView::Text(text@),
        ),
{
}

/// The build is whatever the LiveClient answers under `championStats`.
pub proof fn law_build_is_the_answered_member(
    player: Json,
    read: Option<Json>,
    exchange: Exchange,
    stats: Option<Json>,
)
    requires
        call_ensures(liveclient::read_champion_stats, (&player,), read),
        call_ensures(liveclient::champion_stats, (&exchange,), stats),
    ensures
        read is Some <==> player@.get("championStats"@) is Some,
        read matches Some(doc) ==> player@.get("championStats"@) == Some(doc@),
        stats is Some <==> live_answer(exchange) is Some && live_answer(exchange)->0.get(
            "championStats"@,
        ) is Some,
        stats matches Some(doc) ==> live_answer(exchange)->0.get("championStats"@) == Some(doc@),
{
}

/// A game is ARAM: Mayhem if and only if its mode is `KIWI`.
pub proof fn law_mayhem_is_the_kiwi_mode(mode: Option<String>, r: bool)
    requires
        call_ensures(liveclient::is_mayhem_in_game, (&mode,), r),
    ensures
        r <==> (mode matches Some(text) && text@ == "KIWI"@),
{
}

} // verus!
