//! What holds of what is asked of the client and read from its answers.
use crate::first;
use crate::game::{GameDetail, GameView, IdentityView, ParticipantView};
use crate::http::{self, Exchange, Status};
use crate::json::{self, Json, JsonView};
use crate::lcu::{
    self, CredsView, LcuCall, LcuClient, LcuCreds, LcuError, ProcessInfo, Summoner, WindowFetch,
    WindowStep,
};
use crate::payload;
use crate::reply_laws;
use crate::text;
use crate::text_laws;
use std::collections::HashSet;
use vstd::prelude::*;

verus! {

/// A number written in decimal reads back as itself.
pub proof fn law_decimal_reads_back(n: nat)
    ensures
        text::decimal_digits(n).len() > 0,
        text::all_digits(text::decimal_digits(n)),
        text::digits_value(text::decimal_digits(n)) == n,
    decreases n,
{
    if n < 10 {
        let s = text::decimal_digits(n);
        assert(s.drop_last() =~= Seq::<char>::empty());
        assert(text::digits_value(s.drop_last()) == 0);
    } else {
        law_decimal_reads_back(n / 10);
        let s = text::decimal_digits(n);
        assert(s.drop_last() =~= text::decimal_digits(n / 10));
        assert(s.last() == text::digit((n % 10) as int));
    }
}

/// A port written on the command line in decimal is the port that is read.
pub proof fn law_port_reads_back(port: u16)
    ensures
        text::u16_of(text::decimal(port as int)) == Some(port),
{
    law_decimal_reads_back(port as nat);
    let s = text::decimal(port as int);
    assert('0' <= s[0] && s[0] <= '9');
    assert(text::numeral_digits(s) == s);
}

/// Two sessions of the client have one key only where they are the same: the
/// same port and the same token.
pub proof fn law_sessions_are_told_apart(a: CredsView, b: CredsView)
    ensures
        lcu::session_text(a) == lcu::session_text(b) <==> a == b,
{
    if lcu::session_text(a) == lcu::session_text(b) {
        let key_a = lcu::session_text(a);
        let key_b = lcu::session_text(b);
        let port_a = text::decimal(a.port as int);
        let port_b = text::decimal(b.port as int);
        law_decimal_reads_back(a.port as nat);
        law_decimal_reads_back(b.port as nat);
        reveal_strlit(":");
        assert(key_a[port_a.len() as int] == ':');
        assert(key_b[port_b.len() as int] == ':');
        if port_a.len() < port_b.len() {
            assert(key_b[port_a.len() as int] == port_b[port_a.len() as int]);
            assert(false);
        }
        if port_b.len() < port_a.len() {
            assert(key_a[port_b.len() as int] == port_a[port_b.len() as int]);
            assert(false);
        }
        let n = port_a.len() as int;
        assert(key_a.take(n) =~= port_a);
        assert(key_b.take(n) =~= port_b);
        assert(key_a.skip(n + 1) =~= a.token);
        assert(key_b.skip(n + 1) =~= b.token);
    }
}

/// Whichever way the history is asked for, it is the window from 0 to 19.
pub proof fn law_window_is_fixed(base: Seq<char>, path: Seq<char>)
    ensures
        lcu::window_text(base, path) == base + "/lol-match-history/v1/products/lol/"@ + path
            + "/matches?begIndex=0&endIndex=19"@,
{
    reveal_strlit("/matches?begIndex=");
    reveal_strlit("&endIndex=");
    reveal_strlit("/matches?begIndex=0&endIndex=19");
    assert(text::decimal(0) =~= seq!['0']);
    assert(text::decimal_digits(1) =~= seq!['1']);
    assert(text::decimal_digits(19) =~= seq!['1', '9']);
    assert(text::decimal(19) =~= seq!['1', '9']);
    assert("/matches?begIndex=0&endIndex=19"@ =~= "/matches?begIndex="@ + seq!['0']
        + "&endIndex="@ + seq!['1', '9']);
    let head = base + "/lol-match-history/v1/products/lol/"@ + path;
    assert(lcu::window_text(base, path) =~= head + "/matches?begIndex=0&endIndex=19"@);
}

/// The ids picked from the history are exactly those of listed games of ARAM:
/// Mayhem that are not known.
pub proof fn law_new_ids_are_mayhem_and_unknown(games: Seq<JsonView>, known: Set<i64>)
    ensures
        forall|id: i64| #[trigger]
            lcu::new_mayhem_ids(games, known).contains(id) <==> !known.contains(id) && exists|i: int|
                0 <= i < games.len() && lcu::is_mayhem(#[trigger] games[i])
                    && games[i].get_i64("gameId"@) == Some(id),
    decreases games.len(),
{
    reveal(Seq::filter_map);
    let ids = lcu::new_mayhem_ids(games, known);
    if games.len() > 0 {
        let rest = games.drop_last();
        law_new_ids_are_mayhem_and_unknown(rest, known);
        let before = lcu::new_mayhem_ids(rest, known);
        let last = games.len() - 1;
        let picked = lcu::new_mayhem_id(games[last], known);
        assert forall|id: i64| #[trigger] ids.contains(id) <==> !known.contains(id) && exists|i: int|
            0 <= i < games.len() && lcu::is_mayhem(#[trigger] games[i]) && games[i].get_i64(
                "gameId"@,
            ) == Some(id) by {
            if ids.contains(id) {
                let k = choose|k: int| 0 <= k < ids.len() && ids[k] == id;
                if k < before.len() {
                    assert(before[k] == id);
                    assert(before.contains(id));
                    let i = choose|i: int|
                        0 <= i < rest.len() && lcu::is_mayhem(#[trigger] rest[i])
                            && rest[i].get_i64("gameId"@) == Some(id);
                    assert(games[i] == rest[i]);
                } else {
                    assert(picked == Some(id));
                    assert(lcu::is_mayhem(games[last]));
                }
            }
            if !known.contains(id) && exists|i: int|
                0 <= i < games.len() && lcu::is_mayhem(#[trigger] games[i]) && games[i].get_i64(
                    "gameId"@,
                ) == Some(id) {
                let i = choose|i: int|
                    0 <= i < games.len() && lcu::is_mayhem(#[trigger] games[i])
                        && games[i].get_i64("gameId"@) == Some(id);
                if i < last {
                    assert(rest[i] == games[i]);
                    assert(before.contains(id));
                    let k = choose|k: int| 0 <= k < before.len() && before[k] == id;
                    assert(ids[k] == id);
                } else {
                    assert(picked == Some(id));
                    assert(ids[before.len() as int] == id);
                }
            }
        }
    }
}

/// A game under way has a positive id.
pub proof fn law_game_under_way_is_positive(session: JsonView)
    ensures
        lcu::game_under_way(session) matches Some(id) ==> id > 0,
{
}

/// There is an own participant wherever there are participants; and where an
/// identity that names the player leads to a participant, it is that one.
pub proof fn law_own_participant(game: GameView, puuid: Seq<char>)
    ensures
        payload::my_index(game, puuid) is None <==> game.participants.len() == 0,
        payload::my_index(game, puuid) matches Some(i) ==> 0 <= i < game.participants.len(),
        forall|k: int, p: int|
            #![trigger game.identities[k], game.participants[p]]
            first::is_first(
                game.identities,
                |i: IdentityView| payload::names_player(i, puuid),
                k,
            ) && 0 <= p < game.participants.len() && game.participants[p].participant_id
                == game.identities[k].participant_id ==> game.participants[payload::my_index(
                game,
                puuid,
            )->0].participant_id == game.identities[k].participant_id,
{
    let test = |i: IdentityView| payload::names_player(i, puuid);
    match first::first_item(game.identities, test) {
        Some(identity) => {
            let mine = |p: ParticipantView| p.participant_id == identity.participant_id;
            if first::first_index(game.participants, mine) is Some {
                let i = choose|i: int| first::is_first(game.participants, mine, i);
                assert(first::is_first(game.participants, mine, i));
            }
        },
        None => {},
    }
    assert forall|k: int, p: int|
        #![trigger game.identities[k], game.participants[p]]
        first::is_first(game.identities, test, k) && 0 <= p < game.participants.len()
            && game.participants[p].participant_id
            == game.identities[k].participant_id implies game.participants[payload::my_index(
        game,
        puuid,
    )->0].participant_id == game.identities[k].participant_id by {
        first::lemma_first_is(game.identities, test, k);
        let identity = game.identities[k];
        let mine = |q: ParticipantView| q.participant_id == identity.participant_id;
        first::lemma_first_some(game.participants, mine, p);
    }
}

/// Whether a name is that of the client, in whatever case.
pub open spec fn named_client(name: Seq<char>) -> bool {
    text_laws::same_letters(name, "LeagueClientUx.exe"@) || text_laws::same_letters(
        name,
        "LeagueClientUx"@,
    )
}

/// Whether argument `k` is the last that begins with a prefix, and what follows
/// the prefix in it is `value`.
pub open spec fn last_given(cmd: Seq<String>, prefix: Seq<char>, k: int, value: Seq<char>) -> bool {
    &&& 0 <= k < cmd.len()
    &&& cmd[k]@ == prefix + value
    &&& forall|j: int, other: Seq<char>|
        #![trigger cmd[j], prefix + other]
        k < j < cmd.len() ==> cmd[j]@ != prefix + other
}

/// Whether a process is the client and tells how to reach it: the last argument
/// for the port writes the port, and the last one for the token holds the token.
/// It does not matter which of the two comes first.
pub open spec fn tells(process: ProcessInfo, port: u16, token: Seq<char>) -> bool {
    &&& named_client(process.name@)
    &&& exists|k: int, written: Seq<char>, digits: Seq<char>|
        #![trigger last_given(process.cmd@, "--app-port="@, k, written), text_laws::writes_u16(written, digits, port)]
        last_given(process.cmd@, "--app-port="@, k, written) && text_laws::writes_u16(
            written,
            digits,
            port,
        )
    &&& exists|l: int| #[trigger]
        last_given(process.cmd@, "--remoting-auth-token="@, l, token)
}

/// The port and the token that stand last among the first arguments.
proof fn lemma_scan(cmd: Seq<String>)
    ensures
        forall|k: int, written: Seq<char>| #[trigger]
            last_given(cmd, "--app-port="@, k, written) ==> lcu::scan_args(lcu::args_view(cmd)).0
                == text::u16_of(written),
        lcu::scan_args(lcu::args_view(cmd)).0 is Some ==> exists|k: int, written: Seq<char>|
            #[trigger] last_given(cmd, "--app-port="@, k, written),
        forall|l: int, token: Seq<char>| #[trigger]
            last_given(cmd, "--remoting-auth-token="@, l, token) ==> lcu::scan_args(
                lcu::args_view(cmd),
            ).1 == Some(token),
        lcu::scan_args(lcu::args_view(cmd)).1 matches Some(token) ==> exists|l: int| #[trigger]
            last_given(cmd, "--remoting-auth-token="@, l, token),
    decreases cmd.len(),
{
    let args = lcu::args_view(cmd);
    let port_prefix = "--app-port="@;
    let token_prefix = "--remoting-auth-token="@;
    if cmd.len() > 0 {
        let rest = cmd.drop_last();
        let n = cmd.len() - 1;
        let last = cmd[n]@;
        lemma_scan(rest);
        assert(args.drop_last() =~= lcu::args_view(rest));
        assert(args.last() == last);
        text_laws::lemma_stripped(last, port_prefix);
        text_laws::lemma_stripped(last, token_prefix);
        assert(text::stripped(last, port_prefix) is Some ==> text::stripped(last, token_prefix)
            is None) by {
            reveal_strlit("--app-port=");
            reveal_strlit("--remoting-auth-token=");
            if let Some(v) = text::stripped(last, port_prefix) {
                if let Some(w) = text::stripped(last, token_prefix) {
                    assert((port_prefix + v)[2] == 'a');
                    assert((token_prefix + w)[2] == 'r');
                }
            }
        }
        lemma_last_given_step(cmd, port_prefix);
        lemma_last_given_step(cmd, token_prefix);
        assert forall|k: int, written: Seq<char>| #[trigger]
            last_given(cmd, port_prefix, k, written) implies lcu::scan_args(args).0
            == text::u16_of(written) by {
            if k == n {
            } else {
                assert(last_given(rest, port_prefix, k, written));
            }
        }
        if lcu::scan_args(args).0 is Some {
            if let Some(v) = text::stripped(last, port_prefix) {
                assert(last_given(cmd, port_prefix, n, v));
            } else {
                let (k, written) = choose|k: int, written: Seq<char>| #[trigger]
                    last_given(rest, port_prefix, k, written);
                assert(last_given(cmd, port_prefix, k, written));
            }
        }
        assert forall|l: int, token: Seq<char>| #[trigger]
            last_given(cmd, token_prefix, l, token) implies lcu::scan_args(args).1 == Some(
            token,
        ) by {
            if l == n {
            } else {
                assert(last_given(rest, token_prefix, l, token));
            }
        }
        if let Some(token) = lcu::scan_args(args).1 {
            if let Some(v) = text::stripped(last, token_prefix) {
                assert(last_given(cmd, token_prefix, n, v));
            } else {
                let l = choose|l: int| #[trigger] last_given(rest, token_prefix, l, token);
                assert(last_given(cmd, token_prefix, l, token));
            }
        }
    }
}

/// An argument more is the last given where it has the prefix, and else leaves
/// the last given as it was.
proof fn lemma_last_given_step(cmd: Seq<String>, prefix: Seq<char>)
    requires
        cmd.len() > 0,
    ensures
        forall|k: int, value: Seq<char>| #[trigger]
            last_given(cmd, prefix, k, value) && k < cmd.len() - 1 ==> last_given(
                cmd.drop_last(),
                prefix,
                k,
                value,
            ) && text::stripped(cmd[cmd.len() - 1]@, prefix) is None,
        forall|value: Seq<char>| #[trigger]
            last_given(cmd, prefix, cmd.len() - 1, value) <==> text::stripped(
                cmd[cmd.len() - 1]@,
                prefix,
            ) == Some(value),
        forall|k: int, value: Seq<char>| #[trigger]
            last_given(cmd.drop_last(), prefix, k, value) && text::stripped(
                cmd[cmd.len() - 1]@,
                prefix,
            ) is None ==> last_given(cmd, prefix, k, value),
{
    let rest = cmd.drop_last();
    let n = cmd.len() - 1;
    let last = cmd[n]@;
    text_laws::lemma_stripped(last, prefix);
    assert forall|k: int, value: Seq<char>| #[trigger] last_given(cmd, prefix, k, value) && k
        < n implies last_given(rest, prefix, k, value) && text::stripped(last, prefix) is None by {
        assert(rest[k] == cmd[k]);
        assert forall|j: int, other: Seq<char>|
            #![trigger rest[j], prefix + other]
            k < j < rest.len() implies rest[j]@ != prefix + other by {
            assert(rest[j] == cmd[j]);
        }
        if let Some(v) = text::stripped(last, prefix) {
            assert(cmd[n]@ == prefix + v);
        }
    }
    assert forall|k: int, value: Seq<char>| #[trigger] last_given(rest, prefix, k, value)
        && text::stripped(last, prefix) is None implies last_given(cmd, prefix, k, value) by {
        assert(rest[k] == cmd[k]);
        assert forall|j: int, other: Seq<char>|
            #![trigger cmd[j], prefix + other]
            k < j < cmd.len() implies cmd[j]@ != prefix + other by {
            if j < n {
                assert(rest[j] == cmd[j]);
            }
        }
    }
}

/// How to reach the client is read from a process exactly where the process is
/// the client and tells it.
pub proof fn law_credentials_are_what_the_client_tells(
    process: ProcessInfo,
    creds: Option<LcuCreds>,
)
    requires
        call_ensures(lcu::read_creds, (&process,), creds),
    ensures
        creds matches Some(creds) ==> tells(process, creds.port, creds.token@),
        creds is None ==> forall|port: u16, token: Seq<char>| !tells(process, port, token),
{
    lemma_creds(process);
}

/// What a process tells is what is read from it.
proof fn lemma_creds(process: ProcessInfo)
    ensures
        lcu::creds_in(process) matches Some(creds) ==> tells(process, creds.port, creds.token),
        forall|port: u16, token: Seq<char>| #[trigger]
            tells(process, port, token) ==> lcu::creds_in(process) == Some(
                CredsView { port, token },
            ),
{
    lemma_scan(process.cmd@);
    text_laws::lemma_same_letters(process.name@, "LeagueClientUx.exe"@);
    text_laws::lemma_same_letters(process.name@, "LeagueClientUx"@);
    if let Some(creds) = lcu::creds_in(process) {
        let (k, written) = choose|k: int, written: Seq<char>| #[trigger]
            last_given(process.cmd@, "--app-port="@, k, written);
        text_laws::lemma_u16(written);
        let digits = choose|digits: Seq<char>| text_laws::writes_u16(written, digits, creds.port);
        assert(last_given(process.cmd@, "--app-port="@, k, written) && text_laws::writes_u16(
            written,
            digits,
            creds.port,
        ));
    }
    assert forall|port: u16, token: Seq<char>| #[trigger] tells(process, port, token) implies
        lcu::creds_in(process) == Some(CredsView { port, token }) by {
        let (k, written, digits) = choose|k: int, written: Seq<char>, digits: Seq<char>|
            #![trigger last_given(process.cmd@, "--app-port="@, k, written), text_laws::writes_u16(written, digits, port)]
            last_given(process.cmd@, "--app-port="@, k, written) && text_laws::writes_u16(
                written,
                digits,
                port,
            );
        text_laws::lemma_u16(written);
        let l = choose|l: int| #[trigger]
            last_given(process.cmd@, "--remoting-auth-token="@, l, token);
        assert(last_given(process.cmd@, "--remoting-auth-token="@, l, token));
    }
}

/// The client is found exactly where a process is the client and tells how to
/// reach it, and then as the first such process tells.
pub proof fn law_first_client_that_tells_is_found(
    processes: Vec<ProcessInfo>,
    creds: Result<LcuCreds, LcuError>,
)
    requires
        call_ensures(lcu::discover_lcu, (&processes,), creds),
    ensures
        creds matches Ok(creds) ==> exists|i: int|
            0 <= i < processes@.len() && tells(
                #[trigger] processes@[i],
                creds.port,
                creds.token@,
            ) && forall|j: int, port: u16, token: Seq<char>|
                0 <= j < i ==> !#[trigger] tells(processes@[j], port, token),
        creds matches Err(e) ==> e is NotFound && forall|
            i: int,
            port: u16,
            token: Seq<char>,
        |
            0 <= i < processes@.len() ==> !#[trigger] tells(processes@[i], port, token),
{
    let test = |p: ProcessInfo| lcu::creds_in(p) is Some;
    let all = processes@;
    assert forall|i: int, port: u16, token: Seq<char>| 0 <= i < all.len() && #[trigger] tells(
        all[i],
        port,
        token,
    ) implies test(all[i]) by {
        lemma_creds(all[i]);
    }
    if creds is Ok {
        let i = choose|i: int| first::is_first(all, test, i);
        assert(first::is_first(all, test, i));
        lemma_creds(all[i]);
        assert(tells(all[i], creds->Ok_0.port, creds->Ok_0.token@));
    } else {
        assert forall|i: int, port: u16, token: Seq<char>| 0 <= i < all.len() implies !#[trigger] tells(
            all[i],
            port,
            token,
        ) by {
            if tells(all[i], port, token) {
                first::lemma_first_some(all, test, i);
                let f = choose|f: int| first::is_first(all, test, f);
                assert(first::is_first(all, test, f));
            }
        }
    }
}

/// A process is the client by its name alone, in whatever case.
pub proof fn law_client_is_known_by_name(name: &str, r: bool)
    requires
        call_ensures(lcu::is_client, (name,), r),
    ensures
        r <==> named_client(name@),
{
    text_laws::lemma_same_letters(name@, "LeagueClientUx.exe"@);
    text_laws::lemma_same_letters(name@, "LeagueClientUx"@);
}

/// Requests to the client go to its port on this machine, and are authorized as
/// the user `riot` with the token.
pub proof fn law_client_requests(creds: LcuCreds, client: LcuClient, port: String)
    requires
        call_ensures(lcu::build_lcu_client, (&creds,), client),
        call_ensures(text::unsigned_text, (creds.port as u64,), port),
    ensures
        client.base@ == "https://127.0.0.1:"@ + port@,
        client.authorization@ == "Basic "@ + lcu::base64_text("riot:"@ + creds.token@),
{
}

/// Each question to the client has its place.
pub proof fn law_client_urls(
    client: LcuClient,
    game_id: i64,
    path: &str,
    summoner: String,
    session: String,
    detail: String,
    window: String,
    id: String,
)
    requires
        call_ensures(lcu::summoner_url, (&client,), summoner),
        call_ensures(lcu::session_url, (&client,), session),
        call_ensures(lcu::detail_url, (&client, game_id), detail),
        call_ensures(lcu::window_url, (&client, path), window),
        call_ensures(text::signed_text, (game_id,), id),
    ensures
        summoner@ == client.base@ + "/lol-summoner/v1/current-summoner"@,
        session@ == client.base@ + "/lol-gameflow/v1/session"@,
        detail@ == client.base@ + "/lol-match-history/v1/games/"@ + id@,
        window@ == client.base@ + "/lol-match-history/v1/products/lol/"@ + path@
            + "/matches?begIndex=0&endIndex=19"@,
{
    law_window_is_fixed(client.base@, path@);
}

/// Two sessions of the client have the same key exactly where their ports and
/// tokens are the same.
pub proof fn law_session_keys(a: LcuCreds, b: LcuCreds, key_a: String, key_b: String)
    requires
        call_ensures(lcu::session_key, (&a,), key_a),
        call_ensures(lcu::session_key, (&b,), key_b),
    ensures
        key_a@ == key_b@ <==> a.port == b.port && a.token@ == b.token@,
{
    law_sessions_are_told_apart(a@, b@);
}

/// The history is asked for under the current summoner, and after a failure
/// once more under the player's unique id; a page that was read, or the second
/// failure, ends it.
pub proof fn law_history_is_asked_for_twice_at_most(
    puuid: &str,
    start: WindowFetch,
    fetch: WindowFetch,
    client: LcuClient,
    url: String,
    page: Result<Vec<Json>, LcuError>,
    step: WindowStep,
)
    requires
        call_ensures(WindowFetch::start, (puuid,), start),
        call_ensures(WindowFetch::url, (&fetch, &client), url),
        call_ensures(WindowFetch::fetch_default_window, (fetch, page), step),
    ensures
        start.puuid@ == puuid@ && !start.fell_back,
        !fetch.fell_back ==> url@ == client.base@
            + "/lol-match-history/v1/products/lol/"@ + "current-summoner"@
            + "/matches?begIndex=0&endIndex=19"@,
        fetch.fell_back ==> url@ == client.base@ + "/lol-match-history/v1/products/lol/"@
            + fetch.puuid@ + "/matches?begIndex=0&endIndex=19"@,
        page is Ok || fetch.fell_back ==> step == WindowStep::Done(page),
        page is Err && !fetch.fell_back ==> (step matches WindowStep::Again(next)
            && next.fell_back && next.puuid@ == fetch.puuid@),
{
    law_window_is_fixed(client.base@, "current-summoner"@);
    law_window_is_fixed(client.base@, fetch.puuid@);
}

/// An answer of the client counts where its status is from 200 to 299 and its
/// body was read; each other outcome is told apart.
pub proof fn law_answers_of_the_client(
    asked: Option<(Status, Option<Summoner>)>,
    summoner: Result<Summoner, LcuError>,
    game_id: i64,
    looked: Option<(Status, Option<GameDetail>)>,
    detail: Result<GameDetail, LcuError>,
)
    requires
        call_ensures(lcu::get_summoner, (asked,), summoner),
        call_ensures(lcu::get_game_detail, (game_id, looked), detail),
    ensures
        asked is None ==> summoner == Err::<Summoner, LcuError>(
            LcuError::Asking(LcuCall::Summoner),
        ),
        asked matches Some((status, answer)) ==> {
            if !(200 <= status@ <= 299) {
                summoner == Err::<Summoner, LcuError>(LcuError::Refused(LcuCall::Summoner, status))
            } else {
                match answer {
                    Some(player) => summoner == Ok::<Summoner, LcuError>(player),
                    None => summoner == Err::<Summoner, LcuError>(
                        LcuError::Reading(LcuCall::Summoner),
                    ),
                }
            }
        },
        looked is None ==> detail == Err::<GameDetail, LcuError>(
            LcuError::Asking(LcuCall::GameDetail { game_id }),
        ),
        looked matches Some((status, answer)) ==> {
            if !(200 <= status@ <= 299) {
                detail == Err::<GameDetail, LcuError>(
                    LcuError::Refused(LcuCall::GameDetail { game_id }, status),
                )
            } else {
                match answer {
                    Some(game) => detail == Ok::<GameDetail, LcuError>(game),
                    None => detail == Err::<GameDetail, LcuError>(
                        LcuError::Reading(LcuCall::GameDetail { game_id }),
                    ),
                }
            }
        },
{
}

/// What is said of each question to the client.
pub proof fn law_client_errors_in_words(e: LcuError, msg: String, game_id: i64, id: String)
    requires
        call_ensures(LcuError::message, (&e,), msg),
        call_ensures(text::signed_text, (game_id,), id),
    ensures
        e is NotFound ==> msg@ == "LeagueClientUx não encontrado — abra o cliente do LoL"@,
        e is Header ==> msg@ == "header de autenticação inválido"@,
        e is Client ==> msg@ == "construir cliente HTTP do LCU"@,
        e == LcuError::Asking(LcuCall::Summoner) ==> msg@
            == "GET /lol-summoner/v1/current-summoner"@,
        e == LcuError::Asking(LcuCall::GameflowSession) ==> msg@ == "GET /lol-gameflow/v1/session"@,
        e == LcuError::Asking(LcuCall::MatchHistory) ==> msg@ == "GET match history"@,
        e == LcuError::Asking(LcuCall::GameDetail { game_id }) ==> msg@ == "GET game detail"@,
        e == LcuError::Reading(LcuCall::Summoner) ==> msg@ == "parsear summoner"@,
        e == LcuError::Reading(LcuCall::GameflowSession) ==> msg@ == "parsear gameflow session"@,
        e == LcuError::Reading(LcuCall::MatchHistory) ==> msg@ == "parsear match history"@,
        e == LcuError::Reading(LcuCall::GameDetail { game_id }) ==> msg@ == "parsear game detail"@,
        e matches LcuError::Refused(LcuCall::Summoner, status) ==> msg@ == "LCU retornou "@
            + http::status_text(status@) + " em "@ + "/current-summoner"@,
        e matches LcuError::Refused(LcuCall::MatchHistory, status) ==> msg@ == "LCU retornou "@
            + http::status_text(status@) + " em "@ + "match history"@,
        e matches LcuError::Refused(LcuCall::GameDetail { game_id: g }, status) ==> g == game_id
            ==> msg@ == "LCU retornou "@ + http::status_text(status@) + " em "@ + ("/games/"@
            + id@),
{
}

/// Whether a gameflow session is in the game with an id: the integer, above 0,
/// under `gameId` of what it holds under `gameData`.
pub open spec fn in_game(session: JsonView, id: i64) -> bool {
    &&& id > 0
    &&& session.get("gameData"@) matches Some(data) && data.get("gameId"@) == Some(
        JsonView::Int(id as int),
    )
}

/// The game under way is the one that the session is in, and there is none
/// where it is in none.
pub proof fn law_game_under_way_is_read(
    session: Json,
    read: Option<i64>,
    exchange: Exchange,
    told: Result<Option<i64>, LcuError>,
)
    requires
        call_ensures(lcu::read_game_under_way, (&session,), read),
        call_ensures(lcu::get_current_game_id, (&exchange,), told),
    ensures
        forall|id: i64| read == Some(id) <==> #[trigger] in_game(session@, id),
        exchange is Err ==> told == Err::<Option<i64>, LcuError>(
            LcuError::Asking(LcuCall::GameflowSession),
        ),
        exchange matches Ok(reply) ==> {
            let doc = reply_laws::document(reply.body);
            if !(200 <= reply.status@ <= 299) {
                told == Ok::<Option<i64>, LcuError>(None)
            } else if doc is None {
                told == Err::<Option<i64>, LcuError>(LcuError::Reading(LcuCall::GameflowSession))
            } else {
                told is Ok && forall|id: i64|
                    told->Ok_0 == Some(id) <==> #[trigger] in_game(doc->0, id)
            }
        },
{
}

/// The games of a page: the list under `games`, or the list under `games` of
/// what stands there; none where neither is a list.
pub open spec fn listed(page: JsonView) -> Seq<JsonView> {
    match page.get("games"@) {
        Some(outer) => match outer.get("games"@) {
            Some(JsonView::List(games)) => games,
            Some(_) => Seq::empty(),
            None => match outer {
                JsonView::List(games) => games,
                _ => Seq::empty(),
            },
        },
        None => Seq::empty(),
    }
}

/// The games of a page are read in order, in both shapes of a page.
pub proof fn law_pages_are_read(
    page: Json,
    games: Vec<Json>,
    exchange: Exchange,
    fetched: Result<Vec<Json>, LcuError>,
)
    requires
        call_ensures(lcu::read_games, (&page,), games),
        call_ensures(lcu::fetch_history_page, (&exchange,), fetched),
    ensures
        games@.len() == listed(page@).len(),
        forall|i: int| 0 <= i < games@.len() ==> (#[trigger] games@[i])@ == listed(page@)[i],
        exchange is Err ==> fetched == Err::<Vec<Json>, LcuError>(
            LcuError::Asking(LcuCall::MatchHistory),
        ),
        exchange matches Ok(reply) ==> {
            let doc = reply_laws::document(reply.body);
            if !(200 <= reply.status@ <= 299) {
                fetched == Err::<Vec<Json>, LcuError>(
                    LcuError::Refused(LcuCall::MatchHistory, reply.status),
                )
            } else if doc is None {
                fetched == Err::<Vec<Json>, LcuError>(LcuError::Reading(LcuCall::MatchHistory))
            } else {
                &&& fetched is Ok
                &&& fetched->Ok_0@.len() == listed(doc->0).len()
                &&& forall|i: int|
                    0 <= i < fetched->Ok_0@.len() ==> (#[trigger] fetched->Ok_0@[i])@ == listed(
                        doc->0,
                    )[i]
            }
        },
{
    json::lemma_list_view(games@);
    if fetched is Ok {
        json::lemma_list_view(fetched->Ok_0@);
    }
}

/// Whether a listed game was played in the queue 2400 and has an id.
pub open spec fn mayhem_game(game: JsonView, id: i64) -> bool {
    game.get("queueId"@) == Some(JsonView::Int(2400)) && game.get("gameId"@) == Some(
        JsonView::Int(id as int),
    )
}

/// An id is picked from the history if and only if it is not known and a listed
/// game of the queue 2400 has it.
pub proof fn law_recent_ids_are_unknown_mayhem_games(
    games: Vec<Json>,
    known: HashSet<i64>,
    ids: Vec<i64>,
    id: i64,
)
    requires
        call_ensures(lcu::get_recent_mayhem_ids, (&games, &known), ids),
    ensures
        ids@.contains(id) <==> !known@.contains(id) && exists|i: int|
            0 <= i < games@.len() && mayhem_game((#[trigger] games@[i])@, id),
{
    let all = json::list_view(games@);
    json::lemma_list_view(games@);
    law_new_ids_are_mayhem_and_unknown(all, known@);
    assert(lcu::new_mayhem_ids(all, known@).contains(id) <==> ids@.contains(id));
    if exists|i: int| 0 <= i < games@.len() && mayhem_game((#[trigger] games@[i])@, id) {
        let i = choose|i: int| 0 <= i < games@.len() && mayhem_game((#[trigger] games@[i])@, id);
        assert(all[i] == games@[i]@);
        assert(lcu::is_mayhem(all[i]) && all[i].get_i64("gameId"@) == Some(id));
    }
    if exists|i: int|
        0 <= i < all.len() && lcu::is_mayhem(#[trigger] all[i]) && all[i].get_i64("gameId"@)
            == Some(id) {
        let i = choose|i: int|
            0 <= i < all.len() && lcu::is_mayhem(#[trigger] all[i]) && all[i].get_i64("gameId"@)
                == Some(id);
        assert(mayhem_game(games@[i]@, id));
    }
}

/// One listed game more adds its id at the end where it was played in the queue
/// 2400 and is not known, and else nothing; from nothing, nothing is picked.
pub proof fn law_recent_ids_follow_the_list(
    games: Vec<Json>,
    more: Vec<Json>,
    known: HashSet<i64>,
    ids: Vec<i64>,
    more_ids: Vec<i64>,
)
    requires
        call_ensures(lcu::get_recent_mayhem_ids, (&games, &known), ids),
        call_ensures(lcu::get_recent_mayhem_ids, (&more, &known), more_ids),
        more@.len() == games@.len() + 1,
        forall|i: int| 0 <= i < games@.len() ==> (#[trigger] more@[i])@ == games@[i]@,
    ensures
        games@.len() == 0 ==> ids@.len() == 0,
        forall|id: i64| #[trigger]
            mayhem_game(more@[games@.len() as int]@, id) && !known@.contains(id) ==> more_ids@
                == ids@.push(id),
        (forall|id: i64| #[trigger]
            mayhem_game(more@[games@.len() as int]@, id) ==> known@.contains(id)) ==> more_ids@
            == ids@,
{
    reveal(Seq::filter_map);
    json::lemma_list_view(games@);
    json::lemma_list_view(more@);
    let all = json::list_view(games@);
    let longer = json::list_view(more@);
    let last = more@[games@.len() as int]@;
    assert(longer.drop_last() =~= all);
    assert(longer.last() == last);
    if let Some(id) = lcu::new_mayhem_id(last, known@) {
        assert(mayhem_game(last, id));
    }
}

/// Whether listed game `i` is the first of the queue 2400 that has an id.
pub open spec fn first_mayhem(games: Seq<Json>, i: int, id: i64) -> bool {
    &&& 0 <= i < games.len()
    &&& mayhem_game(games[i]@, id)
    &&& forall|j: int, other: i64|
        0 <= j < i ==> !#[trigger] mayhem_game(games[j]@, other)
}

/// The newest game of ARAM: Mayhem is the first listed one of the queue 2400
/// that has an id. Where there is none, none is picked, or the first listed game
/// of any queue, by whatever id it has.
pub proof fn law_newest_game(
    games: Vec<Json>,
    newest: Option<i64>,
    latest: Option<i64>,
)
    requires
        call_ensures(lcu::get_newest_mayhem_game_id, (&games,), newest),
        call_ensures(lcu::get_latest_mayhem_game_id, (&games,), latest),
    ensures
        newest matches Some(id) ==> exists|i: int| first_mayhem(games@, i, id),
        newest is None ==> forall|i: int, id: i64|
            0 <= i < games@.len() ==> !#[trigger] mayhem_game(games@[i]@, id),
        newest is Some ==> latest == newest,
        newest is None && games@.len() == 0 ==> latest is None,
        newest is None && games@.len() > 0 ==> match games@[0]@.get("gameId"@) {
            Some(JsonView::Int(n)) if i64::MIN <= n <= i64::MAX => latest == Some(n as i64),
            _ => latest is None,
        },
{
    json::lemma_list_view(games@);
    let all = json::list_view(games@);
    let test = |game: JsonView| lcu::is_mayhem(game) && game.get_i64("gameId"@) is Some;
    assert forall|i: int, id: i64| 0 <= i < games@.len() && #[trigger] mayhem_game(
        games@[i]@,
        id,
    ) implies test(all[i]) by {
        assert(all[i] == games@[i]@);
    }
    if newest is Some {
        let i = choose|i: int| first::is_first(all, test, i);
        assert(first::is_first(all, test, i));
        assert(all[i] == games@[i]@);
        let id = newest->0;
        assert forall|j: int, other: i64| 0 <= j < i implies !#[trigger] mayhem_game(
            games@[j]@,
            other,
        ) by {
            assert(all[j] == games@[j]@);
            assert(!test(all[j]));
        }
        assert(first_mayhem(games@, i, id));
    } else {
        assert forall|i: int, id: i64| 0 <= i < games@.len() implies !#[trigger] mayhem_game(
            games@[i]@,
            id,
        ) by {
            if mayhem_game(games@[i]@, id) {
                assert(all[i] == games@[i]@);
                assert(test(all[i]));
                first::lemma_first_some(all, test, i);
                let f = choose|f: int| first::is_first(all, test, f);
                assert(first::is_first(all, test, f));
            }
        }
        if games@.len() > 0 {
            assert(all[0] == games@[0]@);
        }
    }
}

} // verus!
