use adg_companion::game::{GameDetail, Participant};
use adg_companion::http::{Exchange, Reply, Status};
use adg_companion::json::Json;
use adg_companion::lcu::{
    build_lcu_client, detail_url, discover_lcu, fetch_history_page, get_current_game_id,
    get_game_detail, get_latest_mayhem_game_id, get_recent_mayhem_ids, get_summoner, is_client,
    read_creds,
    read_game_under_way, read_games, session_key, session_url, summoner_url, LcuCreds, LcuError,
    ProcessInfo, Summoner, WindowFetch, WindowStep,
};
use adg_companion::liveclient::{
    champion_stats, game_mode, is_mayhem_in_game, live_url, read_champion_stats, read_game_mode,
    ACTIVE_PLAYER_PATH, GAME_STATS_PATH,
};
use std::collections::HashSet;

fn doc(text: &str) -> Json {
    Json::parse(text.as_bytes()).unwrap()
}

fn docs(text: &str) -> Vec<Json> {
    match doc(text) {
        Json::List(items) => items,
        other => panic!("{other:?}"),
    }
}

fn status(code: u16) -> Status {
    Status::from_u16(code).unwrap()
}

fn answered(code: u16, body: &str) -> Exchange {
    Ok(Reply { status: status(code), body: Ok(body.as_bytes().to_vec()) })
}

fn process(name: &str, cmd: &[&str]) -> ProcessInfo {
    ProcessInfo {
        name: name.to_string(),
        cmd: cmd.iter().map(|s| s.to_string()).collect(),
    }
}

fn creds(port: u16, token: &str) -> LcuCreds {
    LcuCreds { port, token: token.to_string() }
}

#[test]
fn the_client_is_found_by_its_arguments() {
    let processes = vec![
        process("explorer.exe", &["--app-port=1", "--remoting-auth-token=no"]),
        process("LeagueClientUx.exe", &["--app-port=abc", "--remoting-auth-token=no"]),
        process(
            "leagueclientux.EXE",
            &["x", "--app-port=51234", "--remoting-auth-token=s3cr=t", "--no-rads"],
        ),
        process("LeagueClientUx", &["--app-port=2", "--remoting-auth-token=late"]),
    ];
    let found = discover_lcu(&processes).unwrap();
    assert_eq!(found.port, 51234);
    assert_eq!(found.token, "s3cr=t");
}

#[test]
fn the_last_argument_decides() {
    let found = discover_lcu(&vec![process(
        "LeagueClientUx",
        &["--app-port=1", "--remoting-auth-token=a", "--app-port=2", "--remoting-auth-token=b"],
    )])
    .unwrap();
    assert_eq!((found.port, found.token.as_str()), (2, "b"));
    assert!(discover_lcu(&vec![process(
        "LeagueClientUx",
        &["--app-port=1", "--remoting-auth-token=a", "--app-port=70000"],
    )])
    .is_err());
}

#[test]
fn without_a_client_there_are_no_credentials() {
    let e = discover_lcu(&Vec::new()).unwrap_err();
    assert!(matches!(e, LcuError::NotFound));
    assert_eq!(e.message(), "LeagueClientUx não encontrado — abra o cliente do LoL");
}

#[test]
fn requests_are_authorized_by_the_token() {
    let client = build_lcu_client(&creds(51234, "abc"));
    assert_eq!(client.authorization, "Basic cmlvdDphYmM=");
    assert_eq!(client.base, "https://127.0.0.1:51234");
    assert_eq!(
        summoner_url(&client),
        "https://127.0.0.1:51234/lol-summoner/v1/current-summoner"
    );
    assert_eq!(session_url(&client), "https://127.0.0.1:51234/lol-gameflow/v1/session");
    assert_eq!(
        detail_url(&client, 77),
        "https://127.0.0.1:51234/lol-match-history/v1/games/77"
    );
    let odd = build_lcu_client(&creds(1, "çã\n"));
    assert!(odd.authorization.chars().all(|c| (' '..='~').contains(&c)));
}

#[test]
fn sessions_are_told_apart() {
    assert_eq!(session_key(&creds(80, "t")), "80:t");
    assert_ne!(session_key(&creds(8, "0:t")), session_key(&creds(80, ":t")));
}

#[test]
fn the_window_is_asked_for_twice_at_most() {
    let client = build_lcu_client(&creds(9, "t"));
    let fetch = WindowFetch::start("pu");
    assert_eq!(
        fetch.url(&client),
        "https://127.0.0.1:9/lol-match-history/v1/products/lol/current-summoner/matches?begIndex=0&endIndex=19"
    );
    let failed = || fetch_history_page(&answered(404, ""));
    let fetch = match fetch.fetch_default_window(failed()) {
        WindowStep::Again(fetch) => fetch,
        other => panic!("{other:?}"),
    };
    assert_eq!(
        fetch.url(&client),
        "https://127.0.0.1:9/lol-match-history/v1/products/lol/pu/matches?begIndex=0&endIndex=19"
    );
    match fetch.fetch_default_window(failed()) {
        WindowStep::Done(Err(e)) => {
            assert_eq!(e.message(), "LCU retornou 404 Not Found em match history")
        }
        other => panic!("{other:?}"),
    }
    match WindowFetch::start("pu").fetch_default_window(Ok(docs("[1]"))) {
        WindowStep::Done(Ok(games)) => assert_eq!(games.len(), 1),
        other => panic!("{other:?}"),
    }
}

#[test]
fn both_shapes_of_a_page_are_read() {
    assert_eq!(read_games(&doc(r#"{"games":{"games":[1,2]}}"#)).len(), 2);
    assert_eq!(read_games(&doc(r#"{"games":[1]}"#)).len(), 1);
    assert_eq!(read_games(&doc(r#"{"games":{"games":3}}"#)).len(), 0);
    assert_eq!(read_games(&doc(r#"{"games":{"other":[]}}"#)).len(), 0);
    assert_eq!(read_games(&doc("[]")).len(), 0);
    let page = fetch_history_page(&answered(200, r#"{"games":{"games":[{"gameId":8}]}}"#)).unwrap();
    assert_eq!(page[0].get_i64("gameId"), Some(8));
    assert_eq!(
        fetch_history_page(&answered(200, "x")).unwrap_err().message(),
        "parsear match history"
    );
    assert_eq!(
        fetch_history_page(&Err("x".to_string())).unwrap_err().message(),
        "GET match history"
    );
}

#[test]
fn only_new_games_of_mayhem_are_picked() {
    let games = docs(
        r#"[{"queueId":2400,"gameId":1},{"queueId":450,"gameId":2},{"queueId":2400,"gameId":3},
            {"queueId":2400},{"gameId":5},{"queueId":2400,"gameId":6},{"queueId":2400,"gameId":6},
            {"queueId":2400,"gameId":"7"},8]"#,
    );
    let known: HashSet<i64> = [3].into_iter().collect();
    assert_eq!(get_recent_mayhem_ids(&games, &known), vec![1, 6, 6]);
    assert_eq!(get_recent_mayhem_ids(&Vec::new(), &known), Vec::<i64>::new());
}

#[test]
fn the_newest_game_of_mayhem_is_picked() {
    assert_eq!(
        get_latest_mayhem_game_id(&docs(
            r#"[{"queueId":450,"gameId":1},{"queueId":2400},{"queueId":2400,"gameId":3},{"queueId":2400,"gameId":4}]"#
        )),
        Some(3)
    );
    assert_eq!(
        get_latest_mayhem_game_id(&docs(r#"[{"queueId":450,"gameId":1},{"gameId":2}]"#)),
        Some(1)
    );
    assert_eq!(get_latest_mayhem_game_id(&docs(r#"[{"queueId":450},{"gameId":2}]"#)), None);
    assert_eq!(get_latest_mayhem_game_id(&Vec::new()), None);
}

#[test]
fn the_game_under_way_has_a_positive_id() {
    let body = |id: &str| format!(r#"{{"gameData":{{"gameId":{id}}}}}"#);
    assert_eq!(get_current_game_id(&answered(200, &body("12"))).unwrap(), Some(12));
    assert_eq!(get_current_game_id(&answered(200, &body("0"))).unwrap(), None);
    assert_eq!(get_current_game_id(&answered(200, &body("-1"))).unwrap(), None);
    assert_eq!(get_current_game_id(&answered(200, "{}")).unwrap(), None);
    assert_eq!(get_current_game_id(&answered(404, "{}")).unwrap(), None);
    assert_eq!(read_game_under_way(&doc(&body("9"))), Some(9));
    assert_eq!(
        get_current_game_id(&answered(200, "x")).unwrap_err().message(),
        "parsear gameflow session"
    );
    assert_eq!(
        get_current_game_id(&Err("x".to_string())).unwrap_err().message(),
        "GET /lol-gameflow/v1/session"
    );
}

#[test]
fn answers_are_settled() {
    let player = Summoner {
        puuid: "p".to_string(),
        game_name: "g".to_string(),
        tag_line: "t".to_string(),
    };
    assert_eq!(get_summoner(Some((status(200), Some(player)))).unwrap().puuid, "p");
    assert_eq!(
        get_summoner(Some((status(200), None))).unwrap_err().message(),
        "parsear summoner"
    );
    assert_eq!(
        get_summoner(Some((status(500), None))).unwrap_err().message(),
        "LCU retornou 500 Internal Server Error em /current-summoner"
    );
    assert_eq!(
        get_summoner(None).unwrap_err().message(),
        "GET /lol-summoner/v1/current-summoner"
    );
    let game = GameDetail {
        game_id: 4,
        game_creation: 0,
        game_duration: 0,
        participant_identities: Vec::new(),
        participants: vec![Participant { participant_id: 1, champion_id: 2, stats: None }],
    };
    assert_eq!(get_game_detail(4, Some((status(200), Some(game)))).unwrap().game_id, 4);
    assert_eq!(
        get_game_detail(-4, Some((status(404), None))).unwrap_err().message(),
        "LCU retornou 404 Not Found em /games/-4"
    );
    assert_eq!(get_game_detail(4, None).unwrap_err().message(), "GET game detail");
    assert_eq!(
        get_game_detail(4, Some((status(200), None))).unwrap_err().message(),
        "parsear game detail"
    );
    assert_eq!(LcuError::Header.message(), "header de autenticação inválido");
    assert_eq!(LcuError::Client.message(), "construir cliente HTTP do LCU");
}

#[test]
fn mayhem_is_known_by_its_mode() {
    assert_eq!(live_url(GAME_STATS_PATH), "https://127.0.0.1:2999/liveclientdata/gamestats");
    assert_eq!(live_url(ACTIVE_PLAYER_PATH), "https://127.0.0.1:2999/liveclientdata/activeplayer");
    let kiwi = game_mode(&answered(200, r#"{"gameMode":"KIWI"}"#));
    assert_eq!(kiwi.as_deref(), Some("KIWI"));
    assert!(is_mayhem_in_game(&kiwi));
    assert!(!is_mayhem_in_game(&game_mode(&answered(200, r#"{"gameMode":"CHERRY"}"#))));
    assert!(!is_mayhem_in_game(&game_mode(&answered(200, r#"{"gameMode":1}"#))));
    assert!(!is_mayhem_in_game(&game_mode(&answered(404, r#"{"gameMode":"KIWI"}"#))));
    assert!(!is_mayhem_in_game(&game_mode(&Err("x".to_string()))));
    assert_eq!(read_game_mode(&doc(r#"{"gameMode":"ARAM"}"#)).as_deref(), Some("ARAM"));
}

#[test]
fn the_build_is_passed_on_as_it_is() {
    let stats = champion_stats(&answered(200, r#"{"championStats":{"armor":30.5},"level":3}"#));
    assert_eq!(
        stats.unwrap().to_value(),
        serde_json::from_str::<serde_json::Value>(r#"{"armor":30.5}"#).unwrap()
    );
    assert!(champion_stats(&answered(200, "{}")).is_none());
    assert!(champion_stats(&answered(500, r#"{"championStats":{}}"#)).is_none());
    assert!(read_champion_stats(&doc(r#"{"championStats":null}"#)).is_some());
}

#[test]
fn a_client_may_not_tell_how_to_reach_it() {
    assert!(is_client("leagueCLIENTux") && is_client("LeagueClientUx.exe"));
    assert!(!is_client("LeagueClient.exe"));
    let silent = process("LeagueClientUx.exe", &["--app-port=80"]);
    assert!(read_creds(&silent).is_none());
    let other = process("x", &["--app-port=80", "--remoting-auth-token=t"]);
    assert!(read_creds(&other).is_none());
    let client = process("LeagueClientUx", &["--app-port=80", "--remoting-auth-token=t"]);
    assert_eq!(read_creds(&client).unwrap().port, 80);
}
