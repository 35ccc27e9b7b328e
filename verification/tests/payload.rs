use adg_companion::game::{GameDetail, Participant, ParticipantIdentity, PlayerIdentity};
use adg_companion::json::Json;
use adg_companion::payload::{
    build_match_payload, build_participant, find_my_participant, opt_int,
};

fn doc(text: &str) -> Json {
    Json::parse(text.as_bytes()).unwrap()
}

fn value(text: &str) -> serde_json::Value {
    serde_json::from_str(text).unwrap()
}

fn player(puuid: &str, game_name: &str, tag_line: &str, summoner_name: &str) -> PlayerIdentity {
    PlayerIdentity {
        puuid: puuid.to_string(),
        game_name: game_name.to_string(),
        tag_line: tag_line.to_string(),
        summoner_name: summoner_name.to_string(),
    }
}

fn participant(participant_id: i64, stats: Option<Json>) -> Participant {
    Participant { participant_id, champion_id: 100 + participant_id, stats }
}

fn identity(participant_id: i64, player: Option<PlayerIdentity>) -> ParticipantIdentity {
    ParticipantIdentity { participant_id, player }
}

fn game() -> GameDetail {
    GameDetail {
        game_id: 555,
        game_creation: 1700000000000,
        game_duration: 1200,
        participant_identities: vec![
            identity(1, None),
            identity(2, Some(player("me", "", "BR1", "Antigo"))),
            identity(3, Some(player("other", "Nome", "BR2", "x"))),
        ],
        participants: vec![
            participant(1, None),
            participant(
                2,
                Some(doc(
                    r#"{"win":true,"kills":9,"item0":3,"item2":5,"item6":7,"playerAugment1":11,
                        "playerAugment3":12,"playerAugment6":13,"totalDamageDealtToChampions":42,
                        "largestKillingSpree":4,"killingSprees":2,"longestTimeSpentLiving":60,
                        "goldEarned":1000,"goldSpent":900,"timeCCingOthers":8,"champLevel":18}"#,
                )),
            ),
            participant(3, Some(doc(r#"{"win":1,"deaths":2.5}"#))),
        ],
    }
}

#[test]
fn a_missing_statistic_is_zero() {
    let stats = doc(r#"{"kills":3,"deaths":"4","ratio":0.5}"#);
    assert_eq!(opt_int(&stats, "kills"), 3);
    assert_eq!(opt_int(&stats, "deaths"), 0);
    assert_eq!(opt_int(&stats, "ratio"), 0);
    assert_eq!(opt_int(&stats, "assists"), 0);
    assert_eq!(opt_int(&Json::Null, "kills"), 0);
}

#[test]
fn a_participant_is_reported_field_by_field() {
    let game = game();
    let ident = game.participant_identities[1].player.as_ref();
    let payload = build_participant(&game.participants[1], ident).to_value();
    let raw = game.participants[1].stats.as_ref().unwrap().to_value();
    let mut expected = value(
        r#"{"participantId":2,"puuid":"me","gameName":"Antigo","tagLine":"BR1","championId":102,
            "win":true,"kills":9,"deaths":0,"assists":0,"totalDamageToChampions":42,"totalHeal":0,
            "damageSelfMitigated":0,"gold":1000,"augments":[11,12,13],"items":[3,5,7],
            "doubleKills":0,"tripleKills":0,"quadraKills":0,"pentaKills":0,"damageDealt":42,
            "damageTaken":0,"totalDamageDealt":0,"physicalDmgChamps":0,"magicDmgChamps":0,
            "trueDmgChamps":0,"totalUnitsHealed":0,"goldSpent":900,"largestMultiKill":0,
            "largestCriticalStrike":0,"killingSpree":4,"killingSprees":2,"longestTimeLiving":60,
            "timeCcing":8,"totalCcDealt":0,"visionScore":0,"totalMinions":0,"neutralMinions":0,
            "champLevel":18}"#,
    );
    expected["raw"] = raw;
    assert_eq!(payload, expected);
}

#[test]
fn a_participant_without_identity_or_statistics_is_blank() {
    let payload = build_participant(&participant(1, None), None).to_value();
    assert_eq!(payload["puuid"], value(r#""""#));
    assert_eq!(payload["gameName"], value(r#""""#));
    assert_eq!(payload["items"], value("[]"));
    assert_eq!(payload["win"], value("false"));
    assert_eq!(payload["raw"], value("{}"));
}

#[test]
fn a_win_is_true_or_one() {
    let win = |stats: &str| {
        build_participant(&participant(1, Some(doc(stats))), None).to_value()["win"].clone()
    };
    assert_eq!(win(r#"{"win":true}"#), value("true"));
    assert_eq!(win(r#"{"win":1}"#), value("true"));
    assert_eq!(win(r#"{"win":2}"#), value("false"));
    assert_eq!(win(r#"{"win":1.0}"#), value("false"));
    assert_eq!(win(r#"{"win":"Win"}"#), value("false"));
    assert_eq!(win("{}"), value("false"));
}

#[test]
fn a_game_is_reported_with_its_whole_team() {
    let game = game();
    let mine = find_my_participant(&game, "me").unwrap();
    let payload = build_match_payload(&game, mine).to_value();
    assert_eq!(payload["gameId"], value("555"));
    assert_eq!(payload["gameCreation"], value("1700000000000"));
    assert_eq!(payload["gameDuration"], value("1200"));
    assert_eq!(payload["championId"], value("102"));
    assert_eq!(payload["items"], value("[3,0,5,0,0,0,7]"));
    assert_eq!(payload["augments"], value("[11,12,13]"));
    assert_eq!(payload["killingSpree"], value("4"));
    assert_eq!(payload["damageDealt"], value("42"));
    assert_eq!(payload["totalDamageToChampions"], value("42"));
    assert_eq!(payload["raw"], mine.stats.as_ref().unwrap().to_value());
    assert_eq!(payload.as_object().unwrap().len(), 39);
    let team = payload["participants"].as_array().unwrap();
    assert_eq!(team.len(), 3);
    assert_eq!(team[0]["puuid"], value(r#""""#));
    assert_eq!(team[1]["gameName"], value(r#""Antigo""#));
    assert_eq!(team[2]["gameName"], value(r#""Nome""#));
    assert_eq!(team[2]["tagLine"], value(r#""BR2""#));
    assert_eq!(team[2]["win"], value("true"));
    assert_eq!(team[1].as_object().unwrap().len(), 39);
}

#[test]
fn the_first_identity_with_an_id_counts() {
    let mut game = game();
    game.participant_identities.insert(0, identity(3, None));
    let payload = build_match_payload(&game, &game.participants[0]).to_value();
    assert_eq!(payload["participants"][2]["puuid"], value(r#""""#));
}

#[test]
fn the_own_participant_is_found_by_puuid() {
    let mut game = game();
    assert_eq!(find_my_participant(&game, "me").unwrap().participant_id, 2);
    assert_eq!(find_my_participant(&game, "other").unwrap().participant_id, 3);
    assert_eq!(find_my_participant(&game, "nobody").unwrap().participant_id, 1);
    game.participants.remove(1);
    assert_eq!(find_my_participant(&game, "me").unwrap().participant_id, 1);
    game.participants.clear();
    assert!(find_my_participant(&game, "me").is_none());
}
