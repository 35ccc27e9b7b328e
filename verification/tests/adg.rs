use adg_companion::adg::{
    error_from, login, login_request, matches_request, post_matches, post_snapshot, read_inserted,
    read_token, refuse, snapshot_request, transient, AdgError,
};
use adg_companion::http::{Exchange, Reply, Status};
use adg_companion::json::Json;

fn value(text: &str) -> serde_json::Value {
    serde_json::from_str(text).unwrap()
}

fn doc(text: &str) -> Json {
    Json::from_value(value(text))
}

fn reply(code: u16, body: &str) -> Reply {
    Reply {
        status: Status::from_u16(code).unwrap(),
        body: Ok(body.as_bytes().to_vec()),
    }
}

fn answered(code: u16, body: &str) -> Exchange {
    Ok(reply(code, body))
}

#[test]
fn status_codes_have_three_digits() {
    assert!(Status::from_u16(99).is_none());
    assert!(Status::from_u16(1000).is_none());
    let ok = Status::from_u16(200).unwrap();
    assert_eq!(ok.code(), 200);
    assert_eq!(ok.text(), "200 OK");
    assert_eq!(Status::from_u16(799).unwrap().text(), "799 <unknown status code>");
}

#[test]
fn success_and_blame_follow_the_hundreds() {
    for code in 100..=999 {
        let status = Status::from_u16(code).unwrap();
        let theirs = reqwest::StatusCode::from_u16(code).unwrap();
        assert_eq!(status.is_success(), theirs.is_success());
        assert_eq!(status.is_client_error(), theirs.is_client_error());
        assert_eq!(status.text(), theirs.to_string());
    }
}

#[test]
fn an_update_is_required_at_426() {
    let e = error_from(&reply(
        426,
        r#"{"minVersion":"1.2.3","downloadUrl":"https://x/y","error":"old"}"#,
    ));
    assert_eq!(e.message(), "Atualização obrigatória do companion (mínima 1.2.3)");
    match e {
        AdgError::UpdateRequired { min_version, download_url } => {
            assert_eq!(min_version, "1.2.3");
            assert_eq!(download_url.as_deref(), Some("https://x/y"));
        }
        other => panic!("{other:?}"),
    }
    match error_from(&reply(426, "no json")) {
        AdgError::UpdateRequired { min_version, download_url } => {
            assert_eq!(min_version, "?");
            assert_eq!(download_url, None);
        }
        other => panic!("{other:?}"),
    }
}

#[test]
fn a_refusal_that_blames_the_client_is_permanent() {
    match error_from(&reply(400, r#"{"error":"payload inválido"}"#)) {
        AdgError::Permanent(msg) => assert_eq!(msg, "400 Bad Request: payload inválido"),
        other => panic!("{other:?}"),
    }
    match refuse(Status::from_u16(404).unwrap(), &doc(r#"{"error":7}"#)) {
        AdgError::Permanent(msg) => assert_eq!(msg, "404 Not Found: erro desconhecido"),
        other => panic!("{other:?}"),
    }
}

#[test]
fn any_other_refusal_is_transient() {
    match error_from(&reply(503, "")) {
        AdgError::Transient(msg) => {
            assert_eq!(msg, "503 Service Unavailable: erro desconhecido")
        }
        other => panic!("{other:?}"),
    }
    assert!(matches!(error_from(&reply(302, "{}")), AdgError::Transient(_)));
}

#[test]
fn a_failed_transport_is_transient() {
    assert_eq!(transient("POST /x", "timeout").message(), "POST /x: timeout");
    match login(&Err("error sending request".to_string())) {
        Err(AdgError::Transient(msg)) => {
            assert_eq!(msg, "POST /api/auth/login: error sending request")
        }
        other => panic!("{other:?}"),
    }
}

#[test]
fn login_hands_over_the_token() {
    assert_eq!(login(&answered(200, r#"{"token":"abc"}"#)).unwrap(), "abc");
    match login(&answered(200, r#"{"token":1}"#)) {
        Err(AdgError::Permanent(msg)) => {
            assert_eq!(msg, "campo 'token' ausente na resposta de login")
        }
        other => panic!("{other:?}"),
    }
    match login(&answered(200, "no json")) {
        Err(AdgError::Transient(msg)) => {
            assert_eq!(msg, "parsear resposta de login: error decoding response body")
        }
        other => panic!("{other:?}"),
    }
    assert!(matches!(login(&answered(401, "{}")), Err(AdgError::Permanent(_))));
    assert_eq!(read_token(&doc(r#"{"token":"t"}"#)).unwrap(), "t");
}

#[test]
fn a_body_that_breaks_off_is_transient() {
    let exchange: Exchange = Ok(Reply {
        status: Status::from_u16(201).unwrap(),
        body: Err("request or response body error".to_string()),
    });
    match post_matches(&exchange) {
        Err(AdgError::Transient(msg)) => {
            assert_eq!(msg, "parsear resposta do ingest: request or response body error")
        }
        other => panic!("{other:?}"),
    }
    assert!(post_snapshot(&exchange).is_ok());
}

#[test]
fn posting_games_reports_what_was_inserted() {
    assert_eq!(post_matches(&answered(201, r#"{"inserted":3}"#)).unwrap(), 3);
    assert_eq!(post_matches(&answered(200, r#"{"inserted":-3}"#)).unwrap(), 0);
    assert_eq!(post_matches(&answered(200, "[]")).unwrap(), 0);
    assert_eq!(read_inserted(&doc(r#"{"inserted":18446744073709551615}"#)), u64::MAX);
    assert!(matches!(post_matches(&answered(500, "{}")), Err(AdgError::Transient(_))));
}

#[test]
fn posting_a_snapshot_needs_no_body() {
    assert!(post_snapshot(&answered(204, "")).is_ok());
    match post_snapshot(&answered(413, "{}")) {
        Err(AdgError::Permanent(msg)) => {
            assert_eq!(msg, "413 Payload Too Large: erro desconhecido")
        }
        other => panic!("{other:?}"),
    }
    assert_eq!(
        post_snapshot(&Err("x".to_string())).unwrap_err().message(),
        "POST /api/aram-mayhem/snapshot: x"
    );
}

#[test]
fn every_request_carries_the_version() {
    let r = login_request("http://h", "0.9.1", "e@x", "p");
    assert_eq!(r.url, "http://h/api/auth/login");
    assert_eq!(r.bearer, None);
    assert_eq!(r.version, ("x-companion-version".to_string(), "0.9.1".to_string()));
    assert_eq!(r.body.to_value(), value(r#"{"email":"e@x","password":"p"}"#));

    let r = matches_request("http://h", "1", "jwt", "pu", "Nome", "BR1", vec![doc(r#"{"a":1}"#)]);
    assert_eq!(r.url, "http://h/api/aram-mayhem/matches");
    assert_eq!(r.bearer.as_deref(), Some("jwt"));
    assert_eq!(r.version.1, "1");
    assert_eq!(
        r.body.to_value(),
        value(r#"{"puuid":"pu","gameName":"Nome","tagLine":"BR1","matches":[{"a":1}]}"#)
    );

    let r = snapshot_request("http://h", "1", "jwt", 5, doc(r#"{"armor":1.5}"#), doc("{}"));
    assert_eq!(r.url, "http://h/api/aram-mayhem/snapshot");
    assert_eq!(
        r.body.to_value(),
        value(r#"{"gameId":5,"championStats":{"armor":1.5},"peak":{}}"#)
    );
}
