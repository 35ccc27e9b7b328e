use adg_companion::json::Json;

fn value(text: &str) -> serde_json::Value {
    serde_json::from_str(text).unwrap()
}

fn parsed(text: &str) -> Json {
    Json::parse(text.as_bytes()).unwrap()
}

#[test]
fn a_document_survives_the_way_there_and_back() {
    let text = r#"{"a":[1,-2,3.25,null,true,"x"],"b":{"c":18446744073709551615,"d":{}},"e":[]}"#;
    assert_eq!(Json::from_value(value(text)).to_value(), value(text));
    assert_eq!(parsed(text).to_value(), value(text));
}

#[test]
fn a_copy_holds_the_same_document() {
    let text = r#"{"a":[0.5,{"b":"c"}],"n":1e300}"#;
    assert_eq!(parsed(text).clone().to_value(), value(text));
}

#[test]
fn what_is_no_json_has_no_document() {
    assert!(Json::parse(b"").is_none());
    assert!(Json::parse(b"{").is_none());
    assert!(Json::parse(b"1 2").is_none());
    assert!(Json::parse(b"<html>").is_none());
    assert!(Json::parse(b"null").is_some());
}

#[test]
fn members_are_found_by_key() {
    let doc = parsed(r#"{"a":1,"b":"two"}"#);
    assert_eq!(doc.get_i64("a"), Some(1));
    assert_eq!(doc.get_i64("b"), None);
    assert_eq!(doc.get_text("b").map(|s| s.as_str()), Some("two"));
    assert_eq!(doc.get_text("a"), None);
    assert!(doc.get("c").is_none());
    assert!(parsed("[1]").get("a").is_none());
}

#[test]
fn the_later_of_two_members_counts() {
    let doc = Json::Object(vec![
        ("k".to_string(), Json::Int(1)),
        ("k".to_string(), Json::Int(2)),
    ]);
    assert_eq!(doc.get_i64("k"), Some(2));
    assert_eq!(doc.to_value(), value(r#"{"k":2}"#));
    assert_eq!(parsed(r#"{"k":1,"k":2}"#).get_i64("k"), Some(2));
}

#[test]
fn integers_keep_to_their_range() {
    let doc = parsed(r#"{"max":9223372036854775807,"over":9223372036854775808,"neg":-1,"real":1.0}"#);
    let get = |key: &str| doc.get(key).unwrap();
    assert_eq!(get("max").as_i64(), Some(i64::MAX));
    assert_eq!(get("max").as_u64(), Some(i64::MAX as u64));
    assert_eq!(get("over").as_i64(), None);
    assert_eq!(get("over").as_u64(), Some(9223372036854775808));
    assert_eq!(get("neg").as_i64(), Some(-1));
    assert_eq!(get("neg").as_u64(), None);
    assert_eq!(get("real").as_i64(), None);
    assert_eq!(get("real").as_u64(), None);
    assert_eq!(Json::Big(7).as_i64(), Some(7));
}
