use adg_companion::text::{
    eq_ignore_ascii_case, has_part, has_prefix, parse_u16, same, signed_text, strip_prefix,
    unsigned_text,
};

#[test]
fn integers_are_written_in_decimal() {
    assert_eq!(unsigned_text(0), "0");
    assert_eq!(unsigned_text(2400), "2400");
    assert_eq!(unsigned_text(u64::MAX), "18446744073709551615");
    assert_eq!(signed_text(-7), "-7");
    assert_eq!(signed_text(i64::MIN), "-9223372036854775808");
    assert_eq!(signed_text(i64::MAX), "9223372036854775807");
}

#[test]
fn ports_are_read_as_std_reads_them() {
    for text in [
        "", "+", "-1", "0", "80", "0080", "+80", "++80", "65535", "65536", "99999999999999", "8o",
        " 80", "80 ", "8_0", "٣",
    ] {
        assert_eq!(parse_u16(text), text.parse::<u16>().ok(), "{text:?}");
    }
}

#[test]
fn prefixes_are_cut() {
    assert_eq!(strip_prefix("--app-port=123", "--app-port=").as_deref(), Some("123"));
    assert_eq!(strip_prefix("--app-port=", "--app-port=").as_deref(), Some(""));
    assert_eq!(strip_prefix("--app-por", "--app-port="), None);
    assert!(has_prefix("ação", "aç"));
    assert!(!has_prefix("acao", "aç"));
}

#[test]
fn parts_are_found_anywhere() {
    assert!(has_part("erro: não logado", "não logado"));
    assert!(has_part("não logado!", "não logado"));
    assert!(has_part("x", ""));
    assert!(!has_part("nao logado", "não logado"));
    assert!(!has_part("", "a"));
}

#[test]
fn case_is_ignored_for_ascii_only() {
    assert!(eq_ignore_ascii_case("LEAGUEclientux.EXE", "LeagueClientUx.exe"));
    assert!(!eq_ignore_ascii_case("LeagueClientUx", "LeagueClientUx.exe"));
    assert!(!eq_ignore_ascii_case("É", "é"));
    assert!(!eq_ignore_ascii_case("[", "{"));
    assert!(same("a", "a"));
    assert!(!same("a", "A"));
}

#[test]
fn ports_read_back_as_written() {
    for port in 0..=u16::MAX {
        assert_eq!(parse_u16(&unsigned_text(port as u64)), Some(port));
    }
}
