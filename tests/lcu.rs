use base64::engine::general_purpose::STANDARD;
use base64::Engine;
use lcu_client::endpoints::{champ_select_action_path, ChampSelectAction, GAMEFLOW_PHASE_PATH};
use lcu_client::lockfile::{LockFileData, NumericField, ParseError};
use lcu_client::presence::{league_client_running, porofessor_url};
use lcu_client::request::{
    base_url_for, basic_auth_value, empty_outcome, json_outcome, text_outcome, ClientError,
    LcuRequestClient, RequestError,
};
use lcu_client::text::{parse_u64, trim};

#[test]
fn parses_league_client_lockfile() {
    let d = LockFileData::parse_lockfile("LeagueClient:12345:54321:abcXYZ123:https").unwrap();
    assert_eq!(d.pid, 12345);
    assert_eq!(d.port, 54321);
    assert_eq!(d.token, "abcXYZ123");
    assert_eq!(d.protocol, "https");
}

#[test]
fn ignores_trailing_segments_and_surrounding_space() {
    let d = LockFileData::parse_lockfile("  LeagueClient:7:8080:tok:https:extra:more\n").unwrap();
    assert_eq!(d.pid, 7);
    assert_eq!(d.port, 8080);
    assert_eq!(d.token, "tok");
    assert_eq!(d.protocol, "https");
}

#[test]
fn accepts_empty_token() {
    let d = LockFileData::parse_lockfile("LeagueClient:1:2::https").unwrap();
    assert_eq!(d.token, "");
}

#[test]
fn rejects_text_without_colon() {
    assert_eq!(
        LockFileData::parse_lockfile("no colon here").unwrap_err(),
        ParseError::MalformedFormat
    );
    assert_eq!(LockFileData::parse_lockfile("").unwrap_err(), ParseError::MalformedFormat);
}

#[test]
fn rejects_fewer_than_five_segments() {
    assert_eq!(
        LockFileData::parse_lockfile("LeagueClient:1:2:tok").unwrap_err(),
        ParseError::MalformedFormat
    );
    assert_eq!(LockFileData::parse_lockfile(":").unwrap_err(), ParseError::MalformedFormat);
    assert_eq!(
        LockFileData::parse_lockfile("\t a:1:2:tok \n").unwrap_err(),
        ParseError::MalformedFormat
    );
}

#[test]
fn pid_is_checked_before_port() {
    assert_eq!(
        LockFileData::parse_lockfile("LeagueClient:x:y:tok:https").unwrap_err(),
        ParseError::InvalidNumericField(NumericField::ProcessId)
    );
}

#[test]
fn rejects_non_numeric_pid() {
    assert_eq!(
        LockFileData::parse_lockfile("LeagueClient:abc:2:tok:https").unwrap_err(),
        ParseError::InvalidNumericField(NumericField::ProcessId)
    );
}

#[test]
fn rejects_non_numeric_port() {
    assert_eq!(
        LockFileData::parse_lockfile("LeagueClient:1:-2:tok:https").unwrap_err(),
        ParseError::InvalidNumericField(NumericField::Port)
    );
    assert_eq!(
        LockFileData::parse_lockfile("LeagueClient:1::tok:https").unwrap_err(),
        ParseError::InvalidNumericField(NumericField::Port)
    );
}

#[test]
fn parse_error_messages() {
    assert_eq!(ParseError::MalformedFormat.message(), "Lockfile format is invalid!");
    assert_eq!(
        ParseError::InvalidNumericField(NumericField::Port).message(),
        "Failed to parse port as u64"
    );
}

#[test]
fn parses_unsigned_numbers() {
    assert_eq!(parse_u64("0"), Some(0));
    assert_eq!(parse_u64("+42"), Some(42));
    assert_eq!(parse_u64("18446744073709551615"), Some(u64::MAX));
    assert_eq!(parse_u64("18446744073709551616"), None);
    assert_eq!(parse_u64("+"), None);
    assert_eq!(parse_u64(""), None);
    assert_eq!(parse_u64("1a"), None);
    assert_eq!(parse_u64("-0"), None);
}

#[test]
fn trims_unicode_white_space() {
    assert_eq!(trim(" \t\u{3000}a b\u{a0}\n"), "a b");
    assert_eq!(trim("   "), "");
}

#[test]
fn base_url_has_exact_form() {
    assert_eq!(base_url_for(54321), "https://127.0.0.1:54321");
    assert_eq!(base_url_for(0), "https://127.0.0.1:0");
    assert_eq!(base_url_for(65535), "https://127.0.0.1:65535");
}

#[test]
fn client_keeps_base_url() {
    let c = LcuRequestClient::new(2999, "secret").unwrap();
    assert_eq!(c.base_url(), "https://127.0.0.1:2999");
    assert_eq!(c.url(GAMEFLOW_PHASE_PATH), "https://127.0.0.1:2999/lol-gameflow/v1/gameflow-phase");
}

#[test]
fn any_token_gives_header_value() {
    // base64 text never holds control characters, so any token is accepted.
    assert!(LcuRequestClient::new(1, "line\nbreak").is_ok());
    assert_eq!(ClientError::InvalidHeaderValue.message(), "invalid authorization header value");
}

#[test]
fn basic_auth_round_trips() {
    for token in ["abcXYZ123", "", "with:colon", "ünïcode"] {
        let value = basic_auth_value(token);
        let encoded = value.strip_prefix("Basic ").unwrap();
        let decoded = STANDARD.decode(encoded).unwrap();
        assert_eq!(String::from_utf8(decoded).unwrap(), format!("riot:{}", token));
    }
    assert_eq!(basic_auth_value("abc"), "Basic cmlvdDphYmM=");
}

#[test]
fn ok_text_answer_is_returned() {
    let r = text_outcome(200, Some("ChampSelect".to_string()));
    assert_eq!(r.unwrap(), "ChampSelect");
}

#[test]
fn not_found_is_request_error() {
    match text_outcome(404, Some(String::new())) {
        Err(RequestError::Status { status, .. }) => assert_eq!(status, 404),
        other => panic!("unexpected {:?}", other),
    }
    assert!(empty_outcome(404, None).is_err());
}

#[test]
fn conflict_message_has_status_and_body() {
    let e = empty_outcome(409, Some("action already completed".to_string())).unwrap_err();
    let m = e.message();
    assert!(m.contains("409"));
    assert!(m.contains("action already completed"));
    assert_eq!(m, "HTTP 409 Error: action already completed");
}

#[test]
fn unreadable_error_body_gets_marker() {
    let e = empty_outcome(500, None).unwrap_err();
    assert_eq!(e.message(), "HTTP 500 Error: <no error body>");
}

#[test]
fn success_statuses() {
    assert!(empty_outcome(204, None).is_ok());
    assert!(empty_outcome(299, None).is_ok());
    assert!(empty_outcome(300, None).is_err());
    assert!(empty_outcome(199, None).is_err());
    match text_outcome(200, None) {
        Err(RequestError::UnreadableBody) => {}
        other => panic!("unexpected {:?}", other),
    }
}

#[test]
fn json_answers() {
    let v = json_outcome(200, Some("{\"timer\":{\"phase\":\"BAN_PICK\"}}".to_string())).unwrap();
    assert_eq!(v["timer"]["phase"], "BAN_PICK");
    match json_outcome(200, Some("not json".to_string())) {
        Err(e @ RequestError::Decode(_)) => assert!(e.message().starts_with("Invalid JSON in response: ")),
        other => panic!("unexpected {:?}", other),
    }
    assert!(matches!(json_outcome(404, None), Err(RequestError::Status { status: 404, .. })));
    assert_eq!(
        RequestError::Transport("refused".to_string()).message(),
        "Request failed: refused"
    );
}

#[test]
fn action_path_and_payload() {
    assert_eq!(champ_select_action_path(7), "/lol-champ-select/v1/session/actions/7");
    let a = ChampSelectAction::completed(7, 266, "pick".to_string());
    assert_eq!(a.actor_cell_id, 7);
    assert_eq!(a.champion_id, 266);
    assert_eq!(a.action_type, "pick");
    assert!(!a.is_in_progress);
    assert!(a.completed);
}

#[test]
fn finds_league_client_process() {
    let names = vec!["explorer.exe".to_string(), "LeagueClientUx.exe".to_string()];
    assert!(league_client_running(&names));
    assert!(!league_client_running(&vec!["League.exe".to_string()]));
    assert!(!league_client_running(&Vec::new()));
}

#[test]
fn porofessor_page() {
    assert_eq!(porofessor_url("euw", "a,b"), "https://porofessor.gg/pregame/euw/a,b");
}
