use xjtuportal::error::PortalError;
use xjtuportal::session::{choose_logout_mac, normalize_mac, PortalSession, SessionListResponse};

/// Converts test MAC literals into owned strings.
fn macs(values: &[&str]) -> Vec<String> {
    values.iter().map(|value| value.to_string()).collect()
}

#[test]
fn chooses_unknown_mac_first() {
    let session_macs = ["00:00:5e:00:53:01", "11:22:33:44:55:66"];
    let known_macs = macs(&["11:22:33:44:55:66", "aa:bb:cc:dd:ee:ff"]);

    assert_eq!(
        choose_logout_mac(&session_macs, &known_macs),
        Some("00:00:5e:00:53:01".to_string())
    );
}

#[test]
fn chooses_known_mac_by_config_order_when_all_are_known() {
    let session_macs = ["aa:bb:cc:dd:ee:ff", "11:22:33:44:55:66"];
    let known_macs = macs(&["11:22:33:44:55:66", "aa:bb:cc:dd:ee:ff"]);

    assert_eq!(
        choose_logout_mac(&session_macs, &known_macs),
        Some("11:22:33:44:55:66".to_string())
    );
}

#[test]
fn deduplicates_sessions_and_normalizes_macs() {
    let session_macs = ["AA-BB-CC-DD-EE-FF", "aa:bb:cc:dd:ee:ff"];
    let known_macs = macs(&[]);

    assert_eq!(
        choose_logout_mac(&session_macs, &known_macs),
        Some("aa:bb:cc:dd:ee:ff".to_string())
    );
}

#[test]
fn returns_none_for_empty_sessions() {
    assert_eq!(choose_logout_mac(&[], &Vec::<String>::new()), None);
}

#[test]
fn choice_skips_invalid_session_macs() {
    let session_macs = ["not-a-mac", "11:22:33:44:55:66"];
    let known_macs = macs(&["11:22:33:44:55:66"]);
    assert_eq!(
        choose_logout_mac(&session_macs, &known_macs),
        Some("11:22:33:44:55:66".to_string())
    );
    assert_eq!(choose_logout_mac(&["zz:zz"], &Vec::<String>::new()), None);
}

#[test]
fn unknown_session_is_chosen_even_when_listed_later() {
    let session_macs = ["11:22:33:44:55:66", "AA-BB-CC-DD-EE-01", "aa:bb:cc:dd:ee:02"];
    let known_macs = macs(&["11-22-33-44-55-66"]);
    assert_eq!(
        choose_logout_mac(&session_macs, &known_macs),
        Some("aa:bb:cc:dd:ee:01".to_string())
    );
}

#[test]
fn known_order_ignores_known_macs_without_session() {
    let session_macs = ["aa:bb:cc:dd:ee:ff", "11:22:33:44:55:66"];
    let known_macs = macs(&["00:00:00:00:00:01", "AA:BB:CC:DD:EE:FF", "11:22:33:44:55:66"]);
    assert_eq!(
        choose_logout_mac(&session_macs, &known_macs),
        Some("aa:bb:cc:dd:ee:ff".to_string())
    );
}

#[test]
fn normalizes_separators_case_and_short_octets() {
    assert_eq!(normalize_mac("AA-BB-CC-DD-EE-FF").unwrap(), "aa:bb:cc:dd:ee:ff");
    assert_eq!(normalize_mac("  a:b:c:d:e:f \n").unwrap(), "0a:0b:0c:0d:0e:0f");
    assert_eq!(normalize_mac("00:00:5E:00:53:01").unwrap(), "00:00:5e:00:53:01");
}

#[test]
fn normalized_mac_normalizes_to_itself() {
    let once = normalize_mac(" 1-2-3-A-B-C ").unwrap();
    assert_eq!(once, "01:02:03:0a:0b:0c");
    assert_eq!(normalize_mac(&once).unwrap(), once);
}

#[test]
fn rejects_invalid_macs_with_their_text() {
    for bad in ["", "11:22:33:44:55", "11:22:33:44:55:66:77", "111:22:33:44:55:66", "gg:22:33:44:55:66", "11::33:44:55:66"] {
        match normalize_mac(bad) {
            Err(PortalError::InvalidMac(text)) => assert_eq!(text, bad),
            other => panic!("unexpected result for {bad:?}: {other:?}"),
        }
    }
}

fn record(mac: Option<&str>, uid: Option<&str>, ip: Option<&str>) -> PortalSession {
    PortalSession {
        device_type: Some("PC".to_string()),
        framed_ip_address: ip.map(str::to_string),
        calling_station_id: mac.map(str::to_string),
        acct_start_time: Some("2026-05-15 12:00:00".to_string()),
        acct_unique_id: uid.map(str::to_string),
    }
}

#[test]
fn into_sessions_keeps_first_valid_record_per_mac_and_drops_incomplete_ones() {
    let response = SessionListResponse {
        concurrency: serde_json::Value::Null,
        sessions: vec![
            record(Some("00-00-5E-00-53-01"), Some("logout-me"), Some("10.180.0.2")),
            record(Some("00:00:5e:00:53:01"), Some("duplicate"), Some("10.180.0.9")),
            record(None, Some("no-mac"), Some("10.180.0.3")),
            record(Some(""), Some("empty-mac"), Some("10.180.0.3")),
            record(Some("bad"), Some("bad-mac"), Some("10.180.0.3")),
            record(Some("11:22:33:44:55:66"), None, Some("10.180.0.3")),
            record(Some("11-22-33-44-55-66"), Some("same-mac-later"), Some("10.180.0.3")),
            record(Some("aa:bb:cc:dd:ee:ff"), Some("no-ip"), None),
            record(Some("aa:bb:cc:dd:ee:01"), Some("keep-me"), Some("10.180.0.4")),
        ],
    };
    let sessions = response.into_sessions();
    assert_eq!(sessions.len(), 3);
    assert_eq!(sessions[0].mac, "00:00:5e:00:53:01");
    assert_eq!(sessions[0].api_mac, "00-00-5E-00-53-01");
    assert_eq!(sessions[0].unique_id, "logout-me");
    assert_eq!(sessions[0].user_ip, "10.180.0.2");
    assert_eq!(sessions[0].device_type, "PC");
    assert_eq!(sessions[0].start_time, "2026-05-15 12:00:00");
    assert_eq!(sessions[1].mac, "11:22:33:44:55:66");
    assert_eq!(sessions[1].unique_id, "same-mac-later");
    assert_eq!(sessions[2].mac, "aa:bb:cc:dd:ee:01");
    assert_eq!(sessions[2].unique_id, "keep-me");
}

#[test]
fn invalid_record_does_not_hide_a_later_valid_one() {
    let response = SessionListResponse {
        concurrency: serde_json::Value::Null,
        sessions: vec![
            PortalSession {
                device_type: None,
                framed_ip_address: Some("10.0.0.1".to_string()),
                calling_station_id: Some("aa-bb-cc-dd-ee-ff".to_string()),
                acct_start_time: None,
                acct_unique_id: None,
            },
            PortalSession {
                device_type: None,
                framed_ip_address: Some("10.0.0.2".to_string()),
                calling_station_id: Some("AA:BB:CC:DD:EE:FF".to_string()),
                acct_start_time: None,
                acct_unique_id: Some("x".to_string()),
            },
        ],
    };
    let sessions = response.into_sessions();
    assert_eq!(sessions.len(), 1);
    assert_eq!(sessions[0].mac, "aa:bb:cc:dd:ee:ff");
    assert_eq!(sessions[0].api_mac, "AA:BB:CC:DD:EE:FF");
    assert_eq!(sessions[0].user_ip, "10.0.0.2");
    assert_eq!(sessions[0].unique_id, "x");
    assert_eq!(sessions[0].device_type, "");
    assert_eq!(sessions[0].start_time, "");
}

#[test]
fn into_sessions_fills_missing_optional_fields_with_empty_text() {
    let response = SessionListResponse {
        concurrency: serde_json::Value::Null,
        sessions: vec![PortalSession {
            device_type: None,
            framed_ip_address: Some("10.0.0.1".to_string()),
            calling_station_id: Some("aa:bb:cc:dd:ee:ff".to_string()),
            acct_start_time: None,
            acct_unique_id: Some("u1".to_string()),
        }],
    };
    let sessions = response.into_sessions();
    assert_eq!(sessions.len(), 1);
    assert_eq!(sessions[0].device_type, "");
    assert_eq!(sessions[0].start_time, "");
}
