use xjtuportal::config::{
    AccountConfig, AppConfig, InterfaceConfig, KnownMacConfig, LogoutConfig, NetworkConfig,
    ResolvedTarget,
};
use xjtuportal::error::PortalError;
use xjtuportal::selection::{
    known_mac_name, logout_target_for_selector, named_session, named_sessions, select_logout_session,
    select_session_by_local_ip, select_session_by_selector, selector_mac, LogoutPick,
};
use xjtuportal::session::Session;

fn session(mac: &str, api_mac: &str, ip: &str, uid: &str) -> Session {
    Session {
        mac: mac.to_string(),
        api_mac: api_mac.to_string(),
        device_type: "PC".to_string(),
        user_ip: ip.to_string(),
        start_time: "2026-05-15 12:00:00".to_string(),
        unique_id: uid.to_string(),
    }
}

fn config_with(current_mac: Option<&str>, known: Vec<KnownMacConfig>) -> AppConfig {
    AppConfig {
        network: NetworkConfig::default(),
        default_account: None,
        logout: LogoutConfig {
            enabled: true,
            current_mac: current_mac.map(str::to_string),
            known_macs: known,
        },
        accounts: Vec::new(),
        interfaces: Vec::new(),
        targets: Vec::new(),
    }
}

fn sessions() -> Vec<Session> {
    vec![
        session("00:00:5e:00:53:01", "00-00-5e-00-53-01", "10.180.0.2", "logout-me"),
        session("11:22:33:44:55:66", "11:22:33:44:55:66", "10.180.0.3", "keep-me"),
    ]
}

fn phone_config() -> AppConfig {
    config_with(
        None,
        vec![KnownMacConfig::new("11-22-33-44-55-66", Some("phone".to_string()))],
    )
}

#[test]
fn known_names_are_matched_after_normalization() {
    let config = phone_config();
    assert_eq!(known_mac_name(&config, "11:22:33:44:55:66").as_deref(), Some("phone"));
    assert_eq!(known_mac_name(&config, "00:00:5e:00:53:01"), None);
    assert_eq!(known_mac_name(&config, "not-a-mac"), None);
}

#[test]
fn named_sessions_apply_known_names_and_keep_fields() {
    let config = phone_config();
    let named = named_sessions(&config, &sessions());
    assert_eq!(named.len(), 2);
    assert_eq!(named[0].name, "未知");
    assert_eq!(named[0].unique_id, "logout-me");
    assert_eq!(named[1].name, "phone");
    assert_eq!(named[1].mac, "11:22:33:44:55:66");
    assert_eq!(named[1].api_mac, "11:22:33:44:55:66");
    assert_eq!(named[1].user_ip, "10.180.0.3");
    let one = named_session(&config, &sessions()[1]);
    assert_eq!(one, named[1]);
}

#[test]
fn selector_resolves_macs_and_names() {
    let config = phone_config();
    assert_eq!(selector_mac(&config, "AA-BB-CC-DD-EE-FF").unwrap().as_deref(), Some("aa:bb:cc:dd:ee:ff"));
    assert_eq!(selector_mac(&config, "phone").unwrap().as_deref(), Some("11:22:33:44:55:66"));
    assert_eq!(selector_mac(&config, "laptop").unwrap(), None);
    let twice = config_with(
        None,
        vec![
            KnownMacConfig::new("11:22:33:44:55:66", Some("phone".to_string())),
            KnownMacConfig::new("11:22:33:44:55:67", Some("phone".to_string())),
        ],
    );
    match selector_mac(&twice, "phone") {
        Err(PortalError::AmbiguousSessionName(s)) => assert_eq!(s, "phone"),
        other => panic!("unexpected: {other:?}"),
    }
}

#[test]
fn logout_default_session_accepts_known_name() {
    let config = phone_config();
    assert_eq!(select_session_by_selector(&config, &sessions(), "phone").unwrap(), 1);
    assert_eq!(
        select_logout_session(&config, &sessions(), Some("phone")).unwrap(),
        LogoutPick::Session(1)
    );
    match select_session_by_selector(&config, &sessions(), "laptop") {
        Err(PortalError::SessionNotFound(s)) => assert_eq!(s, "laptop"),
        other => panic!("unexpected: {other:?}"),
    }
    match select_session_by_selector(&config, &sessions(), "aa:bb:cc:dd:ee:ff") {
        Err(PortalError::SessionNotFound(s)) => assert_eq!(s, "aa:bb:cc:dd:ee:ff"),
        other => panic!("unexpected: {other:?}"),
    }
}

#[test]
fn logout_default_session_uses_configured_current_mac() {
    let config = config_with(Some("00-00-5E-00-53-01"), Vec::new());
    assert_eq!(
        select_logout_session(&config, &sessions(), None).unwrap(),
        LogoutPick::Session(0)
    );
    assert_eq!(sessions()[0].api_mac, "00-00-5e-00-53-01");
}

#[test]
fn logout_without_selector_or_current_mac() {
    let config = config_with(None, Vec::new());
    let single = vec![sessions()[1].clone()];
    assert_eq!(select_logout_session(&config, &single, None).unwrap(), LogoutPick::Session(0));
    assert_eq!(select_logout_session(&config, &sessions(), None).unwrap(), LogoutPick::ByLocalIp);
    assert_eq!(
        select_session_by_local_ip(&sessions(), Some("10.180.0.3".to_string())).unwrap(),
        1
    );
    match select_session_by_local_ip(&sessions(), Some("10.0.0.9".to_string())) {
        Err(PortalError::CurrentSessionNotFound(ip)) => assert_eq!(ip, "10.0.0.9"),
        other => panic!("unexpected: {other:?}"),
    }
    let bad = config_with(Some("bad"), Vec::new());
    assert!(matches!(
        select_logout_session(&bad, &sessions(), None),
        Err(PortalError::InvalidMac(_))
    ));
}

#[test]
fn logout_target_is_chosen_by_interface_mac() {
    let target = |id: &str, mac: Option<&str>| ResolvedTarget {
        id: id.to_string(),
        account: AccountConfig { id: Some("main".to_string()), username: "u".to_string(), password: "p".to_string() },
        interface: Some(InterfaceConfig {
            id: format!("{id}-if"),
            name: None,
            local_ip: None,
            mac: mac.map(str::to_string),
        }),
    };
    let targets = vec![
        target("wan0", None),
        target("wan1", Some("AA-BB-CC-DD-EE-01")),
        target("wan2", Some("aa:bb:cc:dd:ee:02")),
    ];
    let config = config_with(
        None,
        vec![KnownMacConfig::new("aa:bb:cc:dd:ee:02", Some("router".to_string()))],
    );
    let by_mac = logout_target_for_selector(&config, &targets, "aa:bb:cc:dd:ee:01").unwrap();
    assert_eq!(by_mac.map(|t| t.id), Some("wan1".to_string()));
    let by_name = logout_target_for_selector(&config, &targets, "router").unwrap();
    assert_eq!(by_name.map(|t| t.id), Some("wan2".to_string()));
    assert!(logout_target_for_selector(&config, &targets, "11:22:33:44:55:66").unwrap().is_none());
    assert!(logout_target_for_selector(&config, &targets, "nobody").unwrap().is_none());
}
