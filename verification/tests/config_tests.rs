use xjtuportal::config::{
    updated_config_text, AccountConfig, AppConfig, InterfaceConfig, KnownMacConfig, LogoutConfig,
    NetworkBinding, NetworkConfig, TargetConfig,
};
use xjtuportal::error::PortalError;
use xjtuportal::interface::IpAddr;

fn account(id: Option<&str>, username: &str, password: &str) -> AccountConfig {
    AccountConfig {
        id: id.map(str::to_string),
        username: username.to_string(),
        password: password.to_string(),
    }
}

fn config(
    default_account: Option<AccountConfig>,
    accounts: Vec<AccountConfig>,
    interfaces: Vec<InterfaceConfig>,
    targets: Vec<TargetConfig>,
) -> AppConfig {
    AppConfig {
        network: NetworkConfig::default(),
        default_account,
        logout: LogoutConfig::default(),
        accounts,
        interfaces,
        targets,
    }
}

fn target(id: &str, account: &str, interface: Option<&str>) -> TargetConfig {
    TargetConfig {
        id: id.to_string(),
        account: account.to_string(),
        interface: interface.map(str::to_string),
    }
}

fn interface(id: &str, local_ip: Option<IpAddr>) -> InterfaceConfig {
    InterfaceConfig { id: id.to_string(), name: None, local_ip, mac: None }
}

fn invalid_config_message(err: PortalError) -> String {
    match err {
        PortalError::InvalidConfig(message) => message,
        other => panic!("expected invalid configuration, got {other:?}"),
    }
}

#[test]
fn resolves_default_target_when_targets_are_absent() {
    let config = config(Some(account(None, "u@xjtu", "p")), vec![], vec![], vec![]);

    let targets = config.resolved_targets().unwrap();

    assert_eq!(targets.len(), 1);
    assert_eq!(targets[0].id, "default");
    assert_eq!(targets[0].account.username, "u@xjtu");
    assert!(targets[0].interface.is_none());
}

#[test]
fn resolves_configured_targets_in_order() {
    let config = config(
        None,
        vec![account(Some("main"), "u@xjtu", "p")],
        vec![interface("wan1", Some(IpAddr::V4(10, 180, 0, 10)))],
        vec![target("wan1-main", "main", Some("wan1"))],
    );

    let targets = config.resolved_targets().unwrap();

    assert_eq!(targets.len(), 1);
    assert_eq!(targets[0].id, "wan1-main");
    assert_eq!(
        targets[0].network_binding().unwrap(),
        NetworkBinding {
            interface_name: None,
            local_ip: Some(IpAddr::V4(10, 180, 0, 10))
        }
    );
}

#[test]
fn rejects_missing_default_account() {
    let config = config(None, vec![], vec![], vec![]);

    assert!(config.resolved_targets().is_err());
}

#[test]
fn rejects_unknown_target_account() {
    let config = config(None, vec![], vec![], vec![target("bad", "missing", None)]);

    assert!(config.resolved_targets().is_err());
}

#[test]
fn resolution_errors_name_the_problem() {
    let missing = config(None, vec![], vec![], vec![]);
    assert_eq!(
        invalid_config_message(missing.resolved_targets().unwrap_err()),
        "缺少必需的 [default_account] 配置"
    );
    let blank_user = config(Some(account(None, "  ", "p")), vec![], vec![], vec![]);
    assert_eq!(
        invalid_config_message(blank_user.resolved_targets().unwrap_err()),
        "账号 username 不能为空"
    );
    let empty_password = config(Some(account(None, "u", "")), vec![], vec![], vec![]);
    assert_eq!(
        invalid_config_message(empty_password.default_target().unwrap_err()),
        "账号 password 不能为空"
    );
    let unknown_account = config(None, vec![], vec![], vec![target("bad", "missing", None)]);
    assert_eq!(
        invalid_config_message(unknown_account.resolved_targets().unwrap_err()),
        "target bad 引用了不存在的账号 missing"
    );
    let unknown_interface = config(
        None,
        vec![account(Some("main"), "u", "p")],
        vec![],
        vec![target("t", "main", Some("wan9"))],
    );
    assert_eq!(
        invalid_config_message(unknown_interface.resolved_targets().unwrap_err()),
        "target t 引用了不存在的网络接口 wan9"
    );
}

#[test]
fn later_account_with_same_id_wins_in_resolution() {
    let config = config(
        None,
        vec![account(Some("a"), "first", "p"), account(Some("a"), "second", "p")],
        vec![],
        vec![target("t1", "a", None), target("t2", "a", None)],
    );
    let targets = config.resolved_targets().unwrap();
    assert_eq!(targets.len(), 2);
    assert_eq!(targets[0].id, "t1");
    assert_eq!(targets[1].id, "t2");
    assert_eq!(targets[0].account.username, "second");
}

#[test]
fn account_targets_group_targets_under_accounts_in_order() {
    let config = config(
        None,
        vec![account(Some("main"), "u1", "p"), account(Some("backup"), "u2", "p")],
        vec![interface("wan1", None), interface("wan2", None)],
        vec![
            target("wan1-main", "main", Some("wan1")),
            target("wan2-main", "main", Some("wan2")),
        ],
    );
    let groups = config.account_targets().unwrap();
    assert_eq!(groups.len(), 2);
    assert_eq!(groups[0].0.username, "u1");
    assert_eq!(groups[0].1.len(), 2);
    assert_eq!(groups[0].1[0].id, "wan1-main");
    assert_eq!(groups[0].1[1].id, "wan2-main");
    assert_eq!(groups[1].0.username, "u2");
    assert!(groups[1].1.is_empty());
}

#[test]
fn account_targets_validates_every_account_first() {
    let config = config(
        None,
        vec![account(Some("main"), "u1", "p"), account(Some("bad"), "u2", "")],
        vec![],
        vec![target("t", "missing", None)],
    );
    assert_eq!(
        invalid_config_message(config.account_targets().unwrap_err()),
        "账号 password 不能为空"
    );
}

#[test]
fn gateway_base_adds_scheme_and_drops_trailing_slashes() {
    let mut network = NetworkConfig::default();
    network.gateway = "10.184.6.32//".to_string();
    assert_eq!(network.gateway_base(), "http://10.184.6.32");
    network.gateway = "https://portal.example/".to_string();
    assert_eq!(network.gateway_base(), "https://portal.example");
    network.gateway = "http://10.184.6.32".to_string();
    assert_eq!(network.gateway_base(), "http://10.184.6.32");
}

#[test]
fn network_defaults_and_timeout() {
    let network = NetworkConfig::default();
    assert_eq!(network.gateway, "10.184.6.32");
    assert_eq!(network.nas_ip, None);
    assert_eq!(network.timeout_secs, 5);
    assert_eq!(network.timeout(), std::time::Duration::from_secs(5));
    let logout = LogoutConfig::default();
    assert!(!logout.enabled);
    assert!(logout.current_mac.is_none());
    assert!(logout.known_macs.is_empty());
}

#[test]
fn known_mac_config_keeps_mac_and_name() {
    let plain = KnownMacConfig::new("11:22:33:44:55:66", None);
    let named = KnownMacConfig::new("aa:bb:cc:dd:ee:ff", Some("phone".to_string()));
    assert_eq!(plain.mac, "11:22:33:44:55:66");
    assert_eq!(plain.name, None);
    assert_eq!(named.name.as_deref(), Some("phone"));
}

#[test]
fn local_ip_must_be_a_usable_ipv4_address() {
    let ok = interface("wan1", Some(IpAddr::V4(10, 180, 0, 10)));
    assert_eq!(ok.local_ip().unwrap(), Some(IpAddr::V4(10, 180, 0, 10)));
    let loopback = interface("lo", Some(IpAddr::V4(127, 0, 0, 1)));
    assert_eq!(loopback.local_ip().unwrap(), Some(IpAddr::V4(127, 0, 0, 1)));
    for bad in [IpAddr::V4(0, 0, 0, 0), IpAddr::V6(0, 0, 0, 0, 0, 0, 0, 1)] {
        match interface("wan1", Some(bad)).local_ip() {
            Err(PortalError::InvalidLocalIp(ip)) => assert_eq!(ip, bad),
            other => panic!("unexpected: {other:?}"),
        }
    }
    assert_eq!(interface("wan1", None).local_ip().unwrap(), None);
}

#[test]
fn interface_labels() {
    let mut i = interface("wan1", None);
    assert_eq!(i.label(), "wan1");
    i.name = Some("eth1".to_string());
    assert_eq!(i.label(), "eth1");
}

const SIMPLE: &str = r#"
[network]
gateway = "10.184.6.32"

[default_account]
username = "u@xjtu"
password = "p"
"#;

#[test]
fn nas_ip_is_inserted_and_identical_value_is_no_change() {
    let updated = updated_config_text(SIMPLE, "config.toml", "10.6.33.10")
        .unwrap()
        .expect("a change");
    assert!(updated.contains("nas_ip = \"10.6.33.10\""));
    assert!(updated.contains("gateway = \"10.184.6.32\""));
    assert_eq!(
        updated_config_text(&updated, "config.toml", "10.6.33.10").unwrap(),
        None
    );
}

#[test]
fn nas_ip_update_keeps_comments() {
    let text = r#"# root comment
[network] # network comment
gateway = "10.184.6.32" # gateway comment
nas_ip = "10.0.0.1" # nas comment

# account comment
[default_account]
username = "u@xjtu"
password = "p"
"#;
    let updated = updated_config_text(text, "config.toml", "10.6.33.10")
        .unwrap()
        .expect("a change");
    assert!(updated.contains("# root comment"));
    assert!(updated.contains("[network] # network comment"));
    assert!(updated.contains("gateway = \"10.184.6.32\" # gateway comment"));
    assert!(updated.contains("nas_ip = \"10.6.33.10\" # nas comment"));
    assert!(updated.contains("# account comment"));
}

#[test]
fn nas_ip_update_creates_a_missing_network_table() {
    let text = "[default_account]\nusername = \"u@xjtu\"\npassword = \"p\"\n";
    let updated = updated_config_text(text, "config.toml", "10.6.33.10")
        .unwrap()
        .expect("a change");
    assert!(updated.contains("[network]"));
    assert!(updated.contains("nas_ip = \"10.6.33.10\""));
    assert!(updated.contains("username = \"u@xjtu\""));
    assert_eq!(updated_config_text(&updated, "config.toml", "10.6.33.10").unwrap(), None);
}

#[test]
fn nas_ip_update_rejects_a_network_that_is_not_a_table() {
    match updated_config_text("network = \"10.184.6.32\"\n", "config.toml", "10.6.33.10") {
        Err(PortalError::InvalidConfig(m)) => assert_eq!(m, "[network] 必须是 TOML 表"),
        other => panic!("unexpected: {other:?}"),
    }
}

#[test]
fn nas_ip_update_rejects_unparsable_text() {
    match updated_config_text("[network\n", "bad.toml", "10.6.33.10") {
        Err(PortalError::ConfigEdit { path, .. }) => assert_eq!(path, "bad.toml"),
        other => panic!("unexpected: {other:?}"),
    }
}
