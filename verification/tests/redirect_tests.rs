use xjtuportal::config::{
    AccountConfig, AppConfig, InterfaceConfig, LogoutConfig, NetworkConfig, ResolvedTarget,
};
use xjtuportal::error::PortalError;
use xjtuportal::interface::IpAddr;
use xjtuportal::session::normalize_mac;
use xjtuportal::redirect::{
    ensure_redirect_query, gateway_endpoint, generated_portal_mac, identity_from_discovered_mac,
    ipv4_string, nas_ip, nas_ip_from_redirect_url, portal_mac, redirect_user_identity,
    redirect_user_mac, replace_text, session_login_redirect_url, IdentityPlan,
};

fn test_config(nas_ip: Option<&str>, logout: LogoutConfig) -> AppConfig {
    AppConfig {
        network: NetworkConfig {
            gateway: "http://10.184.6.32".to_string(),
            nas_ip: nas_ip.map(str::to_string),
            test_url: "http://1.1.1.1".to_string(),
            login_url: "http://10.184.6.32/portal-conversion/api/v3/portal/connect".to_string(),
            session_login_redirect_url:
                "http://10.184.6.32:80/wenet/auth?userip={local_ip}&usermac={local_mac}&nasip={nas_ip}"
                    .to_string(),
            session_list_url: "http://10.184.6.32/portal-conversion/api/v3/session/list"
                .to_string(),
            session_logout_url:
                "http://10.184.6.32/portal-conversion/api/v3/session/acctUniqueId".to_string(),
            timeout_secs: 5,
        },
        default_account: Some(test_account()),
        logout,
        accounts: Vec::new(),
        interfaces: Vec::new(),
        targets: Vec::new(),
    }
}

fn test_account() -> AccountConfig {
    AccountConfig { id: None, username: "u@xjtu".to_string(), password: "p".to_string() }
}

fn logout_with_current_mac(mac: &str) -> LogoutConfig {
    LogoutConfig { current_mac: Some(mac.to_string()), ..LogoutConfig::default() }
}

/// The session redirect URL of a target whose identity needs no discovery.
fn redirect_url_for(config: &AppConfig, target: &ResolvedTarget) -> Result<String, PortalError> {
    match redirect_user_identity(config, target)? {
        IdentityPlan::Ready { user_ip, user_mac } => {
            session_login_redirect_url(config, &user_ip, &user_mac)
        }
        IdentityPlan::NeedsMac { .. } => panic!("identity needs discovery"),
    }
}

#[test]
fn session_redirect_url_uses_target_interface_identity() {
    let config = test_config(Some("10.6.33.10"), logout_with_current_mac("11:22:33:44:55:66"));
    let target = ResolvedTarget {
        id: "wan1-main".to_string(),
        account: test_account(),
        interface: Some(InterfaceConfig {
            id: "wan1".to_string(),
            name: None,
            local_ip: Some(IpAddr::V4(10, 180, 0, 10)),
            mac: Some("aa:bb:cc:dd:ee:ff".to_string()),
        }),
    };

    let redirect_url = redirect_url_for(&config, &target).unwrap();

    assert_eq!(
        redirect_url,
        "http://10.184.6.32:80/wenet/auth?userip=10.180.0.10&usermac=aa-bb-cc-dd-ee-ff&nasip=10.6.33.10"
    );
}

#[test]
fn session_redirect_url_without_interface_uses_fallback_identity() {
    let config = test_config(Some("10.6.33.10"), logout_with_current_mac("11:22:33:44:55:66"));
    let target = ResolvedTarget { id: "default".to_string(), account: test_account(), interface: None };

    let redirect_url = redirect_url_for(&config, &target).unwrap();

    assert_eq!(
        redirect_url,
        "http://10.184.6.32:80/wenet/auth?userip=0.0.0.0&usermac=11-22-33-44-55-66&nasip=10.6.33.10"
    );
}

#[test]
fn interface_without_mac_asks_for_discovery_then_completes() {
    let config = test_config(Some("10.6.33.10"), LogoutConfig::default());
    let target = ResolvedTarget {
        id: "wan1-main".to_string(),
        account: test_account(),
        interface: Some(InterfaceConfig {
            id: "wan1".to_string(),
            name: None,
            local_ip: Some(IpAddr::V4(10, 180, 0, 10)),
            mac: None,
        }),
    };
    let (ip, user_ip) = match redirect_user_identity(&config, &target).unwrap() {
        IdentityPlan::NeedsMac { ip, user_ip } => (ip, user_ip),
        other => panic!("unexpected: {other:?}"),
    };
    assert_eq!(ip, IpAddr::V4(10, 180, 0, 10));
    assert_eq!(user_ip, "10.180.0.10");
    let (ip_text, mac) =
        identity_from_discovered_mac(&target, user_ip.clone(), Ok(Some("AA:BB:CC:00:11:22".to_string())))
            .unwrap();
    assert_eq!(ip_text, "10.180.0.10");
    assert_eq!(mac, "aa-bb-cc-00-11-22");
    match identity_from_discovered_mac(&target, user_ip, Ok(None)) {
        Err(PortalError::InvalidConfig(m)) => {
            assert_eq!(m, "target wan1-main 的 interface wan1 缺少 mac，且无法从本机网卡查询到 MAC")
        }
        other => panic!("unexpected: {other:?}"),
    }
}

#[test]
fn interface_without_ip_or_name_is_a_configuration_error() {
    let config = test_config(Some("10.6.33.10"), LogoutConfig::default());
    let target = ResolvedTarget {
        id: "t".to_string(),
        account: test_account(),
        interface: Some(InterfaceConfig { id: "wan9".to_string(), name: None, local_ip: None, mac: None }),
    };
    match redirect_user_identity(&config, &target) {
        Err(PortalError::InvalidConfig(m)) => assert_eq!(
            m,
            "target t 的 interface wan9 缺少 local_ip 或 name，无法构造真实 redirectUrl"
        ),
        other => panic!("unexpected: {other:?}"),
    }
}

#[test]
fn missing_nas_ip_is_reported() {
    let config = test_config(None, LogoutConfig::default());
    assert!(matches!(nas_ip(&config), Err(PortalError::InvalidConfig(_))));
    assert!(matches!(
        session_login_redirect_url(&config, "0.0.0.0", "11-22-33-44-55-66"),
        Err(PortalError::InvalidConfig(_))
    ));
    let with = test_config(Some("10.6.33.10"), LogoutConfig::default());
    assert_eq!(nas_ip(&with).unwrap(), "10.6.33.10");
}

#[test]
fn template_without_placeholders_gets_identity_query_appended() {
    let mut config = test_config(Some("10.6.33.10"), LogoutConfig::default());
    config.network.session_login_redirect_url = "http://10.184.6.32/wenet/auth".to_string();
    assert_eq!(
        session_login_redirect_url(&config, "10.0.0.2", "aa-bb-cc-dd-ee-ff").unwrap(),
        "http://10.184.6.32/wenet/auth?userip=10.0.0.2&usermac=aa-bb-cc-dd-ee-ff&nasip=10.6.33.10"
    );
    assert_eq!(
        ensure_redirect_query(
            "http://h/a?usermac=x".to_string(),
            "1.2.3.4",
            "m",
            "n"
        )
        .unwrap(),
        "http://h/a?usermac=x&userip=1.2.3.4&nasip=n"
    );
    assert!(matches!(
        ensure_redirect_query("no url".to_string(), "1", "2", "3"),
        Err(PortalError::UrlParse { .. })
    ));
}

#[test]
fn nas_ip_is_read_from_redirect_urls() {
    assert_eq!(
        nas_ip_from_redirect_url("http://10.184.6.32/portal?userip=1.2.3.4&nasip=10.6.33.10").as_deref(),
        Some("10.6.33.10")
    );
    assert_eq!(
        nas_ip_from_redirect_url("http://10.184.6.32/portal?NASIP=10.6.33.11&nasip=x").as_deref(),
        Some("10.6.33.11")
    );
    assert_eq!(nas_ip_from_redirect_url("http://10.184.6.32/portal?nasip=&a=b"), None);
    assert_eq!(nas_ip_from_redirect_url("http://10.184.6.32/portal"), None);
    assert_eq!(nas_ip_from_redirect_url("not a url"), None);
}

#[test]
fn portal_mac_uses_dashes() {
    assert_eq!(portal_mac("AA:BB:CC:DD:EE:FF").unwrap(), "aa-bb-cc-dd-ee-ff");
    assert!(matches!(portal_mac("bogus"), Err(PortalError::InvalidMac(_))));
    for mac in ["AA:BB:CC:DD:EE:FF", "1-2-3-4-5-6", " 00:00:5e:00:53:01 "] {
        let portal = portal_mac(mac).unwrap();
        assert_eq!(normalize_mac(&portal).unwrap(), normalize_mac(mac).unwrap());
    }
}

#[test]
fn redirect_user_mac_prefers_current_then_known() {
    let current = test_config(None, logout_with_current_mac("11:22:33:44:55:66"));
    assert_eq!(redirect_user_mac(&current).unwrap(), "11-22-33-44-55-66");
    let mut known = LogoutConfig::default();
    known.known_macs = vec![xjtuportal::config::KnownMacConfig::new("AA-BB-CC-DD-EE-01", None)];
    let config = test_config(None, known);
    assert_eq!(redirect_user_mac(&config).unwrap(), "aa-bb-cc-dd-ee-01");
}

#[test]
fn generated_mac_is_locally_administered_unicast() {
    let mac = generated_portal_mac(0x0123_4567_89ab_cdef);
    let octets: Vec<u8> = mac.split('-').map(|o| u8::from_str_radix(o, 16).unwrap()).collect();
    assert_eq!(octets.len(), 6);
    assert_eq!(octets[0] & 0x03, 0x02);
    assert_eq!(mac, "02-67-89-ab-cd-ef");
    assert_eq!(generated_portal_mac(0), "02-00-00-00-00-00");
    assert_eq!(normalize_mac(&mac).unwrap(), "02:67:89:ab:cd:ef");
}

#[test]
fn text_helpers() {
    assert_eq!(replace_text("a{x}b{x}", "{x}", "1"), "a1b1");
    assert_eq!(replace_text("aaa", "aa", "b"), "ba");
    assert_eq!(ipv4_string(10, 180, 0, 10), "10.180.0.10");
    assert_eq!(ipv4_string(0, 0, 0, 0), "0.0.0.0");
    assert_eq!(ipv4_string(255, 255, 255, 255), "255.255.255.255");
}

#[test]
fn gateway_endpoint_gives_host_and_port() {
    let mut network = NetworkConfig::default();
    assert_eq!(gateway_endpoint(&network).unwrap(), ("10.184.6.32".to_string(), 80));
    network.gateway = "http://portal.example:8080/".to_string();
    assert_eq!(gateway_endpoint(&network).unwrap(), ("portal.example".to_string(), 8080));
    network.gateway = "https://portal.example".to_string();
    assert_eq!(gateway_endpoint(&network).unwrap(), ("portal.example".to_string(), 443));
    network.gateway = "http://[::1".to_string();
    assert!(matches!(gateway_endpoint(&network), Err(PortalError::UrlParse { .. })));
}
