use xjtuportal::config::{AccountConfig, AppConfig, KnownMacConfig, LogoutConfig, NetworkConfig, ResolvedTarget, InterfaceConfig};
use xjtuportal::error::PortalError;
use xjtuportal::flow::{
    account_login_targets, account_logout_selection, account_session_targets,
    collect_account_sessions, collect_logouts, find_account_group, find_target, flatten_targets,
    group_targets_by_username, into_reversed, nas_ip_to_write, require_logout_selector,
    session_target_failure, session_token, session_token_start, token_redirect_after_probe,
    LoginAction, LoginEvent, LoginFlow, NasIpWriteBack, TokenRedirect, TokenStart,
};
use xjtuportal::portal::{LoginStatus, NetworkStatus};
use xjtuportal::session::Session;
use xjtuportal::{AccountLogout, AccountSessions, NamedSession, RunStatus};

fn config(enabled: bool, known: &[&str]) -> AppConfig {
    AppConfig {
        network: NetworkConfig::default(),
        default_account: None,
        logout: LogoutConfig {
            enabled,
            current_mac: None,
            known_macs: known.iter().map(|m| KnownMacConfig::new(m, None)).collect(),
        },
        accounts: Vec::new(),
        interfaces: Vec::new(),
        targets: Vec::new(),
    }
}

fn session(mac: &str, api_mac: &str, uid: &str) -> Session {
    Session {
        mac: mac.to_string(),
        api_mac: api_mac.to_string(),
        device_type: String::new(),
        user_ip: "10.180.0.2".to_string(),
        start_time: String::new(),
        unique_id: uid.to_string(),
    }
}

fn overloaded(token: Option<&str>) -> LoginEvent {
    LoginEvent::LoggedIn(Ok(LoginStatus::Overloaded {
        description: "already have 2 sessions".to_string(),
        token: token.map(str::to_string),
    }))
}

fn success() -> LoginEvent {
    LoginEvent::LoggedIn(Ok(LoginStatus::Success { token: Some("t".to_string()) }))
}

fn redirected() -> LoginEvent {
    LoginEvent::Probed(Ok(NetworkStatus::Redirected("http://10.184.6.32/portal".to_string())))
}

#[test]
fn automatic_logout_then_retry_succeeds() {
    let (mut flow, action) = LoginFlow::start(&config(true, &["11:22:33:44:55:66"]));
    assert!(matches!(action, LoginAction::CheckNetwork));
    match flow.step(redirected()) {
        LoginAction::Login { redirect_url, record_nas_ip } => {
            assert_eq!(redirect_url, "http://10.184.6.32/portal");
            assert!(record_nas_ip);
        }
        other => panic!("unexpected: {other:?}"),
    }
    match flow.step(overloaded(Some("session-token"))) {
        LoginAction::ListSessions { token } => assert_eq!(token, "session-token"),
        other => panic!("unexpected: {other:?}"),
    }
    let sessions = vec![
        session("00:00:5e:00:53:01", "00-00-5e-00-53-01", "logout-me"),
        session("11:22:33:44:55:66", "11:22:33:44:55:66", "keep-me"),
    ];
    match flow.step(LoginEvent::SessionsListed(Ok(sessions))) {
        LoginAction::Logout { token, unique_id, api_mac } => {
            assert_eq!(token, "session-token");
            assert_eq!(unique_id, "logout-me");
            assert_eq!(api_mac, "00-00-5e-00-53-01");
        }
        other => panic!("unexpected: {other:?}"),
    }
    match flow.step(LoginEvent::LoggedOut(Ok(()))) {
        LoginAction::Login { redirect_url, record_nas_ip } => {
            assert_eq!(redirect_url, "http://10.184.6.32/portal");
            assert!(!record_nas_ip);
        }
        other => panic!("unexpected: {other:?}"),
    }
    assert!(matches!(flow.step(success()), LoginAction::Finish(Ok(()))));
}

#[test]
fn already_online_does_not_login() {
    let (mut flow, _) = LoginFlow::start(&config(true, &[]));
    assert!(matches!(
        flow.step(LoginEvent::Probed(Ok(NetworkStatus::Online))),
        LoginAction::Finish(Ok(()))
    ));
}

#[test]
fn device_limit_without_automatic_logout_fails() {
    let (mut flow, _) = LoginFlow::start(&config(false, &[]));
    flow.step(redirected());
    assert!(matches!(
        flow.step(overloaded(Some("t"))),
        LoginAction::Finish(Err(PortalError::DeviceLimitReached))
    ));
}

#[test]
fn device_limit_without_token_fails() {
    let (mut flow, _) = LoginFlow::start(&config(true, &[]));
    flow.step(redirected());
    assert!(matches!(
        flow.step(overloaded(None)),
        LoginAction::Finish(Err(PortalError::MissingToken))
    ));
}

#[test]
fn empty_session_list_has_no_candidate() {
    let (mut flow, _) = LoginFlow::start(&config(true, &[]));
    flow.step(redirected());
    flow.step(overloaded(Some("t")));
    assert!(matches!(
        flow.step(LoginEvent::SessionsListed(Ok(Vec::new()))),
        LoginAction::Finish(Err(PortalError::NoLogoutCandidate))
    ));
}

#[test]
fn retry_that_is_still_overloaded_fails_with_description() {
    let (mut flow, _) = LoginFlow::start(&config(true, &[]));
    flow.step(redirected());
    flow.step(overloaded(Some("t")));
    flow.step(LoginEvent::SessionsListed(Ok(vec![session("aa:bb:cc:dd:ee:ff", "aa:bb:cc:dd:ee:ff", "u")])));
    flow.step(LoginEvent::LoggedOut(Ok(())));
    match flow.step(overloaded(Some("t"))) {
        LoginAction::Finish(Err(PortalError::StillOverloaded(d))) => {
            assert_eq!(d, "already have 2 sessions")
        }
        other => panic!("unexpected: {other:?}"),
    }
}

#[test]
fn rejected_login_and_failed_exchanges_end_the_flow() {
    let (mut flow, _) = LoginFlow::start(&config(true, &[]));
    flow.step(redirected());
    match flow.step(LoginEvent::LoggedIn(Ok(LoginStatus::Failed {
        code: Some(1),
        error: None,
        description: "bad password".to_string(),
    }))) {
        LoginAction::Finish(Err(PortalError::LoginRejected { code, error, description })) => {
            assert_eq!(code, Some(1));
            assert_eq!(error, None);
            assert_eq!(description, "bad password");
        }
        other => panic!("unexpected: {other:?}"),
    }
    let (mut probe_fails, _) = LoginFlow::start(&config(true, &[]));
    assert!(matches!(
        probe_fails.step(LoginEvent::Probed(Err(PortalError::MissingRedirect))),
        LoginAction::Finish(Err(PortalError::MissingRedirect))
    ));
    let (mut expecting, _) = LoginFlow::start(&config(true, &[]));
    assert!(expecting.expects(&redirected()));
    assert!(!expecting.expects(&success()));
}

#[test]
fn run_updates_nas_ip_from_captive_redirect() {
    let redirect = "http://10.184.6.32/portal?userip=10.0.0.2&nasip=10.6.33.10";
    assert_eq!(nas_ip_to_write(true, &None, redirect).as_deref(), Some("10.6.33.10"));
    assert_eq!(
        nas_ip_to_write(true, &Some("10.0.0.1".to_string()), redirect).as_deref(),
        Some("10.6.33.10")
    );
    assert_eq!(nas_ip_to_write(true, &Some("10.6.33.10".to_string()), redirect), None);
    assert_eq!(nas_ip_to_write(false, &None, redirect), None);
    assert_eq!(nas_ip_to_write(true, &None, "http://10.184.6.32/portal"), None);
}

#[test]
fn nas_ip_is_written_back_at_most_once_per_run() {
    let first = "http://10.184.6.32/portal?nasip=10.6.33.10";
    let second = "http://10.184.6.32/portal?nasip=10.6.33.11";
    let mut write_back = NasIpWriteBack::new(Some("10.0.0.1".to_string()));
    assert_eq!(write_back.claim(false, first), None);
    assert_eq!(write_back.claim(true, "http://10.184.6.32/portal"), None);
    assert_eq!(write_back.claim(true, first).as_deref(), Some("10.6.33.10"));
    assert_eq!(write_back.claim(true, second), None);
    assert_eq!(write_back.claim(true, first), None);
    let mut unchanged = NasIpWriteBack::new(Some("10.6.33.10".to_string()));
    assert_eq!(unchanged.claim(true, first), None);
    assert_eq!(unchanged.claim(true, second).as_deref(), Some("10.6.33.11"));
}

fn target(id: &str, account_id: Option<&str>, username: &str) -> ResolvedTarget {
    ResolvedTarget {
        id: id.to_string(),
        account: AccountConfig {
            id: account_id.map(str::to_string),
            username: username.to_string(),
            password: "p".to_string(),
        },
        interface: None,
    }
}

#[test]
fn multi_target_continues_after_one_target_fails() {
    let targets = vec![
        target("bad", Some("main"), "u@xjtu"),
        target("other", Some("second"), "v@xjtu"),
        target("good", Some("main"), "u@xjtu"),
    ];
    let groups = group_targets_by_username(targets);
    assert_eq!(groups.len(), 2);
    assert_eq!(groups[0].iter().map(|t| t.id.as_str()).collect::<Vec<_>>(), ["bad", "good"]);
    assert_eq!(groups[1][0].id, "other");
    assert_eq!(groups.iter().map(Vec::len).sum::<usize>(), 3);
    assert_eq!(RunStatus::from_failure(true), RunStatus::PartialFailure);
    assert_eq!(RunStatus::from_failure(false), RunStatus::Success);
}

#[test]
fn target_lookup_by_id_and_account() {
    let targets = vec![
        target("wan1-main", Some("main"), "u"),
        target("wan2-main", Some("main"), "u"),
        target("wan1-backup", Some("backup"), "v"),
    ];
    assert_eq!(find_target(&targets, "wan2-main").unwrap().id, "wan2-main");
    match find_target(&targets, "nope") {
        Err(PortalError::InvalidConfig(m)) => assert_eq!(m, "找不到 target nope"),
        other => panic!("unexpected: {other:?}"),
    }
    let main = account_login_targets(&targets, "main").unwrap();
    assert_eq!(main.iter().map(|t| t.id.as_str()).collect::<Vec<_>>(), ["wan1-main", "wan2-main"]);
    match account_login_targets(&targets, "other") {
        Err(PortalError::InvalidConfig(m)) => assert_eq!(m, "账号 other 没有配置可登录的 target"),
        other => panic!("unexpected: {other:?}"),
    }
}

#[test]
fn accounts_without_targets_get_a_default_session_target() {
    let account = AccountConfig { id: Some("main".to_string()), username: "u".to_string(), password: "p".to_string() };
    let synthetic = account_session_targets(account.clone(), Vec::new());
    assert_eq!(synthetic.len(), 1);
    assert_eq!(synthetic[0].id, "main-default");
    assert!(synthetic[0].interface.is_none());
    let anonymous = AccountConfig { id: None, ..account.clone() };
    assert_eq!(account_session_targets(anonymous, Vec::new())[0].id, "default");
    let explicit = vec![target("wan1-main", Some("main"), "u")];
    assert_eq!(account_session_targets(account, explicit)[0].id, "wan1-main");
}

#[test]
fn grouped_account_targets_lookup_and_flatten() {
    let main = AccountConfig { id: Some("main".to_string()), username: "u".to_string(), password: "p".to_string() };
    let backup = AccountConfig { id: Some("backup".to_string()), username: "v".to_string(), password: "p".to_string() };
    let groups = vec![
        (main, vec![target("wan1-main", Some("main"), "u"), target("wan2-main", Some("main"), "u")]),
        (backup, vec![target("wan1-backup", Some("backup"), "v")]),
    ];
    let (account, targets) = find_account_group(&groups, "backup").unwrap();
    assert_eq!(account.username, "v");
    assert_eq!(targets.len(), 1);
    assert!(matches!(find_account_group(&groups, "x"), Err(PortalError::InvalidConfig(_))));
    let all = flatten_targets(&groups);
    assert_eq!(
        all.iter().map(|t| t.id.as_str()).collect::<Vec<_>>(),
        ["wan1-main", "wan2-main", "wan1-backup"]
    );
}

fn named(mac: &str) -> NamedSession {
    NamedSession {
        name: "未知".to_string(),
        mac: mac.to_string(),
        api_mac: mac.to_string(),
        device_type: String::new(),
        user_ip: String::new(),
        start_time: String::new(),
        unique_id: "u".to_string(),
    }
}

#[test]
fn account_sessions_come_out_in_account_order() {
    let a = AccountSessions { account: "a".to_string(), sessions: vec![named("aa:bb:cc:dd:ee:01")] };
    let b = AccountSessions { account: "b".to_string(), sessions: Vec::new() };
    let results = vec![Ok((2, b.clone())), Err(PortalError::MissingToken), Ok((0, a.clone()))];
    assert_eq!(collect_account_sessions(results, 3).unwrap(), vec![a, b]);
    let failures = vec![Err(PortalError::MissingToken), Err(PortalError::NoLogoutCandidate)];
    assert!(matches!(collect_account_sessions(failures, 2), Err(PortalError::MissingToken)));
    assert_eq!(collect_account_sessions(Vec::new(), 0).unwrap(), Vec::new());
}

#[test]
fn logouts_are_combined() {
    let done = AccountLogout { account: "a".to_string(), session: named("aa:bb:cc:dd:ee:01") };
    let ok = collect_logouts(vec![Ok(None), Ok(Some(done.clone()))], "phone").unwrap();
    assert_eq!(ok, vec![done.clone()]);
    match collect_logouts(vec![Ok(None), Ok(None)], "phone") {
        Err(PortalError::SessionNotFound(s)) => assert_eq!(s, "phone"),
        other => panic!("unexpected: {other:?}"),
    }
    assert_eq!(
        collect_logouts(vec![Ok(Some(done.clone())), Err(PortalError::MissingToken)], "phone").unwrap(),
        vec![done.clone()]
    );
    assert_eq!(
        collect_logouts(vec![Err(PortalError::MissingToken), Ok(Some(done.clone()))], "phone").unwrap(),
        vec![done]
    );
    assert!(matches!(
        collect_logouts(
            vec![Ok(None), Err(PortalError::MissingToken), Err(PortalError::NoLogoutCandidate)],
            "phone"
        ),
        Err(PortalError::MissingToken)
    ));
    assert_eq!(require_logout_selector(Some("phone")).unwrap(), "phone");
    assert!(matches!(require_logout_selector(None), Err(PortalError::InvalidConfig(_))));
    assert_eq!(account_logout_selection(Ok(3)).unwrap(), Some(3));
    assert_eq!(
        account_logout_selection(Err(PortalError::SessionNotFound("x".to_string()))).unwrap(),
        None
    );
    assert!(matches!(
        account_logout_selection(Err(PortalError::AmbiguousSessionName("x".to_string()))),
        Err(PortalError::AmbiguousSessionName(_))
    ));
    assert_eq!(into_reversed(vec![1, 2, 3]), vec![3, 2, 1]);
}

#[test]
fn session_token_steps() {
    let mut cfg = config(true, &[]);
    let plain = target("default", None, "u");
    assert_eq!(session_token_start(&cfg, &plain), TokenStart::Probe);
    let mut bound = target("wan1", None, "u");
    bound.interface = Some(InterfaceConfig { id: "wan1".to_string(), name: None, local_ip: None, mac: None });
    assert_eq!(session_token_start(&cfg, &bound), TokenStart::Probe);
    cfg.network.nas_ip = Some("10.6.33.10".to_string());
    assert_eq!(session_token_start(&cfg, &bound), TokenStart::SessionUrl);
    assert!(matches!(token_redirect_after_probe(NetworkStatus::Online), TokenRedirect::SessionUrl));
    match token_redirect_after_probe(NetworkStatus::Redirected("http://r/".to_string())) {
        TokenRedirect::Redirect(u) => assert_eq!(u, "http://r/"),
        other => panic!("unexpected: {other:?}"),
    }
    assert_eq!(
        session_token(LoginStatus::Overloaded { description: String::new(), token: Some("t".to_string()) }).unwrap(),
        "t"
    );
    assert!(matches!(
        session_token(LoginStatus::Success { token: None }),
        Err(PortalError::MissingToken)
    ));
    assert!(matches!(
        session_token(LoginStatus::Failed { code: None, error: Some(1), description: String::new() }),
        Err(PortalError::LoginRejected { .. })
    ));
    assert!(matches!(session_target_failure(Some(PortalError::MissingToken)), PortalError::MissingToken));
    assert!(matches!(session_target_failure(None), PortalError::InvalidConfig(_)));
}
