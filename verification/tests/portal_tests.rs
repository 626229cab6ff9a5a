use xjtuportal::config::NetworkConfig;
use xjtuportal::crypto::decrypt_text;
use xjtuportal::error::PortalError;
use xjtuportal::portal::{
    classify_login_response, classify_probe, fix_redirect_url, is_redirect, login_outcome,
    login_request_body, login_request_json, logout_request_body, logout_request_json,
    session_headers, LoginResponse, LoginStatus, NetworkStatus,
};

#[test]
fn fixes_redirect_url_without_path() {
    assert_eq!(
        fix_redirect_url("http://10.184.6.32").unwrap(),
        "http://10.184.6.32/"
    );
}

#[test]
fn classifies_success_response() {
    let status = classify_login_response(LoginResponse {
        code: Some(0),
        error: None,
        error_description: None,
        token: Some("1234567890abcdef".to_string()),
    });

    assert_eq!(
        status,
        LoginStatus::Success {
            token: Some("1234567890abcdef".to_string()),
        }
    );
}

#[test]
fn classifies_overload_response() {
    let status = classify_login_response(LoginResponse {
        code: None,
        error: Some(81),
        error_description: Some("already have 3 sessions".to_string()),
        token: Some("session-token".to_string()),
    });

    assert_eq!(
        status,
        LoginStatus::Overloaded {
            description: "already have 3 sessions".to_string(),
            token: Some("session-token".to_string())
        }
    );
}

#[test]
fn classifies_failed_response() {
    let status = classify_login_response(LoginResponse {
        code: None,
        error: Some(1),
        error_description: Some("invalid username or password".to_string()),
        token: None,
    });

    assert_eq!(
        status,
        LoginStatus::Failed {
            code: None,
            error: Some(1),
            description: "invalid username or password".to_string()
        }
    );
}

#[test]
fn success_by_error_zero_wins_over_limit_description() {
    let status = classify_login_response(LoginResponse {
        code: None,
        error: Some(0),
        error_description: Some("already have 3 sessions".to_string()),
        token: None,
    });
    assert_eq!(status, LoginStatus::Success { token: None });
}

#[test]
fn device_limit_by_code_or_description_in_any_case() {
    let by_code = classify_login_response(LoginResponse {
        code: Some(39),
        error: None,
        error_description: None,
        token: None,
    });
    assert_eq!(
        by_code,
        LoginStatus::Overloaded { description: String::new(), token: None }
    );
    let by_text = classify_login_response(LoginResponse {
        code: Some(7),
        error: Some(2),
        error_description: Some("You ALREADY HAVE too many devices".to_string()),
        token: Some("t".to_string()),
    });
    assert_eq!(
        by_text,
        LoginStatus::Overloaded {
            description: "You ALREADY HAVE too many devices".to_string(),
            token: Some("t".to_string())
        }
    );
}

#[test]
fn probe_statuses_are_classified() {
    assert_eq!(classify_probe(204, None).unwrap(), NetworkStatus::Online);
    assert_eq!(
        classify_probe(302, Some("http://10.184.6.32/portal".to_string())).unwrap(),
        NetworkStatus::Redirected("http://10.184.6.32/portal".to_string())
    );
    assert_eq!(
        classify_probe(307, Some("https://example.org/".to_string())).unwrap(),
        NetworkStatus::Online
    );
    assert!(matches!(classify_probe(301, None), Err(PortalError::MissingRedirect)));
    assert!(matches!(
        classify_probe(500, None),
        Err(PortalError::UnsupportedNetworkStatus(500))
    ));
    assert!(is_redirect(302) && is_redirect(301) && is_redirect(307));
    assert!(!is_redirect(303) && !is_redirect(200));
}

#[test]
fn redirect_url_with_path_is_kept() {
    assert_eq!(
        fix_redirect_url("http://10.184.6.32/portal?x=1").unwrap(),
        "http://10.184.6.32/portal?x=1"
    );
    match fix_redirect_url("not a url") {
        Err(PortalError::UrlParse { url, .. }) => assert_eq!(url, "not a url"),
        other => panic!("unexpected: {other:?}"),
    }
}

#[test]
fn request_json_is_compact_and_ordered() {
    assert_eq!(
        login_request_json("http://10.184.6.32/", "u", "p").unwrap(),
        r#"{"deviceType":"PC","redirectUrl":"http://10.184.6.32/","webAuthUser":"u","webAuthPassword":"p"}"#
    );
    assert_eq!(
        logout_request_json("id\"1", "aa-bb").unwrap(),
        r#"{"acctUniqueId":"id\"1","mac":"aa-bb"}"#
    );
}

#[test]
fn encrypted_request_bodies_decrypt_to_their_json() {
    let body = login_request_body("http://10.184.6.32", "u@xjtu", "p").unwrap();
    assert_eq!(
        decrypt_text(&body).unwrap(),
        r#"{"deviceType":"PC","redirectUrl":"http://10.184.6.32/","webAuthUser":"u@xjtu","webAuthPassword":"p"}"#
    );
    let logout = logout_request_body("logout-me", "00-00-5e-00-53-01").unwrap();
    assert_eq!(
        decrypt_text(&logout).unwrap(),
        r#"{"acctUniqueId":"logout-me","mac":"00-00-5e-00-53-01"}"#
    );
    assert!(matches!(
        login_request_body("::", "u", "p"),
        Err(PortalError::UrlParse { .. })
    ));
}

#[test]
fn login_outcome_reports_unreadable_error_bodies_with_status() {
    let parsed = Err(PortalError::Decrypt);
    match login_outcome(502, "bad gateway".to_string(), parsed) {
        Err(PortalError::PortalHttpStatus { status, body }) => {
            assert_eq!(status, 502);
            assert_eq!(body, "bad gateway");
        }
        other => panic!("unexpected: {other:?}"),
    }
    assert!(matches!(
        login_outcome(200, String::new(), Err(PortalError::Decrypt)),
        Err(PortalError::Decrypt)
    ));
    let ok = login_outcome(
        500,
        String::new(),
        Ok(LoginResponse { code: Some(0), error: None, error_description: None, token: None }),
    );
    assert_eq!(ok.unwrap(), LoginStatus::Success { token: None });
}

#[test]
fn session_headers_carry_token_origin_and_referer() {
    let network = NetworkConfig::default();
    let headers = session_headers(&network, "tok-123").unwrap();
    let expected = [
        ("accept", "application/json, text/plain, */*"),
        ("accept-language", "zh-CN,zh;q=0.9"),
        ("authorization", "tok-123"),
        ("cache-control", "no-cache"),
        ("content-type", "application/json"),
        ("origin", "http://10.184.6.32"),
        ("pragma", "no-cache"),
        ("referer", "http://10.184.6.32/wenet/auth"),
    ];
    assert_eq!(headers.len(), expected.len());
    for ((name, value), (en, ev)) in headers.iter().zip(expected.iter()) {
        assert_eq!(name, en);
        assert_eq!(value, ev);
    }
    match session_headers(&network, "bad\ntoken") {
        Err(PortalError::InvalidHeaderValue(m)) => assert_eq!(m, "failed to parse header value"),
        other => panic!("unexpected: {other:?}"),
    }
    assert!(session_headers(&network, "令牌\ttab").is_ok());
}
