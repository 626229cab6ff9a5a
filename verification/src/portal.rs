//! Portal protocol decisions: probe classification, login classification and
//! the request bodies of the v3 encrypted APIs.
//!
//! The HTTP exchanges are carried out by the caller; this module decides what a
//! probe answer means, classifies decrypted login responses, and frames the
//! encrypted request bodies and the headers of the session APIs.

use vstd::prelude::*;

use crate::config::{gateway_base_text, NetworkConfig};
use crate::crypto::{encrypt_text, encrypted_hex, json_quote, json_string_literal};
use crate::error::PortalError;
use crate::text::{ascii_lower_seq, chars_contain, chars_of, contains_text, lower_chars, owned};
use crate::urls::{pair_views, parse_url, parsed_url, url_with_path, url_with_path_text};

verus! {

/// Result of the captive-portal network probe.
#[derive(Debug, Clone, PartialEq, Eq)]
pub enum NetworkStatus {
    /// The test URL succeeded, so no login is needed.
    Online,
    /// The test URL redirected to a portal login URL.
    Redirected(String),
}

/// Classified portal login response.
#[derive(Debug, Clone, PartialEq, Eq)]
pub enum LoginStatus {
    /// Login succeeded. A token may be present for subsequent session APIs.
    Success {
        /// Optional token returned by the portal.
        token: Option<String>,
    },
    /// Login reached the device limit. Some responses include a session API token.
    Overloaded {
        /// Portal-provided description of the limit condition.
        description: String,
        /// Optional token used to list and logout sessions.
        token: Option<String>,
    },
    /// Login failed for reasons other than device limit.
    Failed {
        /// Optional `code` from the portal.
        code: Option<i64>,
        /// Optional `error` from the portal.
        error: Option<i64>,
        /// Portal-provided failure description.
        description: String,
    },
}

/// Decrypted v3 login response.
#[derive(Debug, Clone)]
pub struct LoginResponse {
    /// Optional status code field observed in some responses.
    pub code: Option<i64>,
    /// Optional error field observed in other responses.
    pub error: Option<i64>,
    /// Optional human-readable error description.
    pub error_description: Option<String>,
    /// Optional token used by session APIs.
    pub token: Option<String>,
}

/// The text `already have`, which the portal uses in device-limit descriptions.
pub open spec fn already_have() -> Seq<char> {
    seq!['a', 'l', 'r', 'e', 'a', 'd', 'y', ' ', 'h', 'a', 'v', 'e']
}

/// The description of a login response, empty when absent.
pub open spec fn description_text(r: LoginResponse) -> Seq<char> {
    match r.error_description {
        Some(d) => d@,
        None => Seq::empty(),
    }
}

/// Whether a login response reports success: `code` or `error` is 0.
pub open spec fn reports_success(r: LoginResponse) -> bool {
    r.code == Some(0i64) || r.error == Some(0i64)
}

/// Whether a login response reports the device limit: `code` 39, `error` 39
/// or 81, or a description containing `already have` in any ASCII case.
pub open spec fn reports_device_limit(r: LoginResponse) -> bool {
    r.code == Some(39i64) || r.error == Some(39i64) || r.error == Some(81i64) || contains_text(
        ascii_lower_seq(description_text(r)),
        already_have(),
    )
}

/// The description text of a response, moved out of it.
fn take_description(d: Option<String>) -> (r: String)
    ensures
        r@ == (match d {
            Some(s) => s@,
            None => Seq::<char>::empty(),
        }),
{
    match d {
        Some(s) => s,
        None => String::new(),
    }
}

/// Whether `r` is the classification of `response`: success when `code` or
/// `error` is 0 (keeping the token); otherwise device limit when the response
/// reports it (keeping description and token); otherwise failure (keeping
/// code, error and description).
pub open spec fn classified_as(response: LoginResponse, r: LoginStatus) -> bool {
    &&& reports_success(response) ==> r == (LoginStatus::Success { token: response.token })
    &&& !reports_success(response) && reports_device_limit(response) ==> (r matches
        LoginStatus::Overloaded { description, token } && description@ == description_text(
        response) && token == response.token)
    &&& !reports_success(response) && !reports_device_limit(response) ==> (r matches
        LoginStatus::Failed { code, error, description } && code == response.code && error
        == response.error && description@ == description_text(response))
}

/// The portal's codes decide the classification: `code` or `error` 0 is a
/// success keeping the token; otherwise `code` 39 or `error` 39 or 81 is the
/// device limit, whatever the description says; and otherwise a description
/// mentioning `already have` in any letter case is the device limit too.
pub proof fn lemma_login_codes(response: LoginResponse, r: LoginStatus)
    requires
        classified_as(response, r),
    ensures
        response.code == Some(0i64) || response.error == Some(0i64) ==> r == (LoginStatus::Success {
            token: response.token,
        }),
        response.code != Some(0i64) && response.error != Some(0i64) && (response.code == Some(39i64)
            || response.error == Some(39i64) || response.error == Some(81i64) || contains_text(
            ascii_lower_seq(description_text(response)),
            seq!['a', 'l', 'r', 'e', 'a', 'd', 'y', ' ', 'h', 'a', 'v', 'e'],
        )) ==> (r matches LoginStatus::Overloaded { description, token } && token == response.token
            && description@ == description_text(response)),
        r is Failed ==> response.code != Some(0i64) && response.error != Some(0i64)
            && response.code != Some(39i64) && response.error != Some(39i64) && response.error
            != Some(81i64),
{
}

/// Classifies a decrypted login response into success, device-limit, or failure.
///
/// The portal has been observed using either `code` or `error`; both are checked.
pub fn classify_login_response(response: LoginResponse) -> (r: LoginStatus)
    ensures
        classified_as(response, r),
{
    if response.code == Some(0i64) || response.error == Some(0i64) {
        return LoginStatus::Success { token: response.token };
    }
    let description = take_description(response.error_description);
    let desc_chars = chars_of(description.as_str());
    let lower = lower_chars(desc_chars.as_slice());
    let pattern: Vec<char> = vec!['a', 'l', 'r', 'e', 'a', 'd', 'y', ' ', 'h', 'a', 'v', 'e'];
    assert(pattern@ == already_have());
    let mentions_limit = chars_contain(lower.as_slice(), pattern.as_slice());
    if response.code == Some(39i64) || response.error == Some(39i64) || response.error == Some(
        81i64,
    ) || mentions_limit {
        return LoginStatus::Overloaded { description, token: response.token };
    }
    LoginStatus::Failed { code: response.code, error: response.error, description }
}

} // verus!

verus! {

/// Whether an HTTP status is one of the redirects the probe understands:
/// 301, 302 or 307.
pub open spec fn is_redirect_status(status: u16) -> bool {
    status == 301 || status == 302 || status == 307
}

/// Whether an HTTP status is a success (2xx).
pub open spec fn is_success_status(status: u16) -> bool {
    200 <= status <= 299
}

/// Whether a text starts with `https://`.
pub open spec fn starts_with_https(s: Seq<char>) -> bool {
    s.len() >= 8 && s.subrange(0, 8) == seq!['h', 't', 't', 'p', 's', ':', '/', '/']
}

/// Returns true for redirect statuses that the portal probe understands.
pub fn is_redirect(status: u16) -> (r: bool)
    ensures
        r == is_redirect_status(status),
{
    status == 301 || status == 302 || status == 307
}

/// Checks whether a text starts with `https://`.
fn has_https_prefix(s: &str) -> (r: bool)
    ensures
        r == starts_with_https(s@),
{
    let cs = chars_of(s);
    let prefix: Vec<char> = vec!['h', 't', 't', 'p', 's', ':', '/', '/'];
    if cs.len() < 8 {
        return false;
    }
    let mut i: usize = 0;
    while i < 8
        invariant
            i <= 8,
            cs@ == s@,
            cs@.len() >= 8,
            prefix@ == seq!['h', 't', 't', 'p', 's', ':', '/', '/'],
            forall|k: int| 0 <= k < i ==> cs@[k] == prefix@[k],
        decreases 8 - i,
    {
        if cs[i] != prefix[i] {
            assert(s@.subrange(0, 8)[i as int] != prefix@[i as int]);
            return false;
        }
        i = i + 1;
    }
    assert(s@.subrange(0, 8) == prefix@);
    true
}

/// Interprets the answer of the captive-portal probe.
///
/// A success status means online. A 301/302/307 redirect means the portal
/// login flow should use the `Location` value, except that HTTPS redirects are
/// treated as online; a redirect without a readable `Location` is an error.
/// Any other status is unsupported.
pub fn classify_probe(status: u16, location: Option<String>) -> (r: Result<
    NetworkStatus,
    PortalError,
>)
    ensures
        is_success_status(status) ==> r == Ok::<NetworkStatus, PortalError>(NetworkStatus::Online),
        !is_success_status(status) && is_redirect_status(status) ==> match location {
            None => r matches Err(PortalError::MissingRedirect),
            Some(l) => if starts_with_https(l@) {
                r == Ok::<NetworkStatus, PortalError>(NetworkStatus::Online)
            } else {
                r matches Ok(NetworkStatus::Redirected(u)) && u == l
            },
        },
        !is_success_status(status) && !is_redirect_status(status) ==> (r matches Err(
            PortalError::UnsupportedNetworkStatus(s),
        ) && s == status),
{
    if 200 <= status && status <= 299 {
        return Ok(NetworkStatus::Online);
    }
    if is_redirect(status) {
        return match location {
            None => Err(PortalError::MissingRedirect),
            Some(l) => {
                if has_https_prefix(l.as_str()) {
                    Ok(NetworkStatus::Online)
                } else {
                    Ok(NetworkStatus::Redirected(l))
                }
            },
        };
    }
    Err(PortalError::UnsupportedNetworkStatus(status))
}

/// The redirect URL the portal accepts: the parsed URL, with path `/` when its
/// path is empty; `None` when the text is not a URL.
pub open spec fn fixed_redirect_url(raw: Seq<char>) -> Option<Seq<char>> {
    match parsed_url(raw) {
        None => None,
        Some(p) => if p.1.len() == 0 {
            Some(url_with_path_text(raw, "/"@))
        } else {
            Some(p.0)
        },
    }
}

/// Ensures a redirect URL has a path component acceptable to the portal.
///
/// Returns [`PortalError::UrlParse`] (with the raw text) if `raw_url` is not a
/// valid URL.
pub fn fix_redirect_url(raw_url: &str) -> (r: Result<String, PortalError>)
    ensures
        match r {
            Ok(s) => fixed_redirect_url(raw_url@) == Some(s@),
            Err(e) => fixed_redirect_url(raw_url@) is None && (e matches PortalError::UrlParse {
                url,
                ..
            } && url@ == raw_url@),
        },
{
    let parsed = match parse_url(raw_url) {
        Ok(p) => p,
        Err(source) => {
            return Err(PortalError::UrlParse { url: owned(raw_url), source });
        },
    };
    if parsed.path.as_str().is_empty() {
        match url_with_path(raw_url, "/") {
            Ok(s) => Ok(s),
            Err(source) => Err(PortalError::UrlParse { url: owned(raw_url), source }),
        }
    } else {
        Ok(parsed.serialization)
    }
}

/// The compact JSON of a login request, fields in protocol order.
pub open spec fn login_json(redirect_url: Seq<char>, user: Seq<char>, password: Seq<char>) -> Seq<
    char,
> {
    "{\"deviceType\":"@ + json_string_literal("PC"@) + ",\"redirectUrl\":"@ + json_string_literal(
        redirect_url,
    ) + ",\"webAuthUser\":"@ + json_string_literal(user) + ",\"webAuthPassword\":"@
        + json_string_literal(password) + "}"@
}

/// The compact JSON of a session logout request.
pub open spec fn logout_json(unique_id: Seq<char>, mac: Seq<char>) -> Seq<char> {
    "{\"acctUniqueId\":"@ + json_string_literal(unique_id) + ",\"mac\":"@ + json_string_literal(
        mac,
    ) + "}"@
}

/// Serializes a text as a JSON string literal.
fn quoted(s: &str) -> (r: Result<String, PortalError>)
    ensures
        r matches Ok(q) && q@ == json_string_literal(s@),
{
    match json_quote(s) {
        Ok(q) => Ok(q),
        Err(e) => Err(PortalError::Json(e)),
    }
}

/// The compact JSON text of a login request.
pub fn login_request_json(redirect_url: &str, user: &str, password: &str) -> (r: Result<
    String,
    PortalError,
>)
    ensures
        r matches Ok(j) && j@ == login_json(redirect_url@, user@, password@),
{
    let mut body = owned("{\"deviceType\":");
    body.append(quoted("PC")?.as_str());
    body.append(",\"redirectUrl\":");
    body.append(quoted(redirect_url)?.as_str());
    body.append(",\"webAuthUser\":");
    body.append(quoted(user)?.as_str());
    body.append(",\"webAuthPassword\":");
    body.append(quoted(password)?.as_str());
    body.append("}");
    Ok(body)
}

/// The compact JSON text of a session logout request.
pub fn logout_request_json(unique_id: &str, mac: &str) -> (r: Result<String, PortalError>)
    ensures
        r matches Ok(j) && j@ == logout_json(unique_id@, mac@),
{
    let mut body = owned("{\"acctUniqueId\":");
    body.append(quoted(unique_id)?.as_str());
    body.append(",\"mac\":");
    body.append(quoted(mac)?.as_str());
    body.append("}");
    Ok(body)
}

/// Builds the encrypted body of a login request.
///
/// The redirect URL is first given a path (see [`fix_redirect_url`]); the
/// request is the compact JSON of device type `PC`, the redirect URL and the
/// credentials, encrypted for the portal.
pub fn login_request_body(redirect_url: &str, username: &str, password: &str) -> (r: Result<
    String,
    PortalError,
>)
    ensures
        match r {
            Ok(b) => fixed_redirect_url(redirect_url@) matches Some(f) && b@ == encrypted_hex(
                login_json(f, username@, password@),
            ),
            Err(e) => fixed_redirect_url(redirect_url@) is None && (e matches PortalError::UrlParse {
                url,
                ..
            } && url@ == redirect_url@),
        },
{
    let fixed = fix_redirect_url(redirect_url)?;
    let json = login_request_json(fixed.as_str(), username, password)?;
    encrypt_text(json.as_str())
}

/// Builds the encrypted body of a session logout request.
///
/// `mac` should be the MAC text returned by the portal, not a normalized MAC,
/// because the logout endpoint may expect the separator format it reported.
pub fn logout_request_body(unique_id: &str, mac: &str) -> (r: Result<String, PortalError>)
    ensures
        r matches Ok(b) && b@ == encrypted_hex(logout_json(unique_id@, mac@)),
{
    let json = logout_request_json(unique_id, mac)?;
    encrypt_text(json.as_str())
}

/// Decides the outcome of a login exchange.
///
/// `parsed` is the decrypted and parsed response body. A non-success HTTP
/// status is still classified when the body could be read, because the portal
/// may encode meaningful login status in it; otherwise the status and body
/// are reported as [`PortalError::PortalHttpStatus`]. With a success status the
/// body must be readable.
pub fn login_outcome(
    status: u16,
    body: String,
    parsed: Result<LoginResponse, PortalError>,
) -> (r: Result<LoginStatus, PortalError>)
    ensures
        match parsed {
            Ok(resp) => r matches Ok(st) && classified_as(resp, st),
            Err(e) => if is_success_status(status) {
                r == Err::<LoginStatus, PortalError>(e)
            } else {
                r matches Err(PortalError::PortalHttpStatus { status: s, body: b }) && s == status
                    && b == body
            },
        },
{
    match parsed {
        Ok(resp) => Ok(classify_login_response(resp)),
        Err(e) => {
            if 200 <= status && status <= 299 {
                Err(e)
            } else {
                Err(PortalError::PortalHttpStatus { status, body })
            }
        },
    }
}

// ---------------------------------------------------------------------------
// Session API headers.

/// Whether a character may stand in an HTTP header value: a tab, or any
/// character from the space up other than DEL.
pub open spec fn is_header_value_char(c: char) -> bool {
    c == '\t' || (32 <= (c as u32) && (c as u32) != 127)
}

/// Whether a text is a valid HTTP header value.
pub open spec fn is_header_value(s: Seq<char>) -> bool {
    forall|i: int| 0 <= i < s.len() ==> is_header_value_char(#[trigger] s[i])
}

/// The message of a refused header value.
pub open spec fn invalid_header_message() -> Seq<char> {
    "failed to parse header value"@
}

/// Checks that a text can be an HTTP header value.
///
/// Calls `reqwest::header::HeaderValue::from_str`, which refuses a text exactly
/// when one of its UTF-8 bytes is below 32 (other than the tab) or is 127;
/// every byte of a non-ASCII character is at least 128. A refusal is reported
/// with the error's message, `failed to parse header value`.
#[verifier::external_body]
fn check_header_value(value: &str) -> (r: Result<(), String>)
    ensures
        r is Ok <==> is_header_value(value@),
        r matches Err(m) ==> m@ == invalid_header_message(),
{
    match reqwest::header::HeaderValue::from_str(value) {
        Ok(_) => Ok(()),
        Err(e) => Err(e.to_string()),
    }
}

/// The referer of session API requests.
pub open spec fn session_referer(gateway: Seq<char>) -> Seq<char> {
    gateway_base_text(gateway) + "/wenet/auth"@
}

/// The headers of session API requests, as lowercase names and values, in
/// order: the browser-like accept headers, the token as authorization, and
/// the gateway base as origin and (with `/wenet/auth`) as referer.
pub open spec fn session_header_pairs(gateway: Seq<char>, token: Seq<char>) -> Seq<
    (Seq<char>, Seq<char>),
> {
    seq![
        ("accept"@, "application/json, text/plain, */*"@),
        ("accept-language"@, "zh-CN,zh;q=0.9"@),
        ("authorization"@, token),
        ("cache-control"@, "no-cache"@),
        ("content-type"@, "application/json"@),
        ("origin"@, gateway_base_text(gateway)),
        ("pragma"@, "no-cache"@),
        ("referer"@, session_referer(gateway)),
    ]
}

/// Builds the headers required by the session APIs.
///
/// Fails with [`PortalError::InvalidHeaderValue`] when the token, the origin
/// or the referer cannot be an HTTP header value.
pub fn session_headers(network: &NetworkConfig, token: &str) -> (r: Result<
    Vec<(String, String)>,
    PortalError,
>)
    ensures
        match r {
            Ok(v) => pair_views(v@) == session_header_pairs(network.gateway@, token@)
                && is_header_value(token@) && is_header_value(gateway_base_text(network.gateway@))
                && is_header_value(session_referer(network.gateway@)),
            Err(e) => !(is_header_value(token@) && is_header_value(
                gateway_base_text(network.gateway@),
            ) && is_header_value(session_referer(network.gateway@))) && (e matches PortalError::InvalidHeaderValue(m)
                && m@ == invalid_header_message()),
        },
{
    let base = network.gateway_base();
    let mut referer = base.clone();
    referer.append("/wenet/auth");
    proof {
        reveal_strlit("/wenet/auth");
    }
    match check_header_value(token) {
        Ok(()) => {},
        Err(m) => {
            return Err(PortalError::InvalidHeaderValue(m));
        },
    }
    match check_header_value(base.as_str()) {
        Ok(()) => {},
        Err(m) => {
            return Err(PortalError::InvalidHeaderValue(m));
        },
    }
    match check_header_value(referer.as_str()) {
        Ok(()) => {},
        Err(m) => {
            return Err(PortalError::InvalidHeaderValue(m));
        },
    }
    let mut v: Vec<(String, String)> = Vec::new();
    v.push((owned("accept"), owned("application/json, text/plain, */*")));
    v.push((owned("accept-language"), owned("zh-CN,zh;q=0.9")));
    v.push((owned("authorization"), owned(token)));
    v.push((owned("cache-control"), owned("no-cache")));
    v.push((owned("content-type"), owned("application/json")));
    v.push((owned("origin"), base));
    v.push((owned("pragma"), owned("no-cache")));
    v.push((owned("referer"), referer));
    proof {
        assert(pair_views(v@) =~= session_header_pairs(network.gateway@, token@));
    }
    Ok(v)
}

} // verus!
