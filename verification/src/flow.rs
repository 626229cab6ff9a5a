//! Decisions of the login, list and logout flows.
//!
//! The caller performs the network exchanges; the functions here decide, from
//! what the portal answered, what happens next. The automatic login of one
//! target is a small state machine ([`LoginFlow`]): each step takes the answer
//! to the previous action and returns the next action.

use vstd::prelude::*;

use crate::config::{AccountConfig, AppConfig, ResolvedTarget};
use crate::error::PortalError;
use crate::portal::{LoginStatus, NetworkStatus};
use crate::selection::{first_session_with_mac, AccountLogout, AccountSessions};
use crate::session::{choose_logout_mac, logout_choice, str_views, Session};
use crate::text::{owned, strings_contain, text_eq, views};

verus! {

/// Where the automatic login of one target stands.
#[derive(Debug)]
pub enum LoginState {
    /// Waiting for the captive-portal probe.
    Probing,
    /// Waiting for the first login answer.
    LoggingIn { redirect_url: String },
    /// Waiting for the session list needed to free a device slot.
    ListingSessions { redirect_url: String, token: String },
    /// Waiting for the logout of one existing session.
    LoggingOut { redirect_url: String },
    /// Waiting for the login answer after the automatic logout.
    Retrying,
    /// Done.
    Finished,
}

/// The answer to the previous action.
#[derive(Debug)]
pub enum LoginEvent {
    /// The probe answered.
    Probed(Result<NetworkStatus, PortalError>),
    /// A login answered.
    LoggedIn(Result<LoginStatus, PortalError>),
    /// The session list answered.
    SessionsListed(Result<Vec<Session>, PortalError>),
    /// The session logout answered.
    LoggedOut(Result<(), PortalError>),
}

/// What the caller must do next.
#[derive(Debug)]
pub enum LoginAction {
    /// Probe the test URL without following redirects.
    CheckNetwork,
    /// Log in with the redirect URL; when `record_nas_ip` is set, the redirect
    /// came from the probe and its NAS IP may be written back.
    Login { redirect_url: String, record_nas_ip: bool },
    /// List the account's sessions with the token.
    ListSessions { token: String },
    /// Log out the session with this unique ID and portal MAC text.
    Logout { token: String, unique_id: String, api_mac: String },
    /// Stop with this result.
    Finish(Result<(), PortalError>),
}

/// The automatic login of one target.
#[derive(Debug)]
pub struct LoginFlow {
    /// Where the flow stands.
    pub state: LoginState,
    /// Whether one existing session may be logged out at the device limit.
    pub logout_enabled: bool,
    /// The known device MAC texts, in configuration order.
    pub known_macs: Vec<String>,
}

/// The MAC texts of sessions.
pub open spec fn session_mac_views(sessions: Seq<Session>) -> Seq<Seq<char>> {
    sessions.map_values(|s: Session| s.mac@)
}

/// Whether `event` answers the action that led to `state`.
pub open spec fn answers(state: LoginState, event: LoginEvent) -> bool {
    match state {
        LoginState::Probing => event is Probed,
        LoginState::LoggingIn { .. } => event is LoggedIn,
        LoginState::ListingSessions { .. } => event is SessionsListed,
        LoginState::LoggingOut { .. } => event is LoggedOut,
        LoginState::Retrying => event is LoggedIn,
        LoginState::Finished => false,
    }
}

/// The step that ends the flow with `result`.
pub open spec fn finish(result: Result<(), PortalError>) -> (LoginState, LoginAction) {
    (LoginState::Finished, LoginAction::Finish(result))
}

/// The next state and action of the automatic login.
///
/// * Online after the probe: done. Redirected: log in with the redirect URL.
/// * Login success: done. Failure: rejected. Device limit: with automatic
///   logout disabled, fail; without token, fail; else list the sessions.
/// * With the sessions, log out the one chosen by [`logout_choice`]; without
///   a candidate, fail.
/// * After the logout, log in again; the second answer must be a success.
/// * Any failed exchange ends the flow with its error.
pub open spec fn login_transition(
    state: LoginState,
    event: LoginEvent,
    logout_enabled: bool,
    known: Seq<Seq<char>>,
) -> (LoginState, LoginAction) {
    match state {
        LoginState::Probing => match event {
            LoginEvent::Probed(Err(e)) => finish(Err(e)),
            LoginEvent::Probed(Ok(NetworkStatus::Online)) => finish(Ok(())),
            LoginEvent::Probed(Ok(NetworkStatus::Redirected(url))) => (
                LoginState::LoggingIn { redirect_url: url },
                LoginAction::Login { redirect_url: url, record_nas_ip: true },
            ),
            _ => finish(Err(PortalError::NoLogoutCandidate)),
        },
        LoginState::LoggingIn { redirect_url } => match event {
            LoginEvent::LoggedIn(Err(e)) => finish(Err(e)),
            LoginEvent::LoggedIn(Ok(LoginStatus::Success { .. })) => finish(Ok(())),
            LoginEvent::LoggedIn(Ok(LoginStatus::Failed { code, error, description })) => finish(
                Err(PortalError::LoginRejected { code, error, description }),
            ),
            LoginEvent::LoggedIn(Ok(LoginStatus::Overloaded { token, .. })) => if !logout_enabled {
                finish(Err(PortalError::DeviceLimitReached))
            } else {
                match token {
                    None => finish(Err(PortalError::MissingToken)),
                    Some(t) => (
                        LoginState::ListingSessions { redirect_url, token: t },
                        LoginAction::ListSessions { token: t },
                    ),
                }
            },
            _ => finish(Err(PortalError::NoLogoutCandidate)),
        },
        LoginState::ListingSessions { redirect_url, token } => match event {
            LoginEvent::SessionsListed(Err(e)) => finish(Err(e)),
            LoginEvent::SessionsListed(Ok(sessions)) => match logout_choice(
                session_mac_views(sessions@),
                known,
            ) {
                None => finish(Err(PortalError::NoLogoutCandidate)),
                Some(m) => match first_session_with_mac(sessions@, m) {
                    None => finish(Err(PortalError::NoLogoutCandidate)),
                    Some(i) => (
                        LoginState::LoggingOut { redirect_url },
                        LoginAction::Logout {
                            token,
                            unique_id: sessions@[i].unique_id,
                            api_mac: sessions@[i].api_mac,
                        },
                    ),
                },
            },
            _ => finish(Err(PortalError::NoLogoutCandidate)),
        },
        LoginState::LoggingOut { redirect_url } => match event {
            LoginEvent::LoggedOut(Err(e)) => finish(Err(e)),
            LoginEvent::LoggedOut(Ok(())) => (
                LoginState::Retrying,
                LoginAction::Login { redirect_url, record_nas_ip: false },
            ),
            _ => finish(Err(PortalError::NoLogoutCandidate)),
        },
        LoginState::Retrying => match event {
            LoginEvent::LoggedIn(Err(e)) => finish(Err(e)),
            LoginEvent::LoggedIn(Ok(LoginStatus::Success { .. })) => finish(Ok(())),
            LoginEvent::LoggedIn(Ok(LoginStatus::Overloaded { description, .. })) => finish(
                Err(PortalError::StillOverloaded(description)),
            ),
            LoginEvent::LoggedIn(Ok(LoginStatus::Failed { code, error, description })) => finish(
                Err(PortalError::LoginRejected { code, error, description }),
            ),
            _ => finish(Err(PortalError::NoLogoutCandidate)),
        },
        LoginState::Finished => finish(Err(PortalError::NoLogoutCandidate)),
    }
}

/// The session MAC texts as string slices.
fn session_mac_strs(sessions: &Vec<Session>) -> (r: Vec<&str>)
    ensures
        str_views(r@) == session_mac_views(sessions@),
{
    let mut out: Vec<&str> = Vec::new();
    let mut i: usize = 0;
    while i < sessions.len()
        invariant
            i <= sessions@.len(),
            out@.len() == i,
            forall|k: int| 0 <= k < i ==> (#[trigger] out@[k])@ == sessions@[k].mac@,
        decreases sessions@.len() - i,
    {
        out.push(sessions[i].mac.as_str());
        i = i + 1;
    }
    assert(str_views(out@) =~= session_mac_views(sessions@));
    out
}

/// Finds the first session whose MAC text is `mac`.
fn first_index_with_mac(sessions: &Vec<Session>, mac: &String) -> (r: Option<usize>)
    ensures
        match r {
            Some(i) => i < sessions@.len() && first_session_with_mac(sessions@, mac@) == Some(
                i as int,
            ),
            None => first_session_with_mac(sessions@, mac@) is None,
        },
{
    let mut i: usize = 0;
    while i < sessions.len()
        invariant
            i <= sessions@.len(),
            forall|j: int| 0 <= j < i ==> sessions@[j].mac@ != mac@,
        decreases sessions@.len() - i,
    {
        if sessions[i].mac == *mac {
            proof {
                crate::selection::lemma_first_session_with_mac(sessions@, mac@, i as int);
            }
            return Some(i);
        }
        i = i + 1;
    }
    proof {
        crate::selection::lemma_first_session_with_mac(sessions@, mac@, sessions@.len() as int);
    }
    None
}

impl LoginFlow {
    /// Starts the automatic login of a target: probe first.
    pub fn start(config: &AppConfig) -> (r: (LoginFlow, LoginAction))
        ensures
            r.0.state is Probing,
            r.0.logout_enabled == config.logout.enabled,
            views(r.0.known_macs@) == config.logout.known_macs@.map_values(
                |k: crate::config::KnownMacConfig| k.mac@,
            ),
            r.1 is CheckNetwork,
    {
        let known = &config.logout.known_macs;
        let mut macs: Vec<String> = Vec::new();
        let mut i: usize = 0;
        while i < known.len()
            invariant
                i <= known@.len(),
                macs@.len() == i,
                forall|k: int| 0 <= k < i ==> (#[trigger] macs@[k])@ == known@[k].mac@,
            decreases known@.len() - i,
        {
            macs.push(known[i].mac.clone());
            i = i + 1;
        }
        assert(views(macs@) =~= known@.map_values(|k: crate::config::KnownMacConfig| k.mac@));
        (
            LoginFlow { state: LoginState::Probing, logout_enabled: config.logout.enabled, known_macs: macs },
            LoginAction::CheckNetwork,
        )
    }

    /// Whether `event` answers the last action of this flow.
    pub fn expects(&self, event: &LoginEvent) -> (r: bool)
        ensures
            r == answers(self.state, *event),
    {
        match (&self.state, event) {
            (LoginState::Probing, LoginEvent::Probed(_)) => true,
            (LoginState::LoggingIn { .. }, LoginEvent::LoggedIn(_)) => true,
            (LoginState::ListingSessions { .. }, LoginEvent::SessionsListed(_)) => true,
            (LoginState::LoggingOut { .. }, LoginEvent::LoggedOut(_)) => true,
            (LoginState::Retrying, LoginEvent::LoggedIn(_)) => true,
            _ => false,
        }
    }

    /// Takes the answer to the last action and returns the next action.
    pub fn step(&mut self, event: LoginEvent) -> (r: LoginAction)
        requires
            answers(old(self).state, event),
        ensures
            (final(self).state, r) == login_transition(
                old(self).state,
                event,
                old(self).logout_enabled,
                views(old(self).known_macs@),
            ),
            final(self).logout_enabled == old(self).logout_enabled,
            final(self).known_macs == old(self).known_macs,
    {
        let mut state = LoginState::Finished;
        std::mem::swap(&mut state, &mut self.state);
        let (next, action) = match state {
            LoginState::Probing => match event {
                LoginEvent::Probed(Err(e)) => (LoginState::Finished, LoginAction::Finish(Err(e))),
                LoginEvent::Probed(Ok(NetworkStatus::Online)) => (
                    LoginState::Finished,
                    LoginAction::Finish(Ok(())),
                ),
                LoginEvent::Probed(Ok(NetworkStatus::Redirected(url))) => {
                    let again = url.clone();
                    (
                        LoginState::LoggingIn { redirect_url: url },
                        LoginAction::Login { redirect_url: again, record_nas_ip: true },
                    )
                },
                _ => (LoginState::Finished, LoginAction::Finish(Err(PortalError::NoLogoutCandidate))),
            },
            LoginState::LoggingIn { redirect_url } => match event {
                LoginEvent::LoggedIn(Err(e)) => (LoginState::Finished, LoginAction::Finish(Err(e))),
                LoginEvent::LoggedIn(Ok(LoginStatus::Success { .. })) => (
                    LoginState::Finished,
                    LoginAction::Finish(Ok(())),
                ),
                LoginEvent::LoggedIn(Ok(LoginStatus::Failed { code, error, description })) => (
                    LoginState::Finished,
                    LoginAction::Finish(Err(PortalError::LoginRejected { code, error, description })),
                ),
                LoginEvent::LoggedIn(Ok(LoginStatus::Overloaded { token, .. })) => {
                    if !self.logout_enabled {
                        (LoginState::Finished, LoginAction::Finish(Err(PortalError::DeviceLimitReached)))
                    } else {
                        match token {
                            None => (
                                LoginState::Finished,
                                LoginAction::Finish(Err(PortalError::MissingToken)),
                            ),
                            Some(t) => {
                                let again = t.clone();
                                (
                                    LoginState::ListingSessions { redirect_url, token: t },
                                    LoginAction::ListSessions { token: again },
                                )
                            },
                        }
                    }
                },
                _ => (LoginState::Finished, LoginAction::Finish(Err(PortalError::NoLogoutCandidate))),
            },
            LoginState::ListingSessions { redirect_url, token } => match event {
                LoginEvent::SessionsListed(Err(e)) => (
                    LoginState::Finished,
                    LoginAction::Finish(Err(e)),
                ),
                LoginEvent::SessionsListed(Ok(sessions)) => {
                    let macs = session_mac_strs(&sessions);
                    match choose_logout_mac(macs.as_slice(), self.known_macs.as_slice()) {
                        None => (
                            LoginState::Finished,
                            LoginAction::Finish(Err(PortalError::NoLogoutCandidate)),
                        ),
                        Some(chosen) => match first_index_with_mac(&sessions, &chosen) {
                            None => (
                                LoginState::Finished,
                                LoginAction::Finish(Err(PortalError::NoLogoutCandidate)),
                            ),
                            Some(i) => {
                                let unique_id = sessions[i].unique_id.clone();
                                let api_mac = sessions[i].api_mac.clone();
                                (
                                    LoginState::LoggingOut { redirect_url },
                                    LoginAction::Logout { token, unique_id, api_mac },
                                )
                            },
                        },
                    }
                },
                _ => (LoginState::Finished, LoginAction::Finish(Err(PortalError::NoLogoutCandidate))),
            },
            LoginState::LoggingOut { redirect_url } => match event {
                LoginEvent::LoggedOut(Err(e)) => (LoginState::Finished, LoginAction::Finish(Err(e))),
                LoginEvent::LoggedOut(Ok(())) => (
                    LoginState::Retrying,
                    LoginAction::Login { redirect_url, record_nas_ip: false },
                ),
                _ => (LoginState::Finished, LoginAction::Finish(Err(PortalError::NoLogoutCandidate))),
            },
            LoginState::Retrying => match event {
                LoginEvent::LoggedIn(Err(e)) => (LoginState::Finished, LoginAction::Finish(Err(e))),
                LoginEvent::LoggedIn(Ok(LoginStatus::Success { .. })) => (
                    LoginState::Finished,
                    LoginAction::Finish(Ok(())),
                ),
                LoginEvent::LoggedIn(Ok(LoginStatus::Overloaded { description, .. })) => (
                    LoginState::Finished,
                    LoginAction::Finish(Err(PortalError::StillOverloaded(description))),
                ),
                LoginEvent::LoggedIn(Ok(LoginStatus::Failed { code, error, description })) => (
                    LoginState::Finished,
                    LoginAction::Finish(Err(PortalError::LoginRejected { code, error, description })),
                ),
                _ => (LoginState::Finished, LoginAction::Finish(Err(PortalError::NoLogoutCandidate))),
            },
            LoginState::Finished => (
                LoginState::Finished,
                LoginAction::Finish(Err(PortalError::NoLogoutCandidate)),
            ),
        };
        self.state = next;
        action
    }
}

} // verus!

verus! {

/// How many more logins the automatic login may ask for from a state.
pub open spec fn logins_left(s: LoginState) -> int {
    match s {
        LoginState::Probing => 2,
        LoginState::LoggingIn { .. } => 1,
        LoginState::ListingSessions { .. } => 1,
        LoginState::LoggingOut { .. } => 1,
        LoginState::Retrying => 0,
        LoginState::Finished => 0,
    }
}

/// How many more session logouts the automatic login may ask for from a state.
pub open spec fn logouts_left(s: LoginState) -> int {
    match s {
        LoginState::Probing => 1,
        LoginState::LoggingIn { .. } => 1,
        LoginState::ListingSessions { .. } => 1,
        _ => 0,
    }
}

/// How far a state is from the end of the automatic login.
pub open spec fn steps_left(s: LoginState) -> int {
    match s {
        LoginState::Probing => 5,
        LoginState::LoggingIn { .. } => 4,
        LoginState::ListingSessions { .. } => 3,
        LoginState::LoggingOut { .. } => 2,
        LoginState::Retrying => 1,
        LoginState::Finished => 0,
    }
}

/// One automatic login asks for at most two logins (the first one and one
/// retry) and at most one session logout: no step asks for more than the
/// state it leaves still allows.
pub proof fn lemma_login_budget(
    state: LoginState,
    event: LoginEvent,
    logout_enabled: bool,
    known: Seq<Seq<char>>,
)
    requires
        answers(state, event),
    ensures
        ({
            let (next, action) = login_transition(state, event, logout_enabled, known);
            &&& logins_left(next) + (if action is Login {
                1int
            } else {
                0int
            }) <= logins_left(state)
            &&& logouts_left(next) + (if action is Logout {
                1int
            } else {
                0int
            }) <= logouts_left(state)
        }),
{
}

/// Every step of the automatic login moves towards its end, and the flow is
/// finished exactly when the action is to stop; so it ends after at most
/// five answers.
pub proof fn lemma_login_progress(
    state: LoginState,
    event: LoginEvent,
    logout_enabled: bool,
    known: Seq<Seq<char>>,
)
    requires
        answers(state, event),
    ensures
        ({
            let (next, action) = login_transition(state, event, logout_enabled, known);
            &&& steps_left(next) < steps_left(state)
            &&& (next is Finished) == (action is Finish)
        }),
{
}

/// Sessions are listed, and one is logged out, only when automatic logout is
/// enabled: the flow enters the session-listing state only then, and a logout
/// is asked for only from that state.
pub proof fn lemma_logout_only_when_enabled(
    state: LoginState,
    event: LoginEvent,
    logout_enabled: bool,
    known: Seq<Seq<char>>,
)
    requires
        answers(state, event),
    ensures
        ({
            let (next, action) = login_transition(state, event, logout_enabled, known);
            &&& (next is ListingSessions || action is ListSessions) ==> logout_enabled
            &&& action is Logout ==> state is ListingSessions
        }),
{
}

/// A failed exchange ends the automatic login with its own error, and the
/// login ends successfully only on a probe that finds the network online or
/// on a login answer that is a success.
pub proof fn lemma_login_fails_on_failed_exchange(
    state: LoginState,
    event: LoginEvent,
    logout_enabled: bool,
    known: Seq<Seq<char>>,
)
    requires
        answers(state, event),
    ensures
        ({
            let (next, action) = login_transition(state, event, logout_enabled, known);
            &&& event matches LoginEvent::Probed(Err(e)) ==> next is Finished && action
                == LoginAction::Finish(Err(e))
            &&& event matches LoginEvent::LoggedIn(Err(e)) ==> next is Finished && action
                == LoginAction::Finish(Err(e))
            &&& event matches LoginEvent::SessionsListed(Err(e)) ==> next is Finished && action
                == LoginAction::Finish(Err(e))
            &&& event matches LoginEvent::LoggedOut(Err(e)) ==> next is Finished && action
                == LoginAction::Finish(Err(e))
            &&& action == LoginAction::Finish(Ok(())) ==> (event == LoginEvent::Probed(
                Ok(NetworkStatus::Online),
            ) || event matches LoginEvent::LoggedIn(Ok(LoginStatus::Success { .. })))
        }),
{
}

/// A probe that finds the network online ends the automatic login
/// successfully without any login.
pub proof fn lemma_online_needs_no_login(logout_enabled: bool, known: Seq<Seq<char>>)
    ensures
        login_transition(
            LoginState::Probing,
            LoginEvent::Probed(Ok(NetworkStatus::Online)),
            logout_enabled,
            known,
        ) == finish(Ok(())),
{
}

/// The session that the automatic login logs out carries the MAC chosen by
/// the logout policy ([`logout_choice`]), and its unique ID and portal MAC text
/// are what the logout request sends.
pub proof fn lemma_logout_follows_policy(
    redirect_url: String,
    token: String,
    sessions: Vec<Session>,
    logout_enabled: bool,
    known: Seq<Seq<char>>,
)
    ensures
        ({
            let (next, action) = login_transition(
                LoginState::ListingSessions { redirect_url, token },
                LoginEvent::SessionsListed(Ok(sessions)),
                logout_enabled,
                known,
            );
            action matches LoginAction::Logout { token: t, unique_id, api_mac } ==> exists|i: int|
                0 <= i < sessions@.len() && Some(sessions@[i].mac@) == logout_choice(
                    session_mac_views(sessions@),
                    known,
                ) && unique_id == sessions@[i].unique_id && api_mac == sessions@[i].api_mac
                    && t == token
        }),
{
    let choice = logout_choice(session_mac_views(sessions@), known);
    if let Some(m) = choice {
        crate::selection::lemma_first_session_with_mac(sessions@, m, 0);
    }
}

} // verus!

verus! {

// ---------------------------------------------------------------------------
// Session token.

/// How the session-token login finds its redirect URL.
#[derive(Debug, Clone, Copy, PartialEq, Eq, Structural)]
pub enum TokenStart {
    /// Build the session redirect URL from the configuration right away.
    SessionUrl,
    /// Probe the network first.
    Probe,
}

/// Chooses how the session-token login starts: a target with an interface
/// can build a real redirect URL directly when the NAS IP is known; otherwise
/// the network is probed first, so that a captive redirect can reveal the NAS IP.
pub fn session_token_start(config: &AppConfig, target: &ResolvedTarget) -> (r: TokenStart)
    ensures
        r == (if target.interface is Some && config.network.nas_ip is Some {
            TokenStart::SessionUrl
        } else {
            TokenStart::Probe
        }),
{
    if target.interface.is_some() && config.network.nas_ip.is_some() {
        TokenStart::SessionUrl
    } else {
        TokenStart::Probe
    }
}

/// The redirect URL for the session-token login after a probe.
#[derive(Debug)]
pub enum TokenRedirect {
    /// Online: build the session redirect URL from the configuration.
    SessionUrl,
    /// Captive: log in with the portal's redirect URL (whose NAS IP may be written back).
    Redirect(String),
}

/// Chooses the redirect URL of the session-token login from the probe result.
pub fn token_redirect_after_probe(status: NetworkStatus) -> (r: TokenRedirect)
    ensures
        match status {
            NetworkStatus::Online => r is SessionUrl,
            NetworkStatus::Redirected(u) => r matches TokenRedirect::Redirect(x) && x == u,
        },
{
    match status {
        NetworkStatus::Online => TokenRedirect::SessionUrl,
        NetworkStatus::Redirected(u) => TokenRedirect::Redirect(u),
    }
}

/// The session API token carried by a login answer.
///
/// Success and device-limit answers carry it (its absence is
/// [`PortalError::MissingToken`]); a failed login is rejected.
pub fn session_token(status: LoginStatus) -> (r: Result<String, PortalError>)
    ensures
        match status {
            LoginStatus::Success { token } => match token {
                Some(t) => r == Ok::<String, PortalError>(t),
                None => r matches Err(PortalError::MissingToken),
            },
            LoginStatus::Overloaded { token, .. } => match token {
                Some(t) => r == Ok::<String, PortalError>(t),
                None => r matches Err(PortalError::MissingToken),
            },
            LoginStatus::Failed { code, error, description } => r == Err::<String, PortalError>(
                PortalError::LoginRejected { code, error, description },
            ),
        },
{
    match status {
        LoginStatus::Success { token: Some(t) } => Ok(t),
        LoginStatus::Overloaded { token: Some(t), .. } => Ok(t),
        LoginStatus::Success { token: None } => Err(PortalError::MissingToken),
        LoginStatus::Overloaded { token: None, .. } => Err(PortalError::MissingToken),
        LoginStatus::Failed { code, error, description } => Err(
            PortalError::LoginRejected { code, error, description },
        ),
    }
}

/// The message when an account has no target for the session API.
pub open spec fn no_session_target_message() -> Seq<char> {
    "账号没有配置可用于访问 session API 的 target"@
}

/// The error when no target of an account could obtain a session token: the
/// last target's error, or invalid configuration when there was no target.
pub fn session_target_failure(last_error: Option<PortalError>) -> (r: PortalError)
    ensures
        match last_error {
            Some(e) => r == e,
            None => r matches PortalError::InvalidConfig(m) && m@ == no_session_target_message(),
        },
{
    match last_error {
        Some(e) => e,
        None => PortalError::InvalidConfig(owned("账号没有配置可用于访问 session API 的 target")),
    }
}

// ---------------------------------------------------------------------------
// Targets.

/// The distinct usernames of targets, in order of first appearance.
pub open spec fn distinct_usernames(ts: Seq<ResolvedTarget>) -> Seq<Seq<char>>
    decreases ts.len(),
{
    if ts.len() == 0 {
        Seq::empty()
    } else {
        let prev = distinct_usernames(ts.drop_last());
        if prev.contains(ts.last().account.username@) {
            prev
        } else {
            prev.push(ts.last().account.username@)
        }
    }
}

/// The targets whose account has username `u`, in order.
pub open spec fn with_username(ts: Seq<ResolvedTarget>, u: Seq<char>) -> Seq<ResolvedTarget>
    decreases ts.len(),
{
    if ts.len() == 0 {
        Seq::empty()
    } else {
        let prev = with_username(ts.drop_last(), u);
        if ts.last().account.username@ == u {
            prev.push(ts.last())
        } else {
            prev
        }
    }
}

/// Groups targets by account username while preserving first-seen group order.
///
/// Targets of one username run one after the other, so repeated logins of the
/// same account do not race for its device slots.
pub fn group_targets_by_username(targets: Vec<ResolvedTarget>) -> (r: Vec<Vec<ResolvedTarget>>)
    ensures
        r@.len() == distinct_usernames(targets@).len(),
        forall|k: int|
            0 <= k < r@.len() ==> (#[trigger] r@[k])@ == with_username(
                targets@,
                distinct_usernames(targets@)[k],
            ),
{
    let mut names: Vec<String> = Vec::new();
    let mut i: usize = 0;
    while i < targets.len()
        invariant
            i <= targets@.len(),
            views(names@) == distinct_usernames(targets@.take(i as int)),
        decreases targets@.len() - i,
    {
        let ghost before = names@;
        proof {
            assert(targets@.take(i + 1).drop_last() == targets@.take(i as int));
            assert(targets@.take(i + 1).last() == targets@[i as int]);
        }
        if !strings_contain(&names, &targets[i].account.username) {
            names.push(targets[i].account.username.clone());
            assert(views(names@) == views(before).push(targets@[i as int].account.username@));
        }
        i = i + 1;
    }
    assert(targets@.take(targets@.len() as int) == targets@);
    let mut groups: Vec<Vec<ResolvedTarget>> = Vec::new();
    let mut k: usize = 0;
    while k < names.len()
        invariant
            k <= names@.len(),
            views(names@) == distinct_usernames(targets@),
            groups@.len() == k,
            forall|g: int|
                0 <= g < k ==> (#[trigger] groups@[g])@ == with_username(
                    targets@,
                    distinct_usernames(targets@)[g],
                ),
        decreases names@.len() - k,
    {
        let name = &names[k];
        let mut group: Vec<ResolvedTarget> = Vec::new();
        let mut j: usize = 0;
        while j < targets.len()
            invariant
                j <= targets@.len(),
                group@ == with_username(targets@.take(j as int), name@),
            decreases targets@.len() - j,
        {
            proof {
                assert(targets@.take(j + 1).drop_last() == targets@.take(j as int));
                assert(targets@.take(j + 1).last() == targets@[j as int]);
            }
            if targets[j].account.username == *name {
                group.push(targets[j].copy());
            }
            j = j + 1;
        }
        assert(targets@.take(targets@.len() as int) == targets@);
        assert(views(names@)[k as int] == name@);
        groups.push(group);
        k = k + 1;
    }
    groups
}

/// Whether `r` is the synthetic session target of an account without
/// targets: ID `<account id>-default` (or `default` without ID), the account,
/// no interface.
pub open spec fn is_account_default_target(account: AccountConfig, r: ResolvedTarget) -> bool {
    &&& r.id@ == (match account.id {
        Some(id) => id@ + "-default"@,
        None => "default"@,
    })
    &&& r.account == account
    &&& r.interface is None
}

/// Returns explicit account targets or creates a synthetic default target.
///
/// An account without targets reaches the session API over the default route.
pub fn account_session_targets(account: AccountConfig, targets: Vec<ResolvedTarget>) -> (r: Vec<
    ResolvedTarget,
>)
    ensures
        targets@.len() > 0 ==> r == targets,
        targets@.len() == 0 ==> r@.len() == 1 && is_account_default_target(account, r@[0]),
{
    if targets.len() > 0 {
        return targets;
    }
    let id = match &account.id {
        Some(id) => {
            let mut s = id.clone();
            s.append("-default");
            s
        },
        None => owned("default"),
    };
    let mut v: Vec<ResolvedTarget> = Vec::new();
    v.push(ResolvedTarget { id, account, interface: None });
    v
}

/// Finds the target with ID `target_id`, or reports it unknown.
pub fn find_target(targets: &Vec<ResolvedTarget>, target_id: &str) -> (r: Result<
    ResolvedTarget,
    PortalError,
>)
    ensures
        match r {
            Ok(t) => exists|i: int|
                0 <= i < targets@.len() && targets@[i] == t && t.id@ == target_id@ && forall|j: int|
                    0 <= j < i ==> (#[trigger] targets@[j]).id@ != target_id@,
            Err(e) => (forall|j: int| 0 <= j < targets@.len() ==> (#[trigger] targets@[j]).id@
                != target_id@) && (e matches PortalError::InvalidConfig(m) && m@ == "找不到 target "@
                + target_id@),
        },
{
    let mut i: usize = 0;
    while i < targets.len()
        invariant
            i <= targets@.len(),
            forall|j: int| 0 <= j < i ==> (#[trigger] targets@[j]).id@ != target_id@,
        decreases targets@.len() - i,
    {
        if text_eq(targets[i].id.as_str(), target_id) {
            let t = targets[i].copy();
            assert(targets@[i as int] == t);
            return Ok(t);
        }
        i = i + 1;
    }
    let mut m = owned("找不到 target ");
    m.append(target_id);
    Err(PortalError::InvalidConfig(m))
}

/// The targets, in order, whose account has ID `account_id`.
pub open spec fn targets_with_account_id(ts: Seq<ResolvedTarget>, id: Seq<char>) -> Seq<
    ResolvedTarget,
>
    decreases ts.len(),
{
    if ts.len() == 0 {
        Seq::empty()
    } else {
        let prev = targets_with_account_id(ts.drop_last(), id);
        if ts.last().account.id matches Some(x) && x@ == id {
            prev.push(ts.last())
        } else {
            prev
        }
    }
}

/// Selects the targets of one account ID, or reports that it has none.
pub fn account_login_targets(targets: &Vec<ResolvedTarget>, account_id: &str) -> (r: Result<
    Vec<ResolvedTarget>,
    PortalError,
>)
    ensures
        match r {
            Ok(v) => v@ == targets_with_account_id(targets@, account_id@) && v@.len() > 0,
            Err(e) => targets_with_account_id(targets@, account_id@).len() == 0 && (e matches PortalError::InvalidConfig(m)
                && m@ == "账号 "@ + account_id@ + " 没有配置可登录的 target"@),
        },
{
    let mut out: Vec<ResolvedTarget> = Vec::new();
    let mut i: usize = 0;
    while i < targets.len()
        invariant
            i <= targets@.len(),
            out@ == targets_with_account_id(targets@.take(i as int), account_id@),
        decreases targets@.len() - i,
    {
        proof {
            assert(targets@.take(i + 1).drop_last() == targets@.take(i as int));
            assert(targets@.take(i + 1).last() == targets@[i as int]);
        }
        let hit = match &targets[i].account.id {
            Some(x) => text_eq(x.as_str(), account_id),
            None => false,
        };
        if hit {
            out.push(targets[i].copy());
        }
        i = i + 1;
    }
    assert(targets@.take(targets@.len() as int) == targets@);
    if out.len() == 0 {
        let mut m = owned("账号 ");
        m.append(account_id);
        m.append(" 没有配置可登录的 target");
        return Err(PortalError::InvalidConfig(m));
    }
    Ok(out)
}

/// An exact copy of a list of targets.
pub fn copy_targets(v: &Vec<ResolvedTarget>) -> (r: Vec<ResolvedTarget>)
    ensures
        r@ == v@,
{
    let mut out: Vec<ResolvedTarget> = Vec::new();
    let mut i: usize = 0;
    while i < v.len()
        invariant
            i <= v@.len(),
            out@ == v@.take(i as int),
        decreases v@.len() - i,
    {
        out.push(v[i].copy());
        i = i + 1;
        assert(out@ == v@.take(i as int));
    }
    assert(v@.take(v@.len() as int) == v@);
    out
}

/// Finds the account with ID `account_id` among grouped account targets, or
/// reports it unknown.
pub fn find_account_group(
    groups: &Vec<(AccountConfig, Vec<ResolvedTarget>)>,
    account_id: &str,
) -> (r: Result<(AccountConfig, Vec<ResolvedTarget>), PortalError>)
    ensures
        match r {
            Ok(g) => exists|i: int|
                0 <= i < groups@.len() && groups@[i].0 == g.0 && groups@[i].1@ == g.1@ && (g.0.id matches Some(x) && x@
                    == account_id@) && forall|j: int|
                    0 <= j < i ==> !((#[trigger] groups@[j]).0.id matches Some(x) && x@ == account_id@),
            Err(e) => (forall|j: int|
                0 <= j < groups@.len() ==> !((#[trigger] groups@[j]).0.id matches Some(x) && x@
                    == account_id@)) && (e matches PortalError::InvalidConfig(m) && m@ == "找不到账号 "@
                + account_id@),
        },
{
    let mut i: usize = 0;
    while i < groups.len()
        invariant
            i <= groups@.len(),
            forall|j: int|
                0 <= j < i ==> !((#[trigger] groups@[j]).0.id matches Some(x) && x@ == account_id@),
        decreases groups@.len() - i,
    {
        let hit = match &groups[i].0.id {
            Some(x) => text_eq(x.as_str(), account_id),
            None => false,
        };
        if hit {
            let g = (groups[i].0.copy(), copy_targets(&groups[i].1));
            assert(groups@[i as int].0 == g.0 && groups@[i as int].1@ == g.1@);
            return Ok(g);
        }
        i = i + 1;
    }
    let mut m = owned("找不到账号 ");
    m.append(account_id);
    Err(PortalError::InvalidConfig(m))
}

/// All targets of grouped account targets, in order.
pub open spec fn flattened(groups: Seq<(AccountConfig, Vec<ResolvedTarget>)>) -> Seq<ResolvedTarget>
    decreases groups.len(),
{
    if groups.len() == 0 {
        Seq::empty()
    } else {
        flattened(groups.drop_last()) + groups.last().1@
    }
}

/// All targets of grouped account targets, in order.
pub fn flatten_targets(groups: &Vec<(AccountConfig, Vec<ResolvedTarget>)>) -> (r: Vec<ResolvedTarget>)
    ensures
        r@ == flattened(groups@),
{
    let mut out: Vec<ResolvedTarget> = Vec::new();
    let mut i: usize = 0;
    while i < groups.len()
        invariant
            i <= groups@.len(),
            out@ == flattened(groups@.take(i as int)),
        decreases groups@.len() - i,
    {
        proof {
            assert(groups@.take(i + 1).drop_last() == groups@.take(i as int));
            assert(groups@.take(i + 1).last() == groups@[i as int]);
        }
        let ts = &groups[i].1;
        let ghost out0 = out@;
        let mut j: usize = 0;
        while j < ts.len()
            invariant
                j <= ts@.len(),
                out@ == out0 + ts@.take(j as int),
            decreases ts@.len() - j,
        {
            out.push(ts[j].copy());
            j = j + 1;
            assert(out@ == out0 + ts@.take(j as int));
        }
        assert(ts@.take(ts@.len() as int) == ts@);
        i = i + 1;
    }
    assert(groups@.take(groups@.len() as int) == groups@);
    out
}

} // verus!

verus! {

// ---------------------------------------------------------------------------
// Multi-account results.

/// The group placed at index `k` by account results that arrived in this
/// order: the last successful result for that index.
pub open spec fn placed_group(results: Seq<Result<(usize, AccountSessions), PortalError>>, k: int) -> Option<
    AccountSessions,
>
    decreases results.len(),
{
    if results.len() == 0 {
        None
    } else if results.last() matches Ok((i, g)) && i == k {
        Some(results.last()->Ok_0.1)
    } else {
        placed_group(results.drop_last(), k)
    }
}

/// The groups placed at indices below `n`, in index order.
pub open spec fn placed_groups(results: Seq<Result<(usize, AccountSessions), PortalError>>, n: int) -> Seq<
    AccountSessions,
>
    decreases n,
{
    if n <= 0 {
        Seq::empty()
    } else {
        let prev = placed_groups(results, n - 1);
        match placed_group(results, n - 1) {
            Some(g) => prev.push(g),
            None => prev,
        }
    }
}

/// The index of the first failed result, in arrival order.
pub open spec fn first_failure<T>(results: Seq<Result<T, PortalError>>) -> Option<int>
    decreases results.len(),
{
    if results.len() == 0 {
        None
    } else if results[0] is Err {
        Some(0)
    } else {
        match first_failure(results.drop_first()) {
            Some(i) => Some(i + 1),
            None => None,
        }
    }
}

proof fn lemma_first_failure<T>(results: Seq<Result<T, PortalError>>, i: int)
    requires
        0 <= i <= results.len(),
        forall|j: int| 0 <= j < i ==> results[j] is Ok,
    ensures
        i < results.len() && results[i] is Err ==> first_failure(results) == Some(i),
        i == results.len() ==> first_failure(results) is None,
    decreases i,
{
    if i > 0 {
        let t = results.drop_first();
        assert forall|j: int| 0 <= j < i - 1 implies t[j] is Ok by {
            assert(t[j] == results[j + 1]);
        }
        lemma_first_failure(t, i - 1);
    }
}

/// An account's sessions, copied.
fn copy_account_sessions(g: &AccountSessions) -> (r: AccountSessions)
    ensures
        r.account == g.account,
        r.sessions@ == g.sessions@,
{
    let mut sessions: Vec<crate::selection::NamedSession> = Vec::new();
    let mut i: usize = 0;
    while i < g.sessions.len()
        invariant
            i <= g.sessions@.len(),
            sessions@ == g.sessions@.take(i as int),
        decreases g.sessions@.len() - i,
    {
        let s = &g.sessions[i];
        sessions.push(crate::selection::NamedSession {
            name: s.name.clone(),
            mac: s.mac.clone(),
            api_mac: s.api_mac.clone(),
            device_type: s.device_type.clone(),
            user_ip: s.user_ip.clone(),
            start_time: s.start_time.clone(),
            unique_id: s.unique_id.clone(),
        });
        i = i + 1;
        assert(sessions@ == g.sessions@.take(i as int));
    }
    assert(g.sessions@.take(g.sessions@.len() as int) == g.sessions@);
    AccountSessions { account: g.account.clone(), sessions }
}

/// Whether two account-session lists hold the same groups.
pub open spec fn same_groups(a: Seq<AccountSessions>, b: Seq<AccountSessions>) -> bool {
    a.len() == b.len() && forall|i: int|
        0 <= i < a.len() ==> (#[trigger] a[i]).account == b[i].account && a[i].sessions@
            == b[i].sessions@
}

/// The position of the last successful result for account index `k`.
fn last_result_for(results: &Vec<Result<(usize, AccountSessions), PortalError>>, k: usize) -> (r:
    Option<usize>)
    ensures
        match r {
            Some(i) => i < results@.len() && (results@[i as int] matches Ok((x, g)) && x == k
                && placed_group(results@, k as int) == Some(g)),
            None => placed_group(results@, k as int) is None,
        },
{
    let mut j: usize = results.len();
    assert(results@.take(j as int) == results@);
    while j > 0
        invariant
            j <= results@.len(),
            placed_group(results@, k as int) == placed_group(results@.take(j as int), k as int),
        decreases j,
    {
        proof {
            assert(results@.take(j as int).drop_last() == results@.take(j - 1));
            assert(results@.take(j as int).last() == results@[j - 1]);
        }
        let hit = match &results[j - 1] {
            Ok((i, _)) => *i == k,
            Err(_) => false,
        };
        if hit {
            return Some(j - 1);
        }
        j = j - 1;
    }
    None
}

/// Combines the per-account session lists of a multi-account listing.
///
/// Results arrive in completion order, tagged with the account's index in the
/// configuration. The groups come out in account order. If no account
/// succeeded, the first failure (in arrival order) is returned; otherwise
/// failed accounts are left out.
pub fn collect_account_sessions(
    results: Vec<Result<(usize, AccountSessions), PortalError>>,
    account_count: usize,
) -> (r: Result<Vec<AccountSessions>, PortalError>)
    ensures
        ({
            let groups = placed_groups(results@, account_count as int);
            if groups.len() == 0 && first_failure(results@) is Some {
                r matches Err(e) && e == results@[first_failure(results@)->0]->Err_0
            } else {
                r matches Ok(v) && same_groups(v@, groups)
            }
        }),
{
    let mut out: Vec<AccountSessions> = Vec::new();
    let mut k: usize = 0;
    while k < account_count
        invariant
            k <= account_count,
            same_groups(out@, placed_groups(results@, k as int)),
        decreases account_count - k,
    {
        let found = last_result_for(&results, k);
        let ghost prev = out@;
        match found {
            Some(idx) => {
                match &results[idx] {
                    Ok((_, g)) => {
                        out.push(copy_account_sessions(g));
                    },
                    Err(_) => {},
                }
            },
            None => {},
        }
        k = k + 1;
    }
    if out.len() == 0 {
        let ghost all = results@;
        let n = results.len();
        let mut rev = into_reversed(results);
        let mut t: usize = 0;
        assert(all.subrange(0, n as int) == all);
        while rev.len() > 0
            invariant
                t + rev@.len() == n,
                n == all.len(),
                all == results@,
                placed_groups(results@, account_count as int).len() == 0,
                rev@ == all.subrange(t as int, n as int).reverse(),
                forall|j: int| 0 <= j < t ==> all[j] is Ok,
            decreases rev@.len(),
        {
            let x = rev.pop().unwrap();
            proof {
                assert(x == all[t as int]);
                assert(rev@ =~= all.subrange(t + 1, n as int).reverse());
            }
            if let Err(err) = x {
                proof {
                    lemma_first_failure(all, t as int);
                }
                return Err(err);
            }
            t = t + 1;
        }
        proof {
            lemma_first_failure(all, n as int);
        }
    }
    Ok(out)
}

/// The items of a vector in reverse order.
pub fn into_reversed<T>(v: Vec<T>) -> (r: Vec<T>)
    ensures
        r@ == v@.reverse(),
{
    let ghost all = v@;
    let mut rest = v;
    let mut out: Vec<T> = Vec::new();
    while rest.len() > 0
        invariant
            rest@.len() + out@.len() == all.len(),
            rest@ == all.take(rest@.len() as int),
            out@ == all.subrange(rest@.len() as int, all.len() as int).reverse(),
        decreases rest@.len(),
    {
        let x = rest.pop().unwrap();
        proof {
            assert(x == all[rest@.len() as int]);
        }
        out.push(x);
        proof {
            assert(out@ =~= all.subrange(rest@.len() as int, all.len() as int).reverse());
            assert(rest@ =~= all.take(rest@.len() as int));
        }
    }
    assert(all.subrange(0, all.len() as int) == all);
    out
}

/// The sessions that were logged out, in arrival order.
pub open spec fn logged_out_of(results: Seq<Result<Option<AccountLogout>, PortalError>>) -> Seq<
    AccountLogout,
>
    decreases results.len(),
{
    if results.len() == 0 {
        Seq::empty()
    } else {
        let prev = logged_out_of(results.drop_last());
        match results.last() {
            Ok(Some(l)) => prev.push(l),
            _ => prev,
        }
    }
}

/// Combines the per-account outcomes of a multi-account logout.
///
/// Outcomes arrive in completion order. Logging out across accounts allows
/// partial success: when some account logged a session out, the result is
/// those sessions in arrival order, and failed accounts are left out. When no
/// session was logged out, the first failure (in arrival order) is returned,
/// and without any failure the result is [`PortalError::SessionNotFound`]
/// with the selector.
pub fn collect_logouts(results: Vec<Result<Option<AccountLogout>, PortalError>>, selector: &str) -> (r:
    Result<Vec<AccountLogout>, PortalError>)
    ensures
        ({
            let done = logged_out_of(results@);
            if done.len() > 0 {
                r matches Ok(v) && v@ == done
            } else {
                match first_failure(results@) {
                    Some(i) => r matches Err(e) && e == results@[i]->Err_0,
                    None => r matches Err(PortalError::SessionNotFound(s)) && s@ == selector@,
                }
            }
        }),
{
    let ghost all = results@;
    let n = results.len();
    let mut rev = into_reversed(results);
    let mut out: Vec<AccountLogout> = Vec::new();
    let mut first_err: Option<PortalError> = None;
    let mut t: usize = 0;
    assert(all.subrange(0, n as int) == all);
    while rev.len() > 0
        invariant
            t + rev@.len() == n,
            n == all.len(),
            rev@ == all.subrange(t as int, n as int).reverse(),
            first_err is None ==> forall|j: int| 0 <= j < t ==> all[j] is Ok,
            first_err matches Some(e) ==> (first_failure(all) matches Some(k) && k < t && e
                == all[k]->Err_0),
            out@ == logged_out_of(all.take(t as int)),
        decreases rev@.len(),
    {
        let x = rev.pop().unwrap();
        proof {
            assert(x == all[t as int]);
            assert(rev@ =~= all.subrange(t + 1, n as int).reverse());
            assert(all.take(t + 1).drop_last() == all.take(t as int));
            assert(all.take(t + 1).last() == all[t as int]);
        }
        match x {
            Err(err) => {
                if first_err.is_none() {
                    proof {
                        lemma_first_failure(all, t as int);
                    }
                    first_err = Some(err);
                }
            },
            Ok(Some(l)) => {
                out.push(l);
            },
            Ok(None) => {},
        }
        t = t + 1;
    }
    proof {
        assert(all.take(n as int) == all);
        if first_err is None {
            lemma_first_failure(all, n as int);
        }
    }
    if out.len() > 0 {
        return Ok(out);
    }
    match first_err {
        Some(e) => Err(e),
        None => Err(PortalError::SessionNotFound(owned(selector))),
    }
}

} // verus!

verus! {

/// The message when a multi-account logout has no selector.
pub open spec fn selector_required_message() -> Seq<char> {
    "多账号/多网卡模式下执行 logout 需要指定 MAC，或 logout.known_macs 中配置的名称"@
}

/// Requires a selector for a multi-account logout.
pub fn require_logout_selector(selector: Option<&str>) -> (r: Result<String, PortalError>)
    ensures
        match selector {
            Some(s) => r matches Ok(x) && x@ == s@,
            None => r matches Err(PortalError::InvalidConfig(m)) && m@ == selector_required_message(),
        },
{
    match selector {
        Some(s) => Ok(owned(s)),
        None => Err(PortalError::InvalidConfig(
            owned("多账号/多网卡模式下执行 logout 需要指定 MAC，或 logout.known_macs 中配置的名称"),
        )),
    }
}

/// Interprets a selection within one account of a multi-account logout: a
/// selector that matches no session of this account is not an error, so the
/// other accounts can still be searched.
pub fn account_logout_selection(selection: Result<usize, PortalError>) -> (r: Result<
    Option<usize>,
    PortalError,
>)
    ensures
        match selection {
            Ok(i) => r == Ok::<Option<usize>, PortalError>(Some(i)),
            Err(e) => if e is SessionNotFound {
                r == Ok::<Option<usize>, PortalError>(None)
            } else {
                r == Err::<Option<usize>, PortalError>(e)
            },
        },
{
    match selection {
        Ok(i) => Ok(Some(i)),
        Err(PortalError::SessionNotFound(_)) => Ok(None),
        Err(e) => Err(e),
    }
}

/// Decides whether a redirect seen during a run should update `network.nas_ip`
/// in the configuration file: only for the run's own configuration file, only
/// when the redirect carries a NAS IP, and only when it differs from the value
/// loaded at start.
pub fn nas_ip_to_write(
    same_config_file: bool,
    initial_nas_ip: &Option<String>,
    redirect_url: &str,
) -> (r: Option<String>)
    ensures
        match r {
            Some(n) => same_config_file && crate::redirect::nas_ip_of_redirect(redirect_url@) == Some(
                n@,
            ) && !(initial_nas_ip matches Some(i) && i@ == n@),
            None => !same_config_file || crate::redirect::nas_ip_of_redirect(redirect_url@) is None
                || (initial_nas_ip matches Some(i) && crate::redirect::nas_ip_of_redirect(
                redirect_url@,
            ) == Some(i@)),
        },
{
    if !same_config_file {
        return None;
    }
    let nas = match crate::redirect::nas_ip_from_redirect_url(redirect_url) {
        Some(n) => n,
        None => {
            return None;
        },
    };
    if let Some(initial) = initial_nas_ip {
        if *initial == nas {
            return None;
        }
    }
    Some(nas)
}

/// The NAS IP that a redirect calls to write, by the rule of
/// [`nas_ip_to_write`]: only for the run's own configuration file, only when
/// the redirect carries a NAS IP, and only when it differs from the one loaded
/// at start.
pub open spec fn nas_ip_write_of(
    same_config_file: bool,
    initial_nas_ip: Option<Seq<char>>,
    redirect_url: Seq<char>,
) -> Option<Seq<char>> {
    if !same_config_file {
        None
    } else {
        match crate::redirect::nas_ip_of_redirect(redirect_url) {
            None => None,
            Some(n) => if initial_nas_ip == Some(n) {
                None
            } else {
                Some(n)
            },
        }
    }
}

/// One write-back decision: whether a write-back has started afterwards, and
/// the NAS IP to write now. Once one has started, no other is.
pub open spec fn write_back_step(
    started: bool,
    same_config_file: bool,
    initial_nas_ip: Option<Seq<char>>,
    redirect_url: Seq<char>,
) -> (bool, Option<Seq<char>>) {
    if started {
        (true, None)
    } else {
        match nas_ip_write_of(same_config_file, initial_nas_ip, redirect_url) {
            Some(n) => (true, Some(n)),
            None => (false, None),
        }
    }
}

/// The decisions made for a sequence of redirects (each with whether it was
/// seen for the run's own configuration file), in order.
pub open spec fn write_back_run(
    started: bool,
    initial_nas_ip: Option<Seq<char>>,
    calls: Seq<(bool, Seq<char>)>,
) -> Seq<Option<Seq<char>>>
    decreases calls.len(),
{
    if calls.len() == 0 {
        Seq::empty()
    } else {
        let (next, w) = write_back_step(started, calls[0].0, initial_nas_ip, calls[0].1);
        seq![w] + write_back_run(next, initial_nas_ip, calls.drop_first())
    }
}

/// A run writes a discovered NAS IP back at most once: of the decisions for
/// any sequence of redirects, at most one asks for a write (none when one was
/// already started), and that one is for the run's own configuration file and
/// carries its redirect's NAS IP, which differs from the one loaded at start.
pub proof fn lemma_write_back_at_most_once(
    started: bool,
    initial_nas_ip: Option<Seq<char>>,
    calls: Seq<(bool, Seq<char>)>,
)
    ensures
        write_back_run(started, initial_nas_ip, calls).len() == calls.len(),
        started ==> forall|i: int|
            0 <= i < calls.len() ==> (#[trigger] write_back_run(started, initial_nas_ip, calls)[i])
                is None,
        forall|i: int, j: int|
            0 <= i < j < calls.len() ==> !((#[trigger] write_back_run(
                started,
                initial_nas_ip,
                calls,
            )[i]) is Some && (#[trigger] write_back_run(started, initial_nas_ip, calls)[j]) is Some),
        forall|i: int|
            0 <= i < calls.len() ==> ((#[trigger] write_back_run(started, initial_nas_ip, calls)[i])
                matches Some(n) ==> calls[i].0 && crate::redirect::nas_ip_of_redirect(calls[i].1)
                == Some(n) && initial_nas_ip != Some(n)),
    decreases calls.len(),
{
    if calls.len() > 0 {
        let (next, w) = write_back_step(started, calls[0].0, initial_nas_ip, calls[0].1);
        let rest = calls.drop_first();
        lemma_write_back_at_most_once(next, initial_nas_ip, rest);
        let run = write_back_run(started, initial_nas_ip, calls);
        let tail = write_back_run(next, initial_nas_ip, rest);
        assert(run == seq![w] + tail);
        assert forall|i: int| 0 < i < calls.len() implies run[i] == tail[i - 1] && calls[i] == rest[
            i - 1] by {}
        assert forall|i: int, j: int| 0 <= i < j < calls.len() implies !((#[trigger] run[i]) is Some
            && (#[trigger] run[j]) is Some) by {
            if i > 0 {
                assert(run[i] == tail[i - 1]);
                assert(run[j] == tail[j - 1]);
            } else if w is Some {
                assert(next);
                assert(run[j] == tail[j - 1]);
            }
        }
        assert forall|i: int| 0 <= i < calls.len() implies ((#[trigger] run[i]) matches Some(n)
            ==> calls[i].0 && crate::redirect::nas_ip_of_redirect(calls[i].1) == Some(n)
            && initial_nas_ip != Some(n)) by {
            if i > 0 {
                assert(run[i] == tail[i - 1]);
                assert(calls[i] == rest[i - 1]);
            }
        }
        if started {
            assert forall|i: int| 0 <= i < calls.len() implies (#[trigger] run[i]) is None by {
                if i > 0 {
                    assert(run[i] == tail[i - 1]);
                }
            }
        }
    }
}

/// The text of an optional string.
pub open spec fn opt_text(o: Option<String>) -> Option<Seq<char>> {
    match o {
        Some(s) => Some(s@),
        None => None,
    }
}

/// The write-back decisions of one run: at most one discovered NAS IP is
/// written back to the configuration file (see [`write_back_step`]).
pub struct NasIpWriteBack {
    initial_nas_ip: Option<String>,
    started: bool,
}

impl NasIpWriteBack {
    /// The NAS IP loaded from the configuration at start.
    pub closed spec fn initial(&self) -> Option<Seq<char>> {
        opt_text(self.initial_nas_ip)
    }

    /// Whether a write-back has been started.
    pub closed spec fn has_started(&self) -> bool {
        self.started
    }

    /// Decisions for a run whose configuration held `initial_nas_ip` at start;
    /// no write-back has started.
    pub fn new(initial_nas_ip: Option<String>) -> (r: Self)
        ensures
            r.initial() == opt_text(initial_nas_ip),
            !r.has_started(),
    {
        NasIpWriteBack { initial_nas_ip, started: false }
    }

    /// Decides whether a redirect seen during the run starts the write-back,
    /// and of which NAS IP: the first redirect that calls for one (see
    /// [`nas_ip_to_write`]) does, and no redirect after it.
    pub fn claim(&mut self, same_config_file: bool, redirect_url: &str) -> (r: Option<String>)
        ensures
            final(self).initial() == old(self).initial(),
            (final(self).has_started(), opt_text(r)) == write_back_step(
                old(self).has_started(),
                same_config_file,
                old(self).initial(),
                redirect_url@,
            ),
    {
        if self.started {
            return None;
        }
        match nas_ip_to_write(same_config_file, &self.initial_nas_ip, redirect_url) {
            Some(n) => {
                self.started = true;
                Some(n)
            },
            None => None,
        }
    }
}

} // verus!

verus! {

/// The total number of targets in the groups of usernames `us`.
pub open spec fn group_sizes(ts: Seq<ResolvedTarget>, us: Seq<Seq<char>>) -> nat
    decreases us.len(),
{
    if us.len() == 0 {
        0
    } else {
        group_sizes(ts, us.drop_last()) + with_username(ts, us.last()).len()
    }
}

proof fn lemma_with_username_absent(ts: Seq<ResolvedTarget>, u: Seq<char>)
    requires
        !distinct_usernames(ts).contains(u),
    ensures
        with_username(ts, u).len() == 0,
    decreases ts.len(),
{
    if ts.len() > 0 {
        let d = distinct_usernames(ts.drop_last());
        if !d.contains(ts.last().account.username@) {
            assert(distinct_usernames(ts)[d.len() as int] == ts.last().account.username@);
        }
        assert forall|k: int| 0 <= k < d.len() implies d[k] != u by {
            assert(distinct_usernames(ts)[k] == d[k]);
        }
        lemma_with_username_absent(ts.drop_last(), u);
    }
}

proof fn lemma_distinct_usernames_shape(ts: Seq<ResolvedTarget>)
    ensures
        forall|i: int, j: int|
            0 <= i < j < distinct_usernames(ts).len() ==> distinct_usernames(ts)[i]
                != distinct_usernames(ts)[j],
        forall|k: int|
            0 <= k < distinct_usernames(ts).len() ==> with_username(
                ts,
                #[trigger] distinct_usernames(ts)[k],
            ).len() > 0,
    decreases ts.len(),
{
    if ts.len() > 0 {
        let p = ts.drop_last();
        let x = ts.last().account.username@;
        lemma_distinct_usernames_shape(p);
        let d = distinct_usernames(p);
        let d2 = distinct_usernames(ts);
        assert forall|k: int| 0 <= k < d2.len() implies with_username(ts, #[trigger] d2[k]).len()
            > 0 by {
            if k < d.len() {
                assert(d2[k] == d[k]);
                assert(with_username(p, d[k]).len() > 0);
            }
        }
    }
}

proof fn lemma_group_sizes_push(p: Seq<ResolvedTarget>, t: ResolvedTarget, us: Seq<Seq<char>>)
    requires
        forall|i: int, j: int| 0 <= i < j < us.len() ==> us[i] != us[j],
    ensures
        group_sizes(p.push(t), us) == group_sizes(p, us) + (if us.contains(
            t.account.username@,
        ) {
            1int
        } else {
            0int
        }),
    decreases us.len(),
{
    let ts = p.push(t);
    assert(ts.drop_last() == p);
    if us.len() > 0 {
        let q = us.drop_last();
        lemma_group_sizes_push(p, t, q);
        let x = t.account.username@;
        if us.last() == x {
            assert forall|k: int| 0 <= k < q.len() implies q[k] != x by {
                assert(us[k] != us[us.len() - 1]);
            }
        } else {
            if q.contains(x) {
                let k = choose|k: int| 0 <= k < q.len() && q[k] == x;
                assert(us[k] == x);
            }
            if us.contains(x) {
                let k = choose|k: int| 0 <= k < us.len() && us[k] == x;
                assert(q[k] == x);
            }
        }
    }
}

/// Grouping by username loses and repeats no target: the groups are
/// non-empty, belong to distinct usernames, and together hold exactly as many
/// targets as were given.
pub proof fn lemma_grouping_keeps_every_target(ts: Seq<ResolvedTarget>)
    ensures
        group_sizes(ts, distinct_usernames(ts)) == ts.len(),
        forall|i: int, j: int|
            0 <= i < j < distinct_usernames(ts).len() ==> distinct_usernames(ts)[i]
                != distinct_usernames(ts)[j],
        forall|k: int|
            0 <= k < distinct_usernames(ts).len() ==> with_username(
                ts,
                #[trigger] distinct_usernames(ts)[k],
            ).len() > 0,
    decreases ts.len(),
{
    lemma_distinct_usernames_shape(ts);
    if ts.len() > 0 {
        let p = ts.drop_last();
        let t = ts.last();
        let x = t.account.username@;
        lemma_grouping_keeps_every_target(p);
        let d = distinct_usernames(p);
        assert(p.push(t) == ts);
        lemma_group_sizes_push(p, t, d);
        if !d.contains(x) {
            let d2 = d.push(x);
            assert(distinct_usernames(ts) == d2);
            assert(d2.drop_last() == d);
            lemma_with_username_absent(p, x);
        }
    }
}

} // verus!
