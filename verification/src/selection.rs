//! Choosing sessions and targets from user selectors and configured devices.
//!
//! A selector is either a MAC address or the name of a configured known
//! device. Sessions are compared by normalized MAC, while the logout payload
//! keeps the MAC text the portal returned.

use vstd::prelude::*;

use crate::config::{AppConfig, KnownMacConfig, ResolvedTarget};
use crate::error::PortalError;
use crate::session::{normalize_mac, normalized_mac, Session};
use crate::text::{owned, text_eq};

verus! {

/// Session information enriched with configured device names.
#[derive(Debug, Clone, PartialEq, Eq)]
pub struct NamedSession {
    /// Configured known-MAC name, or `未知` when not configured.
    pub name: String,
    /// Normalized MAC used for display and selection.
    pub mac: String,
    /// API-provided MAC preserved for logout payloads.
    pub api_mac: String,
    /// Portal-reported device type.
    pub device_type: String,
    /// Portal-reported user IP.
    pub user_ip: String,
    /// Portal-reported session start time.
    pub start_time: String,
    /// Accounting unique ID required by the logout API.
    pub unique_id: String,
}

/// Sessions belonging to one account.
#[derive(Debug, Clone, PartialEq, Eq)]
pub struct AccountSessions {
    /// Account username.
    pub account: String,
    /// Sessions currently active for the account.
    pub sessions: Vec<NamedSession>,
}

/// Result of logging out one session for an account.
#[derive(Debug, Clone, PartialEq, Eq)]
pub struct AccountLogout {
    /// Account username.
    pub account: String,
    /// Session that was logged out.
    pub session: NamedSession,
}

/// The name of the first known device whose MAC normalizes to `m` and that
/// has a name.
pub open spec fn known_name_of(known: Seq<KnownMacConfig>, m: Seq<char>) -> Option<Seq<char>>
    decreases known.len(),
{
    if known.len() == 0 {
        None
    } else if normalized_mac(known[0].mac@) == Some(m) && known[0].name is Some {
        Some(known[0].name->0@)
    } else {
        known_name_of(known.drop_first(), m)
    }
}

/// The configured display name for a MAC text, compared after normalization.
pub open spec fn known_mac_name_of(c: AppConfig, mac: Seq<char>) -> Option<Seq<char>> {
    match normalized_mac(mac) {
        None => None,
        Some(m) => known_name_of(c.logout.known_macs@, m),
    }
}

/// The display name for a session: its configured name, or `未知`.
pub open spec fn display_name_of(c: AppConfig, s: Session) -> Seq<char> {
    match known_mac_name_of(c, s.mac@) {
        Some(n) => n,
        None => "未知"@,
    }
}

/// Whether `n` is `s` enriched with its display name under `c`.
pub open spec fn is_named_session(c: AppConfig, s: Session, n: NamedSession) -> bool {
    &&& n.name@ == display_name_of(c, s)
    &&& n.mac == s.mac
    &&& n.api_mac == s.api_mac
    &&& n.device_type == s.device_type
    &&& n.user_ip == s.user_ip
    &&& n.start_time == s.start_time
    &&& n.unique_id == s.unique_id
}

proof fn lemma_known_name_skip(known: Seq<KnownMacConfig>, m: Seq<char>, i: int)
    requires
        0 <= i <= known.len(),
        forall|k: int|
            0 <= k < i ==> !(normalized_mac((#[trigger] known[k]).mac@) == Some(m) && known[k].name is Some),
    ensures
        known_name_of(known, m) == known_name_of(known.subrange(i, known.len() as int), m),
    decreases i,
{
    if i > 0 {
        lemma_known_name_skip(known, m, i - 1);
        let t = known.subrange(i - 1, known.len() as int);
        assert(t[0] == known[i - 1]);
        assert(t.drop_first() == known.subrange(i, known.len() as int));
    } else {
        assert(known.subrange(0, known.len() as int) == known);
    }
}

/// Finds a known-MAC display name for a MAC text.
///
/// The configured MACs and `mac` are both normalized before comparison, so
/// separators and letter case do not matter.
pub fn known_mac_name(config: &AppConfig, mac: &str) -> (r: Option<String>)
    ensures
        match r {
            Some(n) => known_mac_name_of(*config, mac@) == Some(n@),
            None => known_mac_name_of(*config, mac@) is None,
        },
{
    let normalized = match normalize_mac(mac) {
        Ok(m) => m,
        Err(_) => {
            return None;
        },
    };
    let known = &config.logout.known_macs;
    let mut i: usize = 0;
    while i < known.len()
        invariant
            i <= known@.len(),
            known == &config.logout.known_macs,
            normalized_mac(mac@) == Some(normalized@),
            forall|k: int|
                0 <= k < i ==> !(normalized_mac((#[trigger] known@[k]).mac@) == Some(normalized@)
                    && known@[k].name is Some),
        decreases known@.len() - i,
    {
        let entry = &known[i];
        let hit = match normalize_mac(entry.mac.as_str()) {
            Ok(km) => km == normalized,
            Err(_) => false,
        };
        if hit {
            if let Some(name) = &entry.name {
                proof {
                    lemma_known_name_skip(known@, normalized@, i as int);
                    assert(known@.subrange(i as int, known@.len() as int)[0] == known@[i as int]);
                }
                return Some(name.clone());
            }
        }
        i = i + 1;
    }
    proof {
        lemma_known_name_skip(known@, normalized@, known@.len() as int);
    }
    None
}

/// Adds configured display metadata to a normalized session.
///
/// The name comes from the known devices; an unnamed device is shown as
/// `未知`. All session fields are kept.
pub fn named_session(config: &AppConfig, session: &Session) -> (r: NamedSession)
    ensures
        is_named_session(*config, *session, r),
{
    let name = match known_mac_name(config, session.mac.as_str()) {
        Some(n) => n,
        None => owned("未知"),
    };
    NamedSession {
        name,
        mac: session.mac.clone(),
        api_mac: session.api_mac.clone(),
        device_type: session.device_type.clone(),
        user_ip: session.user_ip.clone(),
        start_time: session.start_time.clone(),
        unique_id: session.unique_id.clone(),
    }
}

/// Enriches every session with its display name, in order.
pub fn named_sessions(config: &AppConfig, sessions: &Vec<Session>) -> (r: Vec<NamedSession>)
    ensures
        r@.len() == sessions@.len(),
        forall|i: int|
            0 <= i < r@.len() ==> is_named_session(*config, sessions@[i], #[trigger] r@[i]),
{
    let mut out: Vec<NamedSession> = Vec::new();
    let mut i: usize = 0;
    while i < sessions.len()
        invariant
            i <= sessions@.len(),
            out@.len() == i,
            forall|k: int|
                0 <= k < i ==> is_named_session(*config, sessions@[k], #[trigger] out@[k]),
        decreases sessions@.len() - i,
    {
        out.push(named_session(config, &sessions[i]));
        i = i + 1;
    }
    out
}

// ---------------------------------------------------------------------------
// Selectors.

/// What a selector designates.
pub enum SelectorMac {
    /// A normalized MAC.
    Mac(Seq<char>),
    /// Nothing: neither a MAC nor a configured name with a valid MAC.
    Unknown,
    /// A name configured for several valid MACs.
    Ambiguous,
}

/// The normalized valid MACs of the known devices named `sel`, in order.
pub open spec fn named_macs(known: Seq<KnownMacConfig>, sel: Seq<char>) -> Seq<Seq<char>>
    decreases known.len(),
{
    if known.len() == 0 {
        Seq::empty()
    } else {
        let prev = named_macs(known.drop_last(), sel);
        let k = known.last();
        if k.name matches Some(n) && n@ == sel && normalized_mac(k.mac@) is Some {
            prev.push(normalized_mac(k.mac@)->0)
        } else {
            prev
        }
    }
}

/// What a selector designates: the selector itself when it is a MAC, else the
/// single valid MAC configured under that name.
pub open spec fn selector_target(c: AppConfig, sel: Seq<char>) -> SelectorMac {
    match normalized_mac(sel) {
        Some(m) => SelectorMac::Mac(m),
        None => {
            let ms = named_macs(c.logout.known_macs@, sel);
            if ms.len() == 0 {
                SelectorMac::Unknown
            } else if ms.len() == 1 {
                SelectorMac::Mac(ms[0])
            } else {
                SelectorMac::Ambiguous
            }
        },
    }
}

/// Collects the normalized valid MACs of the known devices named `selector`.
fn macs_named(known: &Vec<KnownMacConfig>, selector: &str) -> (r: Vec<String>)
    ensures
        crate::text::views(r@) == named_macs(known@, selector@),
{
    let mut out: Vec<String> = Vec::new();
    let mut i: usize = 0;
    while i < known.len()
        invariant
            i <= known@.len(),
            crate::text::views(out@) == named_macs(known@.take(i as int), selector@),
        decreases known@.len() - i,
    {
        let entry = &known[i];
        let ghost before = out@;
        proof {
            assert(known@.take(i + 1).drop_last() == known@.take(i as int));
            assert(known@.take(i + 1).last() == *entry);
        }
        let named = match &entry.name {
            Some(n) => text_eq(n.as_str(), selector),
            None => false,
        };
        if named {
            match normalize_mac(entry.mac.as_str()) {
                Ok(m) => {
                    out.push(m);
                    assert(crate::text::views(out@) == crate::text::views(before).push(
                        out@.last()@,
                    ));
                },
                Err(_) => {},
            }
        }
        i = i + 1;
    }
    assert(known@.take(known@.len() as int) == known@);
    out
}

/// Resolves a selector to a normalized MAC if possible.
///
/// The selector may be a MAC address or a name from the known devices; a
/// name configured for several valid MACs is ambiguous.
pub fn selector_mac(config: &AppConfig, selector: &str) -> (r: Result<Option<String>, PortalError>)
    ensures
        match selector_target(*config, selector@) {
            SelectorMac::Mac(m) => r matches Ok(Some(s)) && s@ == m,
            SelectorMac::Unknown => r matches Ok(None),
            SelectorMac::Ambiguous => r matches Err(PortalError::AmbiguousSessionName(s)) && s@
                == selector@,
        },
{
    if let Ok(mac) = normalize_mac(selector) {
        return Ok(Some(mac));
    }
    let mut macs = macs_named(&config.logout.known_macs, selector);
    if macs.len() == 0 {
        Ok(None)
    } else if macs.len() == 1 {
        let m = macs.pop().unwrap();
        Ok(Some(m))
    } else {
        Err(PortalError::AmbiguousSessionName(owned(selector)))
    }
}

/// The index of the first session whose MAC text is `m`.
pub open spec fn first_session_with_mac(sessions: Seq<Session>, m: Seq<char>) -> Option<int>
    decreases sessions.len(),
{
    if sessions.len() == 0 {
        None
    } else if sessions[0].mac@ == m {
        Some(0)
    } else {
        match first_session_with_mac(sessions.drop_first(), m) {
            Some(i) => Some(i + 1),
            None => None,
        }
    }
}

/// The first session with a MAC is where [`first_session_with_mac`] points.
pub proof fn lemma_first_session_with_mac(sessions: Seq<Session>, m: Seq<char>, i: int)
    requires
        0 <= i <= sessions.len(),
        forall|j: int| 0 <= j < i ==> sessions[j].mac@ != m,
    ensures
        i < sessions.len() && sessions[i].mac@ == m ==> first_session_with_mac(sessions, m) == Some(
            i,
        ),
        i == sessions.len() ==> first_session_with_mac(sessions, m) is None,
        first_session_with_mac(sessions, m) matches Some(k) ==> i <= k < sessions.len()
            && sessions[k].mac@ == m,
    decreases i,
{
    if i > 0 {
        let t = sessions.drop_first();
        assert forall|j: int| 0 <= j < i - 1 implies t[j].mac@ != m by {
            assert(t[j] == sessions[j + 1]);
        }
        lemma_first_session_with_mac(t, m, i - 1);
    } else {
        lemma_first_session_bounds(sessions, m);
    }
}

proof fn lemma_first_session_bounds(sessions: Seq<Session>, m: Seq<char>)
    ensures
        first_session_with_mac(sessions, m) matches Some(k) ==> 0 <= k < sessions.len()
            && sessions[k].mac@ == m,
    decreases sessions.len(),
{
    if sessions.len() > 0 && sessions[0].mac@ != m {
        lemma_first_session_bounds(sessions.drop_first(), m);
    }
}

/// Finds the first session whose normalized MAC is `mac`.
fn find_session_by_mac(sessions: &[Session], mac: &String) -> (r: Option<usize>)
    ensures
        match r {
            Some(i) => i < sessions@.len() && sessions@[i as int].mac@ == mac@ && forall|j: int|
                0 <= j < i ==> sessions@[j].mac@ != mac@,
            None => forall|j: int| 0 <= j < sessions@.len() ==> sessions@[j].mac@ != mac@,
        },
{
    let mut i: usize = 0;
    while i < sessions.len()
        invariant
            i <= sessions@.len(),
            forall|j: int| 0 <= j < i ==> sessions@[j].mac@ != mac@,
        decreases sessions@.len() - i,
    {
        if sessions[i].mac == *mac {
            return Some(i);
        }
        i = i + 1;
    }
    None
}

/// Whether `i` is the first session index with MAC `m`.
pub open spec fn is_first_with_mac(sessions: Seq<Session>, m: Seq<char>, i: int) -> bool {
    0 <= i < sessions.len() && sessions[i].mac@ == m && forall|j: int|
        0 <= j < i ==> sessions[j].mac@ != m
}

/// Whether no session has MAC `m`.
pub open spec fn no_session_with_mac(sessions: Seq<Session>, m: Seq<char>) -> bool {
    forall|j: int| 0 <= j < sessions.len() ==> sessions[j].mac@ != m
}

/// Selects a session by MAC address or configured known-MAC name.
///
/// A MAC selector is matched directly; a name selector must map to exactly
/// one valid configured MAC. Returns the index of the first matching session,
/// or [`PortalError::SessionNotFound`] / [`PortalError::AmbiguousSessionName`]
/// with the selector text.
pub fn select_session_by_selector(config: &AppConfig, sessions: &[Session], selector: &str) -> (r:
    Result<usize, PortalError>)
    ensures
        match selector_target(*config, selector@) {
            SelectorMac::Mac(m) => match r {
                Ok(i) => is_first_with_mac(sessions@, m, i as int),
                Err(e) => no_session_with_mac(sessions@, m) && (e matches PortalError::SessionNotFound(s) && s@ == selector@),
            },
            SelectorMac::Unknown => r matches Err(PortalError::SessionNotFound(s)) && s@ == selector@,
            SelectorMac::Ambiguous => r matches Err(PortalError::AmbiguousSessionName(s)) && s@
                == selector@,
        },
{
    let mac = match selector_mac(config, selector)? {
        Some(m) => m,
        None => {
            return Err(PortalError::SessionNotFound(owned(selector)));
        },
    };
    match find_session_by_mac(sessions, &mac) {
        Some(i) => Ok(i),
        None => Err(PortalError::SessionNotFound(owned(selector))),
    }
}

/// The first step of choosing the session to log out in simple mode.
#[derive(Debug, Clone, Copy, PartialEq, Eq, Structural)]
pub enum LogoutPick {
    /// The session at this index.
    Session(usize),
    /// The session must be identified by the machine's IP towards the gateway.
    ByLocalIp,
}

/// Selects the session to log out in simple-mode logout.
///
/// A selector wins first. Without selector, the configured current MAC is
/// matched; otherwise a single session is chosen; otherwise the caller must
/// identify the session by the local IP used to reach the gateway (see
/// [`select_session_by_local_ip`]).
pub fn select_logout_session(config: &AppConfig, sessions: &[Session], selector: Option<&str>) -> (r:
    Result<LogoutPick, PortalError>)
    ensures
        match selector {
            Some(sel) => match selector_target(*config, sel@) {
                SelectorMac::Mac(m) => match r {
                    Ok(p) => p matches LogoutPick::Session(i) && is_first_with_mac(
                        sessions@,
                        m,
                        i as int,
                    ),
                    Err(e) => no_session_with_mac(sessions@, m) && (e matches PortalError::SessionNotFound(s) && s@ == sel@),
                },
                SelectorMac::Unknown => r matches Err(PortalError::SessionNotFound(s)) && s@ == sel@,
                SelectorMac::Ambiguous => r matches Err(PortalError::AmbiguousSessionName(s)) && s@
                    == sel@,
            },
            None => match config.logout.current_mac {
                Some(cm) => match normalized_mac(cm@) {
                    None => r matches Err(PortalError::InvalidMac(s)) && s@ == cm@,
                    Some(m) => match r {
                        Ok(p) => p matches LogoutPick::Session(i) && is_first_with_mac(
                            sessions@,
                            m,
                            i as int,
                        ),
                        Err(e) => no_session_with_mac(sessions@, m) && (e matches PortalError::SessionNotFound(s) && s@ == cm@),
                    },
                },
                None => if sessions@.len() == 1 {
                    r == Ok::<LogoutPick, PortalError>(LogoutPick::Session(0))
                } else {
                    r == Ok::<LogoutPick, PortalError>(LogoutPick::ByLocalIp)
                },
            },
        },
{
    if let Some(sel) = selector {
        let i = select_session_by_selector(config, sessions, sel)?;
        return Ok(LogoutPick::Session(i));
    }
    if let Some(current_mac) = &config.logout.current_mac {
        let mac = normalize_mac(current_mac.as_str())?;
        return match find_session_by_mac(sessions, &mac) {
            Some(i) => Ok(LogoutPick::Session(i)),
            None => Err(PortalError::SessionNotFound(current_mac.clone())),
        };
    }
    if sessions.len() == 1 {
        return Ok(LogoutPick::Session(0));
    }
    Ok(LogoutPick::ByLocalIp)
}

/// Identifies the current device's session by the local IP used to reach the
/// gateway: the first session with that user IP. Without a local IP there is
/// no candidate.
pub fn select_session_by_local_ip(sessions: &[Session], local_ip: Option<String>) -> (r: Result<
    usize,
    PortalError,
>)
    ensures
        match local_ip {
            None => r matches Err(PortalError::NoLogoutCandidate),
            Some(ip) => match r {
                Ok(i) => i < sessions@.len() && sessions@[i as int].user_ip@ == ip@ && forall|j: int|
                    0 <= j < i ==> sessions@[j].user_ip@ != ip@,
                Err(e) => (forall|j: int| 0 <= j < sessions@.len() ==> sessions@[j].user_ip@ != ip@)
                    && e == PortalError::CurrentSessionNotFound(ip),
            },
        },
{
    let ip = match local_ip {
        Some(ip) => ip,
        None => {
            return Err(PortalError::NoLogoutCandidate);
        },
    };
    let mut i: usize = 0;
    while i < sessions.len()
        invariant
            i <= sessions@.len(),
            local_ip == Some(ip),
            forall|j: int| 0 <= j < i ==> sessions@[j].user_ip@ != ip@,
        decreases sessions@.len() - i,
    {
        if sessions[i].user_ip == ip {
            return Ok(i);
        }
        i = i + 1;
    }
    Err(PortalError::CurrentSessionNotFound(ip))
}

/// Whether target `t` has an interface MAC that normalizes to `m`.
pub open spec fn target_has_mac(t: ResolvedTarget, m: Seq<char>) -> bool {
    t.interface matches Some(i) && i.mac matches Some(x) && normalized_mac(x@) == Some(m)
}

/// Finds a target whose configured interface MAC matches a logout selector.
///
/// Only interface MACs are matched, because they are the only local facts that
/// place a selector on a target before querying the session API.
pub fn logout_target_for_selector(
    config: &AppConfig,
    targets: &[ResolvedTarget],
    selector: &str,
) -> (r: Result<Option<ResolvedTarget>, PortalError>)
    ensures
        match selector_target(*config, selector@) {
            SelectorMac::Mac(m) => match r {
                Ok(Some(t)) => exists|i: int|
                    0 <= i < targets@.len() && targets@[i] == t && target_has_mac(t, m) && forall|
                        j: int,
                    | 0 <= j < i ==> !target_has_mac(#[trigger] targets@[j], m),
                Ok(None) => forall|j: int|
                    0 <= j < targets@.len() ==> !target_has_mac(#[trigger] targets@[j], m),
                Err(_) => false,
            },
            SelectorMac::Unknown => r matches Ok(None),
            SelectorMac::Ambiguous => r matches Err(PortalError::AmbiguousSessionName(s)) && s@
                == selector@,
        },
{
    let mac = match selector_mac(config, selector)? {
        Some(m) => m,
        None => {
            return Ok(None);
        },
    };
    let mut i: usize = 0;
    while i < targets.len()
        invariant
            i <= targets@.len(),
            selector_target(*config, selector@) == SelectorMac::Mac(mac@),
            forall|j: int| 0 <= j < i ==> !target_has_mac(#[trigger] targets@[j], mac@),
        decreases targets@.len() - i,
    {
        let t = &targets[i];
        let hit = match &t.interface {
            Some(iface) => match &iface.mac {
                Some(x) => match normalize_mac(x.as_str()) {
                    Ok(n) => n == mac,
                    Err(_) => false,
                },
                None => false,
            },
            None => false,
        };
        if hit {
            let found = t.copy();
            assert(targets@[i as int] == found && target_has_mac(found, mac@));
            return Ok(Some(found));
        }
        i = i + 1;
    }
    Ok(None)
}

} // verus!
