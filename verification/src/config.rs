//! Configuration model and target resolution.
//!
//! The configuration supports a single default account as well as advanced
//! multi-account and multi-interface targets. This module resolves targets
//! against the configured accounts and interfaces so the rest of the crate can
//! work with validated [`ResolvedTarget`] values.

use vstd::prelude::*;

use crate::error::PortalError;
use crate::interface::{interface_ipv4, is_usable_ipv4, IpAddr};
use crate::text::{chars_of, has_prefix, owned, starts_with, text_eq, trim, trim_chars};

verus! {

/// Network binding requested by a resolved target.
///
/// `interface_name` is the primary selector for binding the HTTP client;
/// `local_ip` is an optional source-address hint.
#[derive(Debug, Clone, PartialEq, Eq)]
pub struct NetworkBinding {
    /// Interface name to bind the HTTP client to, such as `eth0` or `wan`.
    pub interface_name: Option<String>,
    /// Optional local source address to use in addition to interface binding.
    pub local_ip: Option<IpAddr>,
}

/// Root configuration.
///
/// `default_account` drives the simple mode; `accounts`, `interfaces`, and
/// `targets` drive advanced unattended login.
#[derive(Debug, Clone)]
pub struct AppConfig {
    /// Network URLs, timeout, and discovered NAS address.
    pub network: NetworkConfig,
    /// Single-account mode configuration used when no `targets` are present.
    pub default_account: Option<AccountConfig>,
    /// Automatic logout settings and known device names.
    pub logout: LogoutConfig,
    /// Named accounts used by advanced targets.
    pub accounts: Vec<AccountConfig>,
    /// Named local interfaces used by advanced targets.
    pub interfaces: Vec<InterfaceConfig>,
    /// Login targets that pair an account with an optional interface.
    pub targets: Vec<TargetConfig>,
}

/// Network-related configuration: portal URLs, timeout and NAS address.
#[derive(Debug, Clone)]
pub struct NetworkConfig {
    /// Gateway host or base URL used for headers and route probing.
    pub gateway: String,
    /// NAS IP discovered from the portal redirect URL.
    pub nas_ip: Option<String>,
    /// Plain HTTP URL used to detect whether the network is already online.
    pub test_url: String,
    /// v3 encrypted login endpoint.
    pub login_url: String,
    /// Redirect URL template used to obtain a token for session APIs.
    pub session_login_redirect_url: String,
    /// v3 encrypted session-list endpoint.
    pub session_list_url: String,
    /// v3 encrypted session-logout endpoint.
    pub session_logout_url: String,
    /// HTTP request timeout in seconds.
    pub timeout_secs: u64,
}

/// Account credentials used for login.
#[derive(Debug, Clone)]
pub struct AccountConfig {
    /// Optional stable identifier referenced by advanced `targets`.
    pub id: Option<String>,
    /// Portal username, usually including the campus domain suffix.
    pub username: String,
    /// Portal password.
    pub password: String,
}

/// Automatic logout configuration.
#[derive(Debug, Clone)]
pub struct LogoutConfig {
    /// Enables automatic logout when login reports the device limit.
    pub enabled: bool,
    /// Optional MAC used to identify the current device for `logout`.
    pub current_mac: Option<String>,
    /// Known devices used for names and automatic logout priority.
    pub known_macs: Vec<KnownMacConfig>,
}

/// A known device MAC address with an optional human-friendly name.
#[derive(Debug, Clone, PartialEq, Eq)]
pub struct KnownMacConfig {
    /// Device MAC address in any format accepted by [`crate::session::normalize_mac`].
    pub mac: String,
    /// Optional selector/display name.
    pub name: Option<String>,
}

/// Local interface configuration referenced by a target.
#[derive(Debug, Clone)]
pub struct InterfaceConfig {
    /// Stable identifier used by `targets[*].interface`.
    pub id: String,
    /// OS interface name used for binding, such as `eth0`.
    pub name: Option<String>,
    /// Optional explicit source IP address.
    pub local_ip: Option<IpAddr>,
    /// Optional MAC address used for session redirect identity.
    pub mac: Option<String>,
}

/// A configured login target.
#[derive(Debug, Clone)]
pub struct TargetConfig {
    /// Stable target identifier.
    pub id: String,
    /// Account ID referenced from `accounts`.
    pub account: String,
    /// Optional interface ID referenced from `interfaces`.
    pub interface: Option<String>,
}

/// Runtime target with account and interface references already resolved.
#[derive(Debug, Clone)]
pub struct ResolvedTarget {
    /// Target identifier.
    pub id: String,
    /// Account credentials to use for this target.
    pub account: AccountConfig,
    /// Optional interface binding configuration.
    pub interface: Option<InterfaceConfig>,
}

// ---------------------------------------------------------------------------
// Exact copies.

/// A copy of an optional string.
pub fn copy_opt_string(o: &Option<String>) -> (r: Option<String>)
    ensures
        r == *o,
{
    match o {
        Some(s) => Some(s.clone()),
        None => None,
    }
}

impl AccountConfig {
    /// An exact copy of the account.
    pub fn copy(&self) -> (r: AccountConfig)
        ensures
            r == *self,
    {
        AccountConfig {
            id: copy_opt_string(&self.id),
            username: self.username.clone(),
            password: self.password.clone(),
        }
    }
}

impl InterfaceConfig {
    /// An exact copy of the interface configuration.
    pub fn copy(&self) -> (r: InterfaceConfig)
        ensures
            r == *self,
    {
        InterfaceConfig {
            id: self.id.clone(),
            name: copy_opt_string(&self.name),
            local_ip: self.local_ip,
            mac: copy_opt_string(&self.mac),
        }
    }
}

impl ResolvedTarget {
    /// An exact copy of the target.
    pub fn copy(&self) -> (r: ResolvedTarget)
        ensures
            r == *self,
    {
        ResolvedTarget {
            id: self.id.clone(),
            account: self.account.copy(),
            interface: match &self.interface {
                Some(i) => Some(i.copy()),
                None => None,
            },
        }
    }
}

// ---------------------------------------------------------------------------
// Account validation and lookups.

/// Whether `e` is [`PortalError::InvalidConfig`] with message `m`.
pub open spec fn invalid_config_with(e: PortalError, m: Seq<char>) -> bool {
    e matches PortalError::InvalidConfig(msg) && msg@ == m
}

/// The message for an account that cannot be used, if it cannot: the username
/// must not be blank and the password must not be empty.
pub open spec fn account_problem(a: AccountConfig) -> Option<Seq<char>> {
    if trim(a.username@).len() == 0 {
        Some("账号 username 不能为空"@)
    } else if a.password@.len() == 0 {
        Some("账号 password 不能为空"@)
    } else {
        None
    }
}

/// Validates that an account has usable credentials.
///
/// The username may keep inner and trailing non-blank characters but must not
/// be blank; the password is not trimmed and must only be non-empty.
pub fn validate_account(account: &AccountConfig) -> (r: Result<(), PortalError>)
    ensures
        match r {
            Ok(()) => account_problem(*account) is None,
            Err(e) => account_problem(*account) matches Some(m) && invalid_config_with(e, m),
        },
{
    let username = chars_of(account.username.as_str());
    let trimmed = trim_chars(username.as_slice());
    if trimmed.len() == 0 {
        return Err(PortalError::InvalidConfig(owned("账号 username 不能为空")));
    }
    if account.password.as_str().is_empty() {
        return Err(PortalError::InvalidConfig(owned("账号 password 不能为空")));
    }
    Ok(())
}

/// The account that an ID refers to: the last account with that ID.
pub open spec fn account_with_id(accounts: Seq<AccountConfig>, id: Seq<char>) -> Option<
    AccountConfig,
>
    decreases accounts.len(),
{
    if accounts.len() == 0 {
        None
    } else if accounts.last().id matches Some(x) && x@ == id {
        Some(accounts.last())
    } else {
        account_with_id(accounts.drop_last(), id)
    }
}

/// The interface that an ID refers to: the last interface with that ID.
pub open spec fn interface_with_id(interfaces: Seq<InterfaceConfig>, id: Seq<char>) -> Option<
    InterfaceConfig,
>
    decreases interfaces.len(),
{
    if interfaces.len() == 0 {
        None
    } else if interfaces.last().id@ == id {
        Some(interfaces.last())
    } else {
        interface_with_id(interfaces.drop_last(), id)
    }
}

/// Looks up the account that an ID refers to.
fn find_account(accounts: &Vec<AccountConfig>, id: &str) -> (r: Option<AccountConfig>)
    ensures
        r == account_with_id(accounts@, id@),
{
    let mut j: usize = accounts.len();
    assert(accounts@.take(j as int) == accounts@);
    while j > 0
        invariant
            j <= accounts@.len(),
            account_with_id(accounts@, id@) == account_with_id(accounts@.take(j as int), id@),
        decreases j,
    {
        let a = &accounts[j - 1];
        let hit = match &a.id {
            Some(x) => text_eq(x.as_str(), id),
            None => false,
        };
        proof {
            assert(accounts@.take(j as int).last() == *a);
            assert(accounts@.take(j as int).drop_last() == accounts@.take(j - 1));
        }
        if hit {
            return Some(a.copy());
        }
        j = j - 1;
    }
    None
}

/// Looks up the interface that an ID refers to.
fn find_interface(interfaces: &Vec<InterfaceConfig>, id: &str) -> (r: Option<InterfaceConfig>)
    ensures
        r == interface_with_id(interfaces@, id@),
{
    let mut j: usize = interfaces.len();
    assert(interfaces@.take(j as int) == interfaces@);
    while j > 0
        invariant
            j <= interfaces@.len(),
            interface_with_id(interfaces@, id@) == interface_with_id(
                interfaces@.take(j as int),
                id@,
            ),
        decreases j,
    {
        let it = &interfaces[j - 1];
        proof {
            assert(interfaces@.take(j as int).last() == *it);
            assert(interfaces@.take(j as int).drop_last() == interfaces@.take(j - 1));
        }
        if text_eq(it.id.as_str(), id) {
            return Some(it.copy());
        }
        j = j - 1;
    }
    None
}

// ---------------------------------------------------------------------------
// Target resolution.

/// The message for a target whose account ID is unknown.
pub open spec fn missing_account_message(t: TargetConfig) -> Seq<char> {
    "target "@ + t.id@ + " 引用了不存在的账号 "@ + t.account@
}

/// The message for a target whose interface ID is unknown.
pub open spec fn missing_interface_message(t: TargetConfig, interface_id: Seq<char>) -> Seq<char> {
    "target "@ + t.id@ + " 引用了不存在的网络接口 "@ + interface_id
}

/// The message for a target that cannot be resolved, if it cannot: its account
/// must exist and be usable, and its interface, if any, must exist.
pub open spec fn target_problem(c: AppConfig, t: TargetConfig) -> Option<Seq<char>> {
    match account_with_id(c.accounts@, t.account@) {
        None => Some(missing_account_message(t)),
        Some(a) => match account_problem(a) {
            Some(m) => Some(m),
            None => match t.interface {
                None => None,
                Some(iid) => match interface_with_id(c.interfaces@, iid@) {
                    None => Some(missing_interface_message(t, iid@)),
                    Some(_) => None,
                },
            },
        },
    }
}

/// The message for the first target, in order, that cannot be resolved.
pub open spec fn first_target_problem(c: AppConfig, ts: Seq<TargetConfig>) -> Option<Seq<char>>
    decreases ts.len(),
{
    if ts.len() == 0 {
        None
    } else {
        match target_problem(c, ts[0]) {
            Some(m) => Some(m),
            None => first_target_problem(c, ts.drop_first()),
        }
    }
}

/// The resolved form of a target whose references exist.
pub open spec fn resolved_target(c: AppConfig, t: TargetConfig) -> ResolvedTarget {
    ResolvedTarget {
        id: t.id,
        account: match account_with_id(c.accounts@, t.account@) {
            Some(a) => a,
            None => c.accounts@[0],
        },
        interface: match t.interface {
            None => None,
            Some(iid) => interface_with_id(c.interfaces@, iid@),
        },
    }
}

/// The message when the simple-mode default target cannot be built, if it cannot.
pub open spec fn default_target_problem(c: AppConfig) -> Option<Seq<char>> {
    match c.default_account {
        None => Some("缺少必需的 [default_account] 配置"@),
        Some(a) => account_problem(a),
    }
}

/// Whether `t` is the simple-mode default target of `c`: ID `default`, the
/// default account, no interface.
pub open spec fn is_default_target(c: AppConfig, t: ResolvedTarget) -> bool {
    t.id@ == "default"@ && c.default_account == Some(t.account) && t.interface is None
}

/// Resolves one target, reporting the first unusable reference.
fn resolve_target(config: &AppConfig, t: &TargetConfig) -> (r: Result<ResolvedTarget, PortalError>)
    ensures
        match r {
            Ok(rt) => target_problem(*config, *t) is None && rt == resolved_target(*config, *t),
            Err(e) => target_problem(*config, *t) matches Some(m) && invalid_config_with(e, m),
        },
{
    let account = match find_account(&config.accounts, t.account.as_str()) {
        Some(a) => a,
        None => {
            let mut m = owned("target ");
            m.append(t.id.as_str());
            m.append(" 引用了不存在的账号 ");
            m.append(t.account.as_str());
            return Err(PortalError::InvalidConfig(m));
        },
    };
    validate_account(&account)?;
    let interface = match &t.interface {
        Some(iid) => match find_interface(&config.interfaces, iid.as_str()) {
            Some(i) => Some(i),
            None => {
                let mut m = owned("target ");
                m.append(t.id.as_str());
                m.append(" 引用了不存在的网络接口 ");
                m.append(iid.as_str());
                return Err(PortalError::InvalidConfig(m));
            },
        },
        None => None,
    };
    Ok(ResolvedTarget { id: t.id.clone(), account, interface })
}

impl AppConfig {
    /// Builds the simple-mode default target from the default account.
    ///
    /// Fails with [`PortalError::InvalidConfig`] if the default account is
    /// absent or has unusable credentials.
    pub fn default_target(&self) -> (r: Result<ResolvedTarget, PortalError>)
        ensures
            match r {
                Ok(t) => default_target_problem(*self) is None && is_default_target(*self, t),
                Err(e) => default_target_problem(*self) matches Some(m) && invalid_config_with(e, m),
            },
    {
        let account = match &self.default_account {
            Some(a) => a.copy(),
            None => {
                return Err(PortalError::InvalidConfig(owned("缺少必需的 [default_account] 配置")));
            },
        };
        validate_account(&account)?;
        Ok(ResolvedTarget { id: owned("default"), account, interface: None })
    }

    /// Resolves the configured login targets into validated runtime targets,
    /// in configuration order.
    ///
    /// When `targets` is empty, this returns the single default target. A
    /// target refers to the last account and the last interface with the given
    /// ID. Fails with [`PortalError::InvalidConfig`] for the first target whose
    /// account or interface does not exist or whose account is unusable.
    pub fn resolved_targets(&self) -> (r: Result<Vec<ResolvedTarget>, PortalError>)
        ensures
            self.targets@.len() == 0 ==> match r {
                Ok(v) => default_target_problem(*self) is None && v@.len() == 1
                    && is_default_target(*self, v@[0]),
                Err(e) => default_target_problem(*self) matches Some(m) && invalid_config_with(
                    e,
                    m,
                ),
            },
            self.targets@.len() > 0 ==> match r {
                Ok(v) => first_target_problem(*self, self.targets@) is None && v@ == self.targets@.map_values(
                    |t: TargetConfig| resolved_target(*self, t),
                ),
                Err(e) => first_target_problem(*self, self.targets@) matches Some(m)
                    && invalid_config_with(e, m),
            },
    {
        if self.targets.len() == 0 {
            let t = self.default_target()?;
            let mut v: Vec<ResolvedTarget> = Vec::new();
            v.push(t);
            return Ok(v);
        }
        self.resolve_each()
    }

    /// Resolves every configured target in order, failing at the first one
    /// that cannot be resolved.
    fn resolve_each(&self) -> (r: Result<Vec<ResolvedTarget>, PortalError>)
        ensures
            match r {
                Ok(v) => first_target_problem(*self, self.targets@) is None && v@ == self.targets@.map_values(
                    |t: TargetConfig| resolved_target(*self, t),
                ),
                Err(e) => first_target_problem(*self, self.targets@) matches Some(m)
                    && invalid_config_with(e, m),
            },
    {
        let ghost ts = self.targets@;
        let mut out: Vec<ResolvedTarget> = Vec::new();
        let mut i: usize = 0;
        assert(ts.subrange(0, ts.len() as int) == ts);
        while i < self.targets.len()
            invariant
                i <= ts.len(),
                ts == self.targets@,
                first_target_problem(*self, ts) == first_target_problem(
                    *self,
                    ts.subrange(i as int, ts.len() as int),
                ),
                out@ == ts.take(i as int).map_values(|t: TargetConfig| resolved_target(*self, t)),
            decreases ts.len() - i,
        {
            let rt = match resolve_target(self, &self.targets[i]) {
                Ok(rt) => rt,
                Err(e) => {
                    proof {
                        let rest = ts.subrange(i as int, ts.len() as int);
                        assert(rest[0] == ts[i as int]);
                    }
                    return Err(e);
                },
            };
            proof {
                let rest = ts.subrange(i as int, ts.len() as int);
                assert(rest[0] == ts[i as int]);
                assert(rest.drop_first() == ts.subrange(i + 1, ts.len() as int));
            }
            out.push(rt);
            i = i + 1;
            assert(ts.take(i as int).map_values(|t: TargetConfig| resolved_target(*self, t))
                == ts.take(i - 1).map_values(|t: TargetConfig| resolved_target(*self, t)).push(
                resolved_target(*self, ts[i - 1]),
            ));
        }
        proof {
            assert(ts.take(ts.len() as int) == ts);
            assert(first_target_problem(*self, ts.subrange(ts.len() as int, ts.len() as int))
                is None);
        }
        Ok(out)
    }
}

} // verus!

verus! {

/// The message for the first account, in order, with unusable credentials.
pub open spec fn first_account_problem(accounts: Seq<AccountConfig>) -> Option<Seq<char>>
    decreases accounts.len(),
{
    if accounts.len() == 0 {
        None
    } else {
        match account_problem(accounts[0]) {
            Some(m) => Some(m),
            None => first_account_problem(accounts.drop_first()),
        }
    }
}

/// Whether account `a` has an ID that no earlier account has.
pub open spec fn first_with_its_id(accounts: Seq<AccountConfig>, a: int) -> bool {
    accounts[a].id matches Some(id) && forall|j: int|
        0 <= j < a ==> !(#[trigger] accounts[j].id matches Some(x) && x@ == id@)
}

/// The resolved targets, in order, that refer to account ID `id`.
pub open spec fn targets_of_account(c: AppConfig, ts: Seq<TargetConfig>, id: Seq<char>) -> Seq<
    ResolvedTarget,
>
    decreases ts.len(),
{
    if ts.len() == 0 {
        Seq::empty()
    } else {
        let prev = targets_of_account(c, ts.drop_last(), id);
        if ts.last().account@ == id {
            prev.push(resolved_target(c, ts.last()))
        } else {
            prev
        }
    }
}

/// The targets grouped under account `a`: all targets referring to its ID when
/// it is the first account with that ID, and none otherwise.
pub open spec fn account_target_list(c: AppConfig, a: int) -> Seq<ResolvedTarget> {
    if first_with_its_id(c.accounts@, a) {
        match c.accounts@[a].id {
            Some(id) => targets_of_account(c, c.targets@, id@),
            None => Seq::empty(),
        }
    } else {
        Seq::empty()
    }
}

impl AppConfig {
    /// Groups resolved targets by account while preserving account order.
    ///
    /// Every account is validated first. Accounts without explicit targets are
    /// included with an empty target list, so session commands can fall back
    /// to a default target for that account; when several accounts share an
    /// ID, the first of them receives the targets.
    pub fn account_targets(&self) -> (r: Result<Vec<(AccountConfig, Vec<ResolvedTarget>)>, PortalError>)
        ensures
            match r {
                Ok(v) => {
                    &&& first_account_problem(self.accounts@) is None
                    &&& first_target_problem(*self, self.targets@) is None
                    &&& v@.len() == self.accounts@.len()
                    &&& forall|a: int|
                        0 <= a < v@.len() ==> (#[trigger] v@[a]).0 == self.accounts@[a] && v@[a].1@
                            == account_target_list(*self, a)
                },
                Err(e) => match first_account_problem(self.accounts@) {
                    Some(m) => invalid_config_with(e, m),
                    None => first_target_problem(*self, self.targets@) matches Some(m)
                        && invalid_config_with(e, m),
                },
            },
    {
        let ghost accts = self.accounts@;
        let mut i: usize = 0;
        assert(accts.subrange(0, accts.len() as int) == accts);
        while i < self.accounts.len()
            invariant
                i <= accts.len(),
                accts == self.accounts@,
                first_account_problem(accts) == first_account_problem(
                    accts.subrange(i as int, accts.len() as int),
                ),
            decreases accts.len() - i,
        {
            proof {
                let rest = accts.subrange(i as int, accts.len() as int);
                assert(rest[0] == accts[i as int]);
                assert(rest.drop_first() == accts.subrange(i + 1, accts.len() as int));
            }
            validate_account(&self.accounts[i])?;
            i = i + 1;
        }
        assert(first_account_problem(accts.subrange(accts.len() as int, accts.len() as int))
            is None);
        let all = self.resolve_each()?;
        let ghost ts = self.targets@;
        let mut out: Vec<(AccountConfig, Vec<ResolvedTarget>)> = Vec::new();
        let mut a: usize = 0;
        while a < self.accounts.len()
            invariant
                a <= accts.len(),
                accts == self.accounts@,
                ts == self.targets@,
                all@ == ts.map_values(|t: TargetConfig| resolved_target(*self, t)),
                out@.len() == a,
                forall|k: int|
                    0 <= k < a ==> (#[trigger] out@[k]).0 == accts[k] && out@[k].1@
                        == account_target_list(*self, k),
            decreases accts.len() - a,
        {
            let account = &self.accounts[a];
            let list = match &account.id {
                None => Vec::new(),
                Some(id) => {
                    let mut earlier = false;
                    let mut j: usize = 0;
                    while j < a
                        invariant
                            j <= a,
                            a < accts.len(),
                            accts == self.accounts@,
                            accts[a as int].id == Some(*id),
                            earlier == exists|k: int|
                                0 <= k < j && (#[trigger] accts[k].id matches Some(x) && x@
                                    == id@),
                        decreases a - j,
                    {
                        let hit = match &self.accounts[j].id {
                            Some(x) => text_eq(x.as_str(), id.as_str()),
                            None => false,
                        };
                        if hit {
                            earlier = true;
                        }
                        j = j + 1;
                    }
                    if earlier {
                        Vec::new()
                    } else {
                        let mut picked: Vec<ResolvedTarget> = Vec::new();
                        let mut t: usize = 0;
                        while t < self.targets.len()
                            invariant
                                t <= ts.len(),
                                ts == self.targets@,
                                all@ == ts.map_values(
                                    |x: TargetConfig| resolved_target(*self, x),
                                ),
                                picked@ == targets_of_account(*self, ts.take(t as int), id@),
                            decreases ts.len() - t,
                        {
                            proof {
                                assert(ts.take(t + 1).drop_last() == ts.take(t as int));
                                assert(ts.take(t + 1).last() == ts[t as int]);
                            }
                            if text_eq(self.targets[t].account.as_str(), id.as_str()) {
                                picked.push(all[t].copy());
                            }
                            t = t + 1;
                        }
                        assert(ts.take(ts.len() as int) == ts);
                        picked
                    }
                },
            };
            out.push((account.copy(), list));
            a = a + 1;
        }
        Ok(out)
    }
}

/// A text with every trailing `/` removed.
pub open spec fn without_trailing_slashes(s: Seq<char>) -> Seq<char>
    decreases s.len(),
{
    if s.len() > 0 && s.last() == '/' {
        without_trailing_slashes(s.drop_last())
    } else {
        s
    }
}

/// The gateway as an HTTP(S) base URL without trailing slash: a gateway that
/// starts with `http://` or `https://` is kept, anything else is treated as a
/// bare host and gets `http://` in front.
pub open spec fn gateway_base_text(gateway: Seq<char>) -> Seq<char> {
    if has_prefix(gateway, "http://"@) || has_prefix(gateway, "https://"@) {
        without_trailing_slashes(gateway)
    } else {
        "http://"@ + without_trailing_slashes(gateway)
    }
}

/// The characters of `s` without trailing `/`.
fn strip_trailing_slashes(s: &[char]) -> (r: Vec<char>)
    ensures
        r@ == without_trailing_slashes(s@),
{
    let mut j: usize = s.len();
    assert(s@.take(j as int) == s@);
    while j > 0 && s[j - 1] == '/'
        invariant
            j <= s@.len(),
            without_trailing_slashes(s@) == without_trailing_slashes(s@.take(j as int)),
        decreases j,
    {
        proof {
            assert(s@.take(j as int).drop_last() == s@.take(j - 1));
        }
        j = j - 1;
    }
    let mut out: Vec<char> = Vec::new();
    let mut k: usize = 0;
    while k < j
        invariant
            k <= j,
            j <= s@.len(),
            out@ == s@.take(k as int),
        decreases j - k,
    {
        out.push(s[k]);
        k = k + 1;
        assert(out@ == s@.take(k as int));
    }
    assert(j == 0 || s@.take(j as int).last() != '/');
    out
}

impl NetworkConfig {
    /// Returns the gateway as a normalized HTTP(S) base URL without a trailing slash.
    ///
    /// A bare host such as `10.184.6.32` is treated as `http://10.184.6.32`.
    pub fn gateway_base(&self) -> (r: String)
        ensures
            r@ == gateway_base_text(self.gateway@),
    {
        let g = chars_of(self.gateway.as_str());
        let stripped = strip_trailing_slashes(g.as_slice());
        if starts_with(g.as_slice(), "http://") || starts_with(g.as_slice(), "https://") {
            crate::text::string_from_chars(stripped.as_slice())
        } else {
            let mut r = owned("http://");
            r.append(crate::text::string_from_chars(stripped.as_slice()).as_str());
            r
        }
    }

    /// Returns the configured request timeout.
    pub fn timeout(&self) -> (r: core::time::Duration)
        ensures
            r == duration_from_secs(self.timeout_secs),
    {
        secs_duration(self.timeout_secs)
    }
}

/// The duration of a number of whole seconds.
pub uninterp spec fn duration_from_secs(secs: u64) -> core::time::Duration;

/// A duration of whole seconds.
///
/// Calls `core::time::Duration::from_secs`.
#[verifier::external_body]
fn secs_duration(secs: u64) -> (r: core::time::Duration)
    ensures
        r == duration_from_secs(secs),
{
    core::time::Duration::from_secs(secs)
}

/// Returns the default campus gateway host.
pub fn default_gateway() -> (r: String)
    ensures
        r@ == "10.184.6.32"@,
{
    owned("10.184.6.32")
}

/// Returns the redirect-probe URL: plain HTTP to `1.1.1.1`.
pub fn default_test_url() -> (r: String)
    ensures
        r@ == "http://1.1.1.1"@,
{
    owned("http://1.1.1.1")
}

/// Returns the v3 encrypted login endpoint.
pub fn default_login_url() -> (r: String)
    ensures
        r@ == "http://10.184.6.32/portal-conversion/api/v3/portal/connect"@,
{
    owned("http://10.184.6.32/portal-conversion/api/v3/portal/connect")
}

/// Returns the session-token redirect URL template.
pub fn default_session_login_redirect_url() -> (r: String)
    ensures
        r@ == "http://10.184.6.32:80/wenet/auth?userip={local_ip}&usermac={local_mac}&nasip={nas_ip}"@,
{
    owned("http://10.184.6.32:80/wenet/auth?userip={local_ip}&usermac={local_mac}&nasip={nas_ip}")
}

/// Returns the v3 encrypted session-list endpoint.
pub fn default_session_list_url() -> (r: String)
    ensures
        r@ == "http://10.184.6.32/portal-conversion/api/v3/session/list"@,
{
    owned("http://10.184.6.32/portal-conversion/api/v3/session/list")
}

/// Returns the v3 encrypted session-logout endpoint.
pub fn default_session_logout_url() -> (r: String)
    ensures
        r@ == "http://10.184.6.32/portal-conversion/api/v3/session/acctUniqueId"@,
{
    owned("http://10.184.6.32/portal-conversion/api/v3/session/acctUniqueId")
}

/// Returns the default HTTP timeout in seconds.
pub fn default_timeout_secs() -> (r: u64)
    ensures
        r == 5,
{
    5
}

/// Whether `n` is the default network configuration of the campus portal.
pub open spec fn is_default_network(n: NetworkConfig) -> bool {
    &&& n.gateway@ == "10.184.6.32"@
    &&& n.nas_ip is None
    &&& n.test_url@ == "http://1.1.1.1"@
    &&& n.login_url@ == "http://10.184.6.32/portal-conversion/api/v3/portal/connect"@
    &&& n.session_login_redirect_url@
        == "http://10.184.6.32:80/wenet/auth?userip={local_ip}&usermac={local_mac}&nasip={nas_ip}"@
    &&& n.session_list_url@ == "http://10.184.6.32/portal-conversion/api/v3/session/list"@
    &&& n.session_logout_url@
        == "http://10.184.6.32/portal-conversion/api/v3/session/acctUniqueId"@
    &&& n.timeout_secs == 5
}

impl Default for NetworkConfig {
    /// Builds the default network configuration for the XJTU campus portal.
    fn default() -> (r: Self)
        ensures
            is_default_network(r),
    {
        NetworkConfig {
            gateway: default_gateway(),
            nas_ip: None,
            test_url: default_test_url(),
            login_url: default_login_url(),
            session_login_redirect_url: default_session_login_redirect_url(),
            session_list_url: default_session_list_url(),
            session_logout_url: default_session_logout_url(),
            timeout_secs: default_timeout_secs(),
        }
    }
}

impl Default for LogoutConfig {
    /// Automatic logout disabled, no current MAC, no known devices.
    fn default() -> (r: Self)
        ensures
            !r.enabled && r.current_mac is None && r.known_macs@.len() == 0,
    {
        LogoutConfig { enabled: false, current_mac: None, known_macs: Vec::new() }
    }
}

impl Default for NetworkBinding {
    /// No interface and no local address: the default route.
    fn default() -> (r: Self)
        ensures
            r.interface_name is None && r.local_ip is None,
    {
        NetworkBinding { interface_name: None, local_ip: None }
    }
}

impl KnownMacConfig {
    /// Creates a known-MAC entry.
    pub fn new(mac: &str, name: Option<String>) -> (r: Self)
        ensures
            r.mac@ == mac@,
            r.name == name,
    {
        KnownMacConfig { mac: owned(mac), name }
    }
}

/// Whether an address can serve as the local IPv4 identity: IPv4 and not
/// `0.0.0.0`.
pub open spec fn is_local_ipv4(ip: IpAddr) -> bool {
    ip matches IpAddr::V4(a, b, c, d) && !(a == 0 && b == 0 && c == 0 && d == 0)
}

/// Ensures an IP address is a usable IPv4 address.
///
/// Fails with [`PortalError::InvalidLocalIp`] for IPv6 or unspecified addresses.
pub fn ensure_ipv4(ip: IpAddr) -> (r: Result<(), PortalError>)
    ensures
        match r {
            Ok(()) => is_local_ipv4(ip),
            Err(e) => !is_local_ipv4(ip) && e == PortalError::InvalidLocalIp(ip),
        },
{
    match ip {
        IpAddr::V4(a, b, c, d) => {
            if a == 0 && b == 0 && c == 0 && d == 0 {
                Err(PortalError::InvalidLocalIp(ip))
            } else {
                Ok(())
            }
        },
        IpAddr::V6(..) => Err(PortalError::InvalidLocalIp(ip)),
    }
}

impl InterfaceConfig {
    /// Resolves the configured or discovered local IPv4 address.
    ///
    /// An explicit `local_ip` wins and must be IPv4 and not unspecified.
    /// Otherwise, with an interface name, the interface's first usable IPv4
    /// address is looked up on this machine. Without either, there is no
    /// local address and the default route is used.
    pub fn local_ip(&self) -> (r: Result<Option<IpAddr>, PortalError>)
        ensures
            match self.local_ip {
                Some(ip) => match r {
                    Ok(v) => is_local_ipv4(ip) && v == Some(ip),
                    Err(e) => !is_local_ipv4(ip) && e == PortalError::InvalidLocalIp(ip),
                },
                None => match self.name {
                    Some(n) => match r {
                        Ok(v) => v matches Some(ip) && is_usable_ipv4(ip) && is_local_ipv4(ip),
                        Err(e) => e is InterfaceInspect || (e matches PortalError::InterfaceAddressMissing {
                            name: m,
                        } && m@ == n@),
                    },
                    None => r == Ok::<Option<IpAddr>, PortalError>(None),
                },
            },
    {
        if let Some(ip) = self.local_ip {
            ensure_ipv4(ip)?;
            return Ok(Some(ip));
        }
        if let Some(name) = &self.name {
            let ip = interface_ipv4(name.as_str())?;
            ensure_ipv4(ip)?;
            return Ok(Some(ip));
        }
        Ok(None)
    }

    /// Returns a human-readable label for logs: the interface name, or the ID
    /// when there is no name.
    pub fn label(&self) -> (r: String)
        ensures
            r@ == (match self.name {
                Some(n) => n@,
                None => self.id@,
            }),
    {
        match &self.name {
            Some(n) => n.clone(),
            None => self.id.clone(),
        }
    }
}

impl ResolvedTarget {
    /// Builds the HTTP binding requested by this target.
    ///
    /// Without an interface the default binding is used; otherwise the
    /// interface name and its resolved local address (see
    /// [`InterfaceConfig::local_ip`]).
    pub fn network_binding(&self) -> (r: Result<NetworkBinding, PortalError>)
        ensures
            match self.interface {
                None => r matches Ok(b) && b.interface_name is None && b.local_ip is None,
                Some(i) => match i.local_ip {
                    Some(ip) => if is_local_ipv4(ip) {
                        r matches Ok(b) && b.interface_name == i.name && b.local_ip == Some(ip)
                    } else {
                        r == Err::<NetworkBinding, PortalError>(PortalError::InvalidLocalIp(ip))
                    },
                    None => match i.name {
                        None => r matches Ok(b) && b.interface_name is None && b.local_ip is None,
                        Some(n) => match r {
                            Ok(b) => b.interface_name == i.name && (b.local_ip matches Some(ip)
                                && is_usable_ipv4(ip) && is_local_ipv4(ip)),
                            Err(e) => e is InterfaceInspect || (e matches PortalError::InterfaceAddressMissing {
                                name: m,
                            } && m@ == n@),
                        },
                    },
                },
            },
    {
        match &self.interface {
            None => Ok(NetworkBinding::default()),
            Some(interface) => {
                let local_ip = interface.local_ip()?;
                Ok(NetworkBinding { interface_name: copy_opt_string(&interface.name), local_ip })
            },
        }
    }

    /// Returns the target interface label for logs, if the target has an interface.
    pub fn interface_label(&self) -> (r: Option<String>)
        ensures
            match self.interface {
                None => r is None,
                Some(i) => r matches Some(l) && l@ == (match i.name {
                    Some(n) => n@,
                    None => i.id@,
                }),
            },
    {
        match &self.interface {
            None => None,
            Some(i) => Some(i.label()),
        }
    }
}

} // verus!

verus! {

// ---------------------------------------------------------------------------
// Writing the discovered NAS IP back into the configuration text.

/// What `toml_edit` reads from a configuration text about `network.nas_ip`:
/// whether a `network` item is present and, if so, whether it is a table
/// (`None` when absent), and the `nas_ip` string if there is one; `None` when
/// the text is not editable TOML.
pub uninterp spec fn toml_nas_ip_entry(text: Seq<char>) -> Option<
    (Option<bool>, Option<Seq<char>>),
>;

/// The configuration text after `toml_edit` sets `network.nas_ip` to a string,
/// creating `[network]` when absent and keeping comments and the decoration of
/// an existing value.
pub uninterp spec fn toml_with_nas_ip(text: Seq<char>, nas_ip: Seq<char>) -> Seq<char>;

/// Declares `toml_edit::TomlError`, the error of parsing editable TOML.
#[verifier::external_type_specification]
#[verifier::external_body]
pub struct ExTomlError(toml_edit::TomlError);

/// Reads `network.nas_ip` from a configuration text.
///
/// Calls `str::parse::<toml_edit::DocumentMut>` and reads the `network` item
/// (`None` when absent, else whether it is a table) and the string value of
/// its `nas_ip`.
#[verifier::external_body]
fn read_toml_nas_ip(text: &str) -> (r: Result<(Option<bool>, Option<String>), toml_edit::TomlError>)
    ensures
        match r {
            Ok((table, nas)) => toml_nas_ip_entry(text@) == Some((table, crate::urls::opt_view(nas))),
            Err(_) => toml_nas_ip_entry(text@) is None,
        },
{
    let doc = text.parse::<toml_edit::DocumentMut>()?;
    let network = doc.get("network");
    let table = network.map(|item| item.is_table());
    let nas = network.and_then(|item| item.get("nas_ip")).and_then(|v| v.as_str());
    Ok((table, nas.map(|s| s.to_string())))
}

/// Sets `network.nas_ip` in a configuration text.
///
/// Calls `str::parse::<toml_edit::DocumentMut>`, inserts an empty `[network]`
/// table when it is absent, and stores the string in its `nas_ip` entry, with
/// the decoration (comments, spacing) of the value it replaces. The text must
/// be editable TOML whose `network` is absent or a table. The text written by
/// `DocumentMut`'s `Display` parses again, with `network` a table whose
/// `nas_ip` is that string.
#[verifier::external_body]
fn write_toml_nas_ip(text: &str, nas_ip: &str) -> (r: String)
    requires
        toml_nas_ip_entry(text@) matches Some((network, _)) && network != Some(false),
    ensures
        r@ == toml_with_nas_ip(text@, nas_ip@),
        toml_nas_ip_entry(r@) == Some((Some(true), Some(nas_ip@))),
{
    let mut doc = text.parse::<toml_edit::DocumentMut>().unwrap_or_default();
    let item = &mut doc.entry("network").or_insert(toml_edit::table())["nas_ip"];
    let decor = item.as_value().map(|v| v.decor().clone()).unwrap_or_default();
    let mut value = toml_edit::Value::from(nas_ip);
    *value.decor_mut() = decor;
    *item = toml_edit::Item::Value(value);
    doc.to_string()
}

/// The message when `[network]` is not a table.
pub open spec fn network_not_table_message() -> Seq<char> {
    "[network] 必须是 TOML 表"@
}

/// Computes the configuration text with `network.nas_ip` set.
///
/// Returns `None` when `nas_ip` already holds that value (nothing to write).
/// The updated text holds the new value, so updating it again with the same
/// value changes nothing.
/// A missing `[network]` is created. Fails with [`PortalError::ConfigEdit`]
/// (naming `path`) when the text is not editable TOML, and with
/// [`PortalError::InvalidConfig`] when `network` is present but not a table.
pub fn updated_config_text(text: &str, path: &str, nas_ip: &str) -> (r: Result<
    Option<String>,
    PortalError,
>)
    ensures
        match toml_nas_ip_entry(text@) {
            None => r matches Err(PortalError::ConfigEdit { path: p, .. }) && p@ == path@,
            Some((Some(false), _)) => r matches Err(PortalError::InvalidConfig(m)) && m@
                == network_not_table_message(),
            Some((_, current)) => if current == Some(nas_ip@) {
                r matches Ok(None)
            } else {
                r matches Ok(Some(t)) && t@ == toml_with_nas_ip(text@, nas_ip@)
            },
        },
        r matches Ok(Some(t)) ==> toml_nas_ip_entry(t@) == Some((Some(true), Some(nas_ip@))),
{
    let (network, current) = match read_toml_nas_ip(text) {
        Ok(entry) => entry,
        Err(source) => {
            return Err(PortalError::ConfigEdit { path: owned(path), source });
        },
    };
    if let Some(false) = network {
        return Err(PortalError::InvalidConfig(owned("[network] 必须是 TOML 表")));
    }
    if let Some(c) = &current {
        if text_eq(c.as_str(), nas_ip) {
            return Ok(None);
        }
    }
    Ok(Some(write_toml_nas_ip(text, nas_ip)))
}

} // verus!
