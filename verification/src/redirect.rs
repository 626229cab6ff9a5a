//! Redirect URLs for the portal login: the NAS address, the device identity
//! and the session-token redirect URL built from the configured template.

use vstd::prelude::*;

use crate::config::{
    AppConfig, InterfaceConfig, NetworkConfig, ResolvedTarget, copy_opt_string, gateway_base_text,
};
use crate::error::PortalError;
use crate::interface::IpAddr;
use crate::session::{mac_text, normalize_mac, normalized_mac};
use crate::text::{
    ascii_lower_seq, char_ascii_lower, chars_of, eq_ignore_ascii_case, owned, string_from_chars,
    split_on, text_eq,
};
use crate::urls::{pair_views, parse_url, parsed_url, url_with_pairs, url_with_pairs_text};

verus! {

// ---------------------------------------------------------------------------
// Plain text helpers.

/// `with` in place of every non-overlapping occurrence of `pat`, scanning from
/// the left, as `str::replace` does for a non-empty pattern.
pub open spec fn replace_all(s: Seq<char>, pat: Seq<char>, with: Seq<char>) -> Seq<char>
    decreases s.len(),
{
    if pat.len() == 0 || s.len() < pat.len() {
        s
    } else if s.subrange(0, pat.len() as int) == pat {
        with + replace_all(s.subrange(pat.len() as int, s.len() as int), pat, with)
    } else {
        seq![s[0]] + replace_all(s.drop_first(), pat, with)
    }
}

/// Whether `pat` occurs in `s` at index `i`.
fn matches_at(s: &[char], pat: &[char], i: usize) -> (r: bool)
    requires
        i <= s@.len(),
    ensures
        r == (i + pat@.len() <= s@.len() && s@.subrange(i as int, i + pat@.len()) == pat@),
{
    if pat.len() > s.len() - i {
        return false;
    }
    let mut k: usize = 0;
    while k < pat.len()
        invariant
            k <= pat@.len(),
            i + pat@.len() <= s@.len(),
            s@.len() <= usize::MAX,
            forall|t: int| 0 <= t < k ==> s@[i + t] == pat@[t],
        decreases pat@.len() - k,
    {
        if s[i + k] != pat[k] {
            assert(s@.subrange(i as int, i + pat@.len())[k as int] != pat@[k as int]);
            return false;
        }
        k = k + 1;
    }
    assert(s@.subrange(i as int, i + pat@.len()) == pat@);
    true
}

proof fn lemma_replace_short(s: Seq<char>, pat: Seq<char>, with: Seq<char>)
    requires
        s.len() < pat.len(),
    ensures
        replace_all(s, pat, with) == s,
{
}

/// Replaces every occurrence of a non-empty pattern, as `str::replace` does.
pub fn replace_text(s: &str, pat: &str, with: &str) -> (r: String)
    requires
        pat@.len() > 0,
    ensures
        r@ == replace_all(s@, pat@, with@),
{
    let cs = chars_of(s);
    let ps = chars_of(pat);
    let ws = chars_of(with);
    let n = cs.len();
    let mut out: Vec<char> = Vec::new();
    let mut i: usize = 0;
    assert(cs@.subrange(0, n as int) == cs@);
    while i < n
        invariant
            i <= n,
            n == cs@.len(),
            cs@ == s@,
            ps@ == pat@,
            ws@ == with@,
            ps@.len() > 0,
            out@ + replace_all(cs@.subrange(i as int, n as int), ps@, ws@) == replace_all(
                cs@,
                ps@,
                ws@,
            ),
        decreases n - i,
    {
        let ghost rest = cs@.subrange(i as int, n as int);
        if matches_at(cs.as_slice(), ps.as_slice(), i) {
            proof {
                assert(rest.subrange(0, ps@.len() as int) == cs@.subrange(i as int, i + ps@.len()));
                assert(rest.subrange(ps@.len() as int, rest.len() as int) == cs@.subrange(
                    i + ps@.len(),
                    n as int,
                ));
            }
            let mut k: usize = 0;
            let ghost out0 = out@;
            while k < ws.len()
                invariant
                    k <= ws@.len(),
                    out@ == out0 + ws@.take(k as int),
                decreases ws@.len() - k,
            {
                out.push(ws[k]);
                k = k + 1;
                assert(out@ == out0 + ws@.take(k as int));
            }
            assert(ws@.take(ws@.len() as int) == ws@);
            assert(out@ + replace_all(cs@.subrange((i + ps@.len()) as int, n as int), ps@, ws@)
                == out0 + (ws@ + replace_all(rest.subrange(ps@.len() as int, rest.len() as int), ps@, ws@)));
            i = i + ps.len();
        } else {
            proof {
                assert(rest.drop_first() == cs@.subrange(i + 1, n as int));
                assert(rest[0] == cs@[i as int]);
                if rest.len() < ps@.len() {
                    lemma_replace_short(rest, ps@, ws@);
                    lemma_replace_short(rest.drop_first(), ps@, ws@);
                    assert(seq![rest[0]] + rest.drop_first() == rest);
                } else {
                    assert(rest.subrange(0, ps@.len() as int) == cs@.subrange(i as int, i + ps@.len()));
                }
            }
            let ghost out0 = out@;
            out.push(cs[i]);
            assert(out@ == out0 + seq![cs@[i as int]]);
            i = i + 1;
        }
    }
    assert(cs@.subrange(n as int, n as int) =~= Seq::<char>::empty());
    string_from_chars(out.as_slice())
}

/// Decimal digits of a number.
pub open spec fn decimal_text(n: nat) -> Seq<char>
    decreases n,
{
    if n < 10 {
        seq![(('0' as int) + n) as char]
    } else {
        decimal_text(n / 10).push((('0' as int) + n % 10) as char)
    }
}

/// The dotted-decimal text of an IPv4 address.
pub open spec fn ipv4_text(a: u8, b: u8, c: u8, d: u8) -> Seq<char> {
    decimal_text(a as nat) + seq!['.'] + decimal_text(b as nat) + seq!['.'] + decimal_text(
        c as nat,
    ) + seq!['.'] + decimal_text(d as nat)
}

/// Appends the decimal digits of a byte.
fn push_decimal(out: &mut Vec<char>, v: u8)
    ensures
        final(out)@ == old(out)@ + decimal_text(v as nat),
{
    let digit = |d: u8| -> (c: char)
        requires
            d < 10,
        ensures
            c == (('0' as int) + d) as char,
        { ((('0' as u8) + d) as char) };
    if v >= 100 {
        out.push(digit(v / 100));
        out.push(digit((v / 10) % 10));
        out.push(digit(v % 10));
        assert(decimal_text(v as nat) == decimal_text((v / 10) as nat).push(
            (('0' as int) + v % 10) as char,
        ));
        assert(decimal_text((v / 10) as nat) == decimal_text((v / 100) as nat).push(
            (('0' as int) + (v / 10) % 10) as char,
        ));
    } else if v >= 10 {
        out.push(digit(v / 10));
        out.push(digit(v % 10));
        assert(decimal_text(v as nat) == decimal_text((v / 10) as nat).push(
            (('0' as int) + v % 10) as char,
        ));
    } else {
        out.push(digit(v));
    }
}

/// Formats an IPv4 address in dotted-decimal form.
pub fn ipv4_string(a: u8, b: u8, c: u8, d: u8) -> (r: String)
    ensures
        r@ == ipv4_text(a, b, c, d),
{
    let mut out: Vec<char> = Vec::new();
    push_decimal(&mut out, a);
    out.push('.');
    push_decimal(&mut out, b);
    out.push('.');
    push_decimal(&mut out, c);
    out.push('.');
    push_decimal(&mut out, d);
    string_from_chars(out.as_slice())
}

} // verus!

verus! {

// ---------------------------------------------------------------------------
// MAC texts for redirect URLs.

/// A MAC text with `:` separators turned into `-`.
pub open spec fn dashed(s: Seq<char>) -> Seq<char> {
    s.map_values(|c: char| if c == ':' { '-' } else { c })
}

/// The dash-separated portal form of a MAC text, if it is a valid MAC.
pub open spec fn portal_mac_text(mac: Seq<char>) -> Option<Seq<char>> {
    match normalized_mac(mac) {
        Some(m) => Some(dashed(m)),
        None => None,
    }
}

/// The dash-separated form of six octets normalizes back to their
/// `aa:bb:cc:dd:ee:ff` form.
proof fn lemma_dashed_mac_text(vs: Seq<u8>)
    requires
        vs.len() == 6,
    ensures
        normalized_mac(dashed(mac_text(vs))) == Some(mac_text(vs)),
{
    let m = mac_text(vs);
    let d = dashed(m);
    crate::session::lemma_mac_text_shape(vs);
    crate::session::lemma_mac_text_is_normalized(vs);
    assert(d.len() == m.len());
    assert(d[0] == m[0]);
    assert(d.last() == m.last());
    crate::session::lemma_trim_mac_text(d);
    assert forall|i: int| 0 <= i < d.len() implies #[trigger] crate::session::mac_char(d[i])
        == crate::session::mac_char(m[i]) by {
        assert(crate::session::is_mac_text_char(m[i]));
    }
    assert(crate::session::mac_chars(d) == crate::session::mac_chars(m));
}

/// The dash-separated MAC sent to the portal names the same device as the
/// MAC it was made from: it normalizes back to the same normalized MAC.
pub proof fn lemma_portal_mac_round_trip(mac: Seq<char>)
    requires
        normalized_mac(mac) is Some,
    ensures
        portal_mac_text(mac) matches Some(p) && normalized_mac(p) == normalized_mac(mac),
{
    lemma_dashed_mac_text(crate::session::mac_octets(mac)->0);
}

/// Converts a MAC address into the dash-separated format used in redirect URLs.
///
/// Fails with [`PortalError::InvalidMac`] if `mac` cannot be normalized.
pub fn portal_mac(mac: &str) -> (r: Result<String, PortalError>)
    ensures
        match r {
            Ok(p) => portal_mac_text(mac@) == Some(p@),
            Err(e) => portal_mac_text(mac@) is None && (e matches PortalError::InvalidMac(t) && t@ == mac@),
        },
{
    let normalized = normalize_mac(mac)?;
    let cs = chars_of(normalized.as_str());
    let mut out: Vec<char> = Vec::new();
    let mut i: usize = 0;
    while i < cs.len()
        invariant
            i <= cs@.len(),
            out@ == dashed(cs@.take(i as int)),
        decreases cs@.len() - i,
    {
        let c = cs[i];
        out.push(if c == ':' { '-' } else { c });
        i = i + 1;
        assert(dashed(cs@.take(i as int)) == dashed(cs@.take(i - 1)).push(
            if cs@[i - 1] == ':' { '-' } else { cs@[i - 1] },
        ));
    }
    assert(cs@.take(cs@.len() as int) == cs@);
    Ok(string_from_chars(out.as_slice()))
}

/// The six octets of a generated locally administered MAC for a clock seed:
/// `02` followed by bits 32..0 of the seed, one octet per 8 bits.
pub open spec fn generated_octets(seed: u64) -> Seq<u8> {
    seq![
        2u8,
        (seed >> 32u64) as u8,
        (seed >> 24u64) as u8,
        (seed >> 16u64) as u8,
        (seed >> 8u64) as u8,
        seed as u8,
    ]
}

/// A generated MAC is a valid MAC address whose first octet `02` marks it
/// locally administered and unicast, so the portal accepts it as a device.
pub proof fn lemma_generated_mac_is_valid(seed: u64)
    ensures
        generated_octets(seed)[0] == 2,
        normalized_mac(dashed(mac_text(generated_octets(seed)))) == Some(
            mac_text(generated_octets(seed)),
        ),
{
    lemma_dashed_mac_text(generated_octets(seed));
}

/// Generates a locally administered MAC-like value for redirect token requests.
///
/// The portal only needs a well-formed `usermac` to hand out a token; the
/// value is `02-..` with the low 40 bits of the seed, dash-separated.
pub fn generated_portal_mac(seed: u64) -> (r: String)
    ensures
        r@ == dashed(mac_text(generated_octets(seed))),
{
    let mut octets: Vec<u8> = Vec::new();
    octets.push(2u8);
    octets.push((seed >> 32u64) as u8);
    octets.push((seed >> 24u64) as u8);
    octets.push((seed >> 16u64) as u8);
    octets.push((seed >> 8u64) as u8);
    octets.push(seed as u8);
    assert(octets@ == generated_octets(seed));
    let mut out: Vec<char> = Vec::new();
    let mut j: usize = 0;
    while j < 6
        invariant
            j <= 6,
            octets@ == generated_octets(seed),
            out@ == dashed(mac_text(octets@.take(j as int))),
        decreases 6 - j,
    {
        let ghost before = out@;
        if j > 0 {
            out.push('-');
        }
        let v = octets[j];
        out.push(crate::text::lower_hex_char(v / 16));
        out.push(crate::text::lower_hex_char(v % 16));
        j = j + 1;
        proof {
            let t = octets@.take(j as int);
            assert(t.drop_last() == octets@.take(j - 1));
            assert(t.last() == v);
            if j > 1 {
                assert(mac_text(t) == mac_text(t.drop_last()) + seq![':'] + crate::session::octet_text(v));
                assert(dashed(mac_text(t)) == dashed(mac_text(t.drop_last())) + dashed(seq![':'])
                    + dashed(crate::session::octet_text(v)));
            }
        }
    }
    assert(octets@.take(6) == octets@);
    string_from_chars(out.as_slice())
}

/// Declares `std::time::SystemTimeError`, the error of a clock that reads
/// before a given time.
#[verifier::external_type_specification]
#[verifier::external_body]
pub struct ExSystemTimeError(std::time::SystemTimeError);

/// The time elapsed since the Unix epoch.
///
/// Calls `SystemTime::elapsed` on `UNIX_EPOCH`, which fails when the clock
/// reads earlier than the epoch. The result depends on the time of the call.
#[verifier::external_body]
fn since_epoch() -> (r: Result<core::time::Duration, std::time::SystemTimeError>) {
    std::time::UNIX_EPOCH.elapsed()
}

/// The whole nanoseconds of a duration.
///
/// Calls `Duration::as_nanos`.
#[verifier::external_body]
fn duration_nanos(d: core::time::Duration) -> (r: u128) {
    d.as_nanos()
}

/// A seed from the system clock: the nanoseconds since the epoch truncated to
/// 64 bits, or a fixed seed when the clock reads before the epoch.
fn clock_seed() -> (r: u64) {
    match since_epoch() {
        Ok(d) => duration_nanos(d) as u64,
        Err(_) => 0x1234_5678_9000_0000u64,
    }
}

/// The first known device MAC that has a portal form, in order.
pub open spec fn first_portal_known_mac(known: Seq<crate::config::KnownMacConfig>) -> Option<Seq<char>>
    decreases known.len(),
{
    if known.len() == 0 {
        None
    } else if portal_mac_text(known[0].mac@) is Some {
        portal_mac_text(known[0].mac@)
    } else {
        first_portal_known_mac(known.drop_first())
    }
}

/// The first interface MAC that has a portal form, in order.
pub open spec fn first_portal_interface_mac(interfaces: Seq<InterfaceConfig>) -> Option<Seq<char>>
    decreases interfaces.len(),
{
    if interfaces.len() == 0 {
        None
    } else if interfaces[0].mac matches Some(m) && portal_mac_text(m@) is Some {
        portal_mac_text(interfaces[0].mac->0@)
    } else {
        first_portal_interface_mac(interfaces.drop_first())
    }
}

/// Whether `r` is the MAC chosen for default-mode redirect URLs: the current
/// MAC (which must be valid), else the first valid known MAC, else the first
/// valid interface MAC, else a generated MAC (for some clock seed).
pub open spec fn is_redirect_user_mac(c: AppConfig, r: Result<String, PortalError>) -> bool {
    match c.logout.current_mac {
        Some(cm) => match portal_mac_text(cm@) {
            Some(p) => r matches Ok(s) && s@ == p,
            None => r matches Err(PortalError::InvalidMac(t)) && t@ == cm@,
        },
        None => match first_portal_known_mac(c.logout.known_macs@) {
            Some(p) => r matches Ok(s) && s@ == p,
            None => match first_portal_interface_mac(c.interfaces@) {
                Some(p) => r matches Ok(s) && s@ == p,
                None => r matches Ok(s) && exists|seed: u64|
                    s@ == dashed(mac_text(#[trigger] generated_octets(seed))),
            },
        },
    }
}

/// Chooses a MAC address for default-mode redirect URL construction.
///
/// Prefers the current MAC, then the known devices, then the interfaces; when
/// none is configured a locally administered MAC is generated from the clock.
pub fn redirect_user_mac(config: &AppConfig) -> (r: Result<String, PortalError>)
    ensures
        is_redirect_user_mac(*config, r),
{
    if let Some(mac) = &config.logout.current_mac {
        return portal_mac(mac.as_str());
    }
    let known = &config.logout.known_macs;
    let mut i: usize = 0;
    assert(known@.subrange(0, known@.len() as int) == known@);
    while i < known.len()
        invariant
            i <= known@.len(),
            known == &config.logout.known_macs,
            config.logout.current_mac is None,
            first_portal_known_mac(known@) == first_portal_known_mac(
                known@.subrange(i as int, known@.len() as int),
            ),
        decreases known@.len() - i,
    {
        proof {
            let rest = known@.subrange(i as int, known@.len() as int);
            assert(rest[0] == known@[i as int]);
            assert(rest.drop_first() == known@.subrange(i + 1, known@.len() as int));
        }
        if let Ok(p) = portal_mac(known[i].mac.as_str()) {
            return Ok(p);
        }
        i = i + 1;
    }
    let interfaces = &config.interfaces;
    let mut j: usize = 0;
    assert(interfaces@.subrange(0, interfaces@.len() as int) == interfaces@);
    assert(first_portal_known_mac(known@.subrange(known@.len() as int, known@.len() as int)) is None);
    while j < interfaces.len()
        invariant
            j <= interfaces@.len(),
            interfaces == &config.interfaces,
            known == &config.logout.known_macs,
            config.logout.current_mac is None,
            first_portal_known_mac(known@) is None,
            first_portal_interface_mac(interfaces@) == first_portal_interface_mac(
                interfaces@.subrange(j as int, interfaces@.len() as int),
            ),
        decreases interfaces@.len() - j,
    {
        proof {
            let rest = interfaces@.subrange(j as int, interfaces@.len() as int);
            assert(rest[0] == interfaces@[j as int]);
            assert(rest.drop_first() == interfaces@.subrange(j + 1, interfaces@.len() as int));
        }
        if let Some(m) = &interfaces[j].mac {
            if let Ok(p) = portal_mac(m.as_str()) {
                return Ok(p);
            }
        }
        j = j + 1;
    }
    let seed = clock_seed();
    let g = generated_portal_mac(seed);
    assert(g@ == dashed(mac_text(generated_octets(seed))));
    Ok(g)
}

// ---------------------------------------------------------------------------
// NAS address.

/// The message when online session operations need a NAS IP but none is configured.
pub open spec fn missing_nas_ip_message() -> Seq<char> {
    "已在线时执行 list/logout 需要 network.nas_ip；请先在未登录时运行一次 login 自动捕获，或从重定向 Location 头中手动填写，例如 nasip=10.6.33.10"@
}

/// Returns the configured NAS IP required for online session operations.
///
/// Fails with [`PortalError::InvalidConfig`] when `network.nas_ip` is missing.
pub fn nas_ip(config: &AppConfig) -> (r: Result<String, PortalError>)
    ensures
        match config.network.nas_ip {
            Some(n) => r == Ok::<String, PortalError>(n),
            None => r matches Err(PortalError::InvalidConfig(m)) && m@ == missing_nas_ip_message(),
        },
{
    match &config.network.nas_ip {
        Some(n) => Ok(n.clone()),
        None => Err(PortalError::InvalidConfig(
            owned(
                "已在线时执行 list/logout 需要 network.nas_ip；请先在未登录时运行一次 login 自动捕获，或从重定向 Location 头中手动填写，例如 nasip=10.6.33.10",
            ),
        )),
    }
}

/// The value of the first query pair whose key is `nasip` in any ASCII case
/// and whose value is not empty.
pub open spec fn first_nas_ip(pairs: Seq<(Seq<char>, Seq<char>)>) -> Option<Seq<char>>
    decreases pairs.len(),
{
    if pairs.len() == 0 {
        None
    } else if eq_ignore_ascii_case(pairs[0].0, seq!['n', 'a', 's', 'i', 'p']) && pairs[0].1.len()
        > 0 {
        Some(pairs[0].1)
    } else {
        first_nas_ip(pairs.drop_first())
    }
}

/// The NAS IP carried by a redirect URL, if it is a URL with a `nasip` query
/// parameter (key in any ASCII case) that has a value.
pub open spec fn nas_ip_of_redirect(url: Seq<char>) -> Option<Seq<char>> {
    match parsed_url(url) {
        None => None,
        Some(p) => first_nas_ip(p.2),
    }
}

/// Whether a text is `nasip` in any ASCII case.
fn is_nasip_key(k: &str) -> (r: bool)
    ensures
        r == eq_ignore_ascii_case(k@, seq!['n', 'a', 's', 'i', 'p']),
{
    let cs = chars_of(k);
    let lower = crate::text::lower_chars(cs.as_slice());
    let target: Vec<char> = vec!['n', 'a', 's', 'i', 'p'];
    assert(ascii_lower_seq(target@) == target@);
    if lower.len() != 5 {
        return false;
    }
    let mut i: usize = 0;
    while i < 5
        invariant
            i <= 5,
            lower@.len() == 5,
            lower@ == ascii_lower_seq(k@),
            target@ == seq!['n', 'a', 's', 'i', 'p'],
            forall|t: int| 0 <= t < i ==> lower@[t] == target@[t],
        decreases 5 - i,
    {
        if lower[i] != target[i] {
            return false;
        }
        i = i + 1;
    }
    assert(lower@ == target@);
    true
}

/// Extracts `nasip` from a portal redirect URL.
///
/// Returns `None` if the URL is invalid, lacks `nasip`, or has an empty value.
pub fn nas_ip_from_redirect_url(redirect_url: &str) -> (r: Option<String>)
    ensures
        match r {
            Some(n) => nas_ip_of_redirect(redirect_url@) == Some(n@),
            None => nas_ip_of_redirect(redirect_url@) is None,
        },
{
    let parts = match parse_url(redirect_url) {
        Ok(p) => p,
        Err(_) => {
            return None;
        },
    };
    let pairs = &parts.query_pairs;
    let ghost pv = pair_views(pairs@);
    let mut i: usize = 0;
    assert(pv.subrange(0, pv.len() as int) == pv);
    while i < pairs.len()
        invariant
            i <= pairs@.len(),
            pv == pair_views(pairs@),
            nas_ip_of_redirect(redirect_url@) == first_nas_ip(pv),
            first_nas_ip(pv) == first_nas_ip(pv.subrange(i as int, pv.len() as int)),
        decreases pairs@.len() - i,
    {
        let (k, v) = &pairs[i];
        proof {
            let rest = pv.subrange(i as int, pv.len() as int);
            assert(rest[0] == (k@, v@));
            assert(rest.drop_first() == pv.subrange(i + 1, pv.len() as int));
        }
        if is_nasip_key(k.as_str()) && !v.as_str().is_empty() {
            return Some(v.clone());
        }
        i = i + 1;
    }
    None
}

// ---------------------------------------------------------------------------
// Session-token redirect URL.

/// Whether any query pair has key `k` exactly.
pub open spec fn has_query_key(pairs: Seq<(Seq<char>, Seq<char>)>, k: Seq<char>) -> bool {
    exists|i: int| 0 <= i < pairs.len() && pairs[i].0 == k
}

/// The identity pairs missing from a query, in the order `userip`, `usermac`, `nasip`.
pub open spec fn missing_identity_pairs(
    pairs: Seq<(Seq<char>, Seq<char>)>,
    user_ip: Seq<char>,
    user_mac: Seq<char>,
    nas_ip: Seq<char>,
) -> Seq<(Seq<char>, Seq<char>)> {
    (if has_query_key(pairs, "userip"@) {
        Seq::empty()
    } else {
        seq![("userip"@, user_ip)]
    }) + (if has_query_key(pairs, "usermac"@) {
        Seq::empty()
    } else {
        seq![("usermac"@, user_mac)]
    }) + (if has_query_key(pairs, "nasip"@) {
        Seq::empty()
    } else {
        seq![("nasip"@, nas_ip)]
    })
}

/// A redirect URL with the required query parameters: unchanged when it has
/// `userip`, `usermac` and `nasip`, else with the missing ones appended;
/// `None` when it is not a URL.
pub open spec fn with_identity_query(
    value: Seq<char>,
    user_ip: Seq<char>,
    user_mac: Seq<char>,
    nas_ip: Seq<char>,
) -> Option<Seq<char>> {
    match parsed_url(value) {
        None => None,
        Some(p) => {
            let missing = missing_identity_pairs(p.2, user_ip, user_mac, nas_ip);
            if missing.len() == 0 {
                Some(value)
            } else {
                Some(url_with_pairs_text(value, missing))
            }
        },
    }
}

/// Whether a query has a pair with key `key` exactly.
fn query_has_key(pairs: &Vec<(String, String)>, key: &str) -> (r: bool)
    ensures
        r == has_query_key(pair_views(pairs@), key@),
{
    let mut i: usize = 0;
    while i < pairs.len()
        invariant
            i <= pairs@.len(),
            forall|t: int| 0 <= t < i ==> pairs@[t].0@ != key@,
        decreases pairs@.len() - i,
    {
        if text_eq(pairs[i].0.as_str(), key) {
            assert(pair_views(pairs@)[i as int].0 == key@);
            return true;
        }
        i = i + 1;
    }
    proof {
        if has_query_key(pair_views(pairs@), key@) {
            let t = choose|t: int|
                0 <= t < pair_views(pairs@).len() && pair_views(pairs@)[t].0 == key@;
            assert(pairs@[t].0@ == key@);
        }
    }
    false
}

/// Ensures a redirect URL contains the query parameters required by the portal.
///
/// The template may be overridden by the user; only missing parameters are
/// appended, existing ones are kept. Fails with [`PortalError::UrlParse`] if
/// the text is not a URL.
pub fn ensure_redirect_query(value: String, user_ip: &str, user_mac: &str, nas_ip: &str) -> (r:
    Result<String, PortalError>)
    ensures
        match r {
            Ok(s) => with_identity_query(value@, user_ip@, user_mac@, nas_ip@) == Some(s@),
            Err(e) => with_identity_query(value@, user_ip@, user_mac@, nas_ip@) is None && (e matches PortalError::UrlParse {
                url,
                ..
            } && url@ == value@),
        },
{
    let parts = match parse_url(value.as_str()) {
        Ok(p) => p,
        Err(source) => {
            return Err(PortalError::UrlParse { url: value, source });
        },
    };
    let has_user_ip = query_has_key(&parts.query_pairs, "userip");
    let has_user_mac = query_has_key(&parts.query_pairs, "usermac");
    let has_nas_ip = query_has_key(&parts.query_pairs, "nasip");
    let ghost missing = missing_identity_pairs(pair_views(parts.query_pairs@), user_ip@, user_mac@, nas_ip@);
    if has_user_ip && has_user_mac && has_nas_ip {
        assert(missing.len() == 0);
        return Ok(value);
    }
    let mut pairs: Vec<(String, String)> = Vec::new();
    if !has_user_ip {
        pairs.push((owned("userip"), owned(user_ip)));
    }
    if !has_user_mac {
        pairs.push((owned("usermac"), owned(user_mac)));
    }
    if !has_nas_ip {
        pairs.push((owned("nasip"), owned(nas_ip)));
    }
    assert(pair_views(pairs@) =~= missing);
    match url_with_pairs(value.as_str(), pairs.as_slice()) {
        Ok(s) => Ok(s),
        Err(source) => Err(PortalError::UrlParse { url: value, source }),
    }
}

} // verus!

verus! {

/// The text of an address as the redirect URL carries it (dotted decimal).
pub open spec fn ip_text(ip: IpAddr) -> Seq<char> {
    match ip {
        IpAddr::V4(a, b, c, d) => ipv4_text(a, b, c, d),
        IpAddr::V6(..) => Seq::empty(),
    }
}

/// The identity a redirect URL carries for a target, or what is still
/// missing to build it.
#[derive(Debug)]
pub enum IdentityPlan {
    /// The user IP and the dash-separated user MAC.
    Ready { user_ip: String, user_mac: String },
    /// The user IP is known; the MAC must be read from the interface holding `ip`.
    NeedsMac { ip: IpAddr, user_ip: String },
}

/// The message for an interface target that has neither a local IP nor a name.
pub open spec fn missing_local_ip_message(target_id: Seq<char>, interface_id: Seq<char>) -> Seq<char> {
    "target "@ + target_id + " 的 interface "@ + interface_id
        + " 缺少 local_ip 或 name，无法构造真实 redirectUrl"@
}

/// The message for an interface target whose MAC is neither configured nor found.
pub open spec fn missing_mac_message(target_id: Seq<char>, interface_id: Seq<char>) -> Seq<char> {
    "target "@ + target_id + " 的 interface "@ + interface_id
        + " 缺少 mac，且无法从本机网卡查询到 MAC"@
}

/// Whether `r` is the identity plan for interface `i` once its local IPv4
/// address `ip` is known: the configured MAC in portal form, or a request to
/// discover the MAC.
pub open spec fn plan_for_ip(i: InterfaceConfig, ip: IpAddr, r: Result<IdentityPlan, PortalError>) -> bool {
    match i.mac {
        Some(m) => match portal_mac_text(m@) {
            Some(p) => r matches Ok(IdentityPlan::Ready { user_ip, user_mac }) && user_ip@ == ip_text(ip)
                && user_mac@ == p,
            None => r matches Err(PortalError::InvalidMac(t)) && t@ == m@,
        },
        None => r matches Ok(IdentityPlan::NeedsMac { ip: x, user_ip }) && x == ip && user_ip@ == ip_text(ip),
    }
}

/// Resolves the user IP and MAC to embed in the session redirect URL.
///
/// A target without interface uses `0.0.0.0` and the default-mode MAC (see
/// [`redirect_user_mac`]). A target with an interface must provide or
/// discover a real IPv4 address; its MAC is the configured one, or must be
/// discovered from the machine (see [`identity_from_discovered_mac`]).
pub fn redirect_user_identity(config: &AppConfig, target: &ResolvedTarget) -> (r: Result<
    IdentityPlan,
    PortalError,
>)
    ensures
        match target.interface {
            None => match r {
                Ok(p) => p matches IdentityPlan::Ready { user_ip, user_mac } && user_ip@ == "0.0.0.0"@
                    && is_redirect_user_mac(*config, Ok(user_mac)),
                Err(e) => is_redirect_user_mac(*config, Err(e)),
            },
            Some(i) => match i.local_ip {
                Some(ip) => if crate::config::is_local_ipv4(ip) {
                    plan_for_ip(i, ip, r)
                } else {
                    r == Err::<IdentityPlan, PortalError>(PortalError::InvalidLocalIp(ip))
                },
                None => match i.name {
                    Some(n) => {
                        ||| r matches Err(PortalError::InterfaceInspect(_))
                        ||| (r matches Err(PortalError::InterfaceAddressMissing { name: m }) && m@
                            == n@)
                        ||| exists|ip: IpAddr|
                            crate::config::is_local_ipv4(ip) && crate::interface::is_usable_ipv4(ip)
                                && plan_for_ip(i, ip, r)
                    },
                    None => r matches Err(PortalError::InvalidConfig(m)) && m@ == missing_local_ip_message(
                        target.id@,
                        i.id@,
                    ),
                },
            },
        },
{
    let interface = match &target.interface {
        None => {
            let mac = redirect_user_mac(config)?;
            return Ok(IdentityPlan::Ready { user_ip: owned("0.0.0.0"), user_mac: mac });
        },
        Some(i) => i,
    };
    let local_ip = match interface.local_ip()? {
        Some(ip) => ip,
        None => {
            let mut m = owned("target ");
            m.append(target.id.as_str());
            m.append(" 的 interface ");
            m.append(interface.id.as_str());
            m.append(" 缺少 local_ip 或 name，无法构造真实 redirectUrl");
            return Err(PortalError::InvalidConfig(m));
        },
    };
    let user_ip = match local_ip {
        IpAddr::V4(a, b, c, d) => ipv4_string(a, b, c, d),
        IpAddr::V6(..) => String::new(),
    };
    match &interface.mac {
        Some(mac) => {
            let user_mac = portal_mac(mac.as_str())?;
            Ok(IdentityPlan::Ready { user_ip, user_mac })
        },
        None => Ok(IdentityPlan::NeedsMac { ip: local_ip, user_ip }),
    }
}

/// Completes a redirect identity with the MAC discovered for the target's
/// interface address.
///
/// Fails with the discovery error, with [`PortalError::InvalidMac`] for an
/// unusable discovered MAC, or with [`PortalError::InvalidConfig`] when no MAC
/// was found.
pub fn identity_from_discovered_mac(
    target: &ResolvedTarget,
    user_ip: String,
    discovered: Result<Option<String>, PortalError>,
) -> (r: Result<(String, String), PortalError>)
    ensures
        match discovered {
            Err(e) => r == Err::<(String, String), PortalError>(e),
            Ok(Some(m)) => match portal_mac_text(m@) {
                Some(p) => r matches Ok((ip, mac)) && ip == user_ip && mac@ == p,
                None => r matches Err(PortalError::InvalidMac(t)) && t@ == m@,
            },
            Ok(None) => r matches Err(PortalError::InvalidConfig(msg)) && msg@ == missing_mac_message(
                target.id@,
                match target.interface {
                    Some(i) => i.id@,
                    None => Seq::empty(),
                },
            ),
        },
{
    match discovered? {
        Some(mac) => {
            let user_mac = portal_mac(mac.as_str())?;
            Ok((user_ip, user_mac))
        },
        None => {
            let mut m = owned("target ");
            m.append(target.id.as_str());
            m.append(" 的 interface ");
            match &target.interface {
                Some(i) => m.append(i.id.as_str()),
                None => {},
            }
            m.append(" 缺少 mac，且无法从本机网卡查询到 MAC");
            Err(PortalError::InvalidConfig(m))
        },
    }
}

/// The session redirect URL text after substituting the template variables
/// `{local_ip}`, `{local_mac}` and `{nas_ip}`.
pub open spec fn substituted_template(
    template: Seq<char>,
    user_ip: Seq<char>,
    user_mac: Seq<char>,
    nas_ip: Seq<char>,
) -> Seq<char> {
    replace_all(
        replace_all(replace_all(template, "{local_ip}"@, user_ip), "{local_mac}"@, user_mac),
        "{nas_ip}"@,
        nas_ip,
    )
}

/// Builds the redirect URL used to obtain a session API token.
///
/// The configured template may include `{local_ip}`, `{local_mac}` and
/// `{nas_ip}`; missing required query parameters are appended after
/// substitution (see [`ensure_redirect_query`]). Fails when the NAS IP is not
/// configured or the result is not a URL.
pub fn session_login_redirect_url(config: &AppConfig, user_ip: &str, user_mac: &str) -> (r: Result<
    String,
    PortalError,
>)
    ensures
        match config.network.nas_ip {
            None => r matches Err(PortalError::InvalidConfig(m)) && m@ == missing_nas_ip_message(),
            Some(n) => {
                let value = substituted_template(
                    config.network.session_login_redirect_url@,
                    user_ip@,
                    user_mac@,
                    n@,
                );
                match r {
                    Ok(s) => with_identity_query(value, user_ip@, user_mac@, n@) == Some(s@),
                    Err(e) => with_identity_query(value, user_ip@, user_mac@, n@) is None && (e matches PortalError::UrlParse {
                        url,
                        ..
                    } && url@ == value),
                }
            },
        },
{
    let nas = nas_ip(config)?;
    proof {
        reveal_strlit("{local_ip}");
        reveal_strlit("{local_mac}");
        reveal_strlit("{nas_ip}");
    }
    let step1 = replace_text(config.network.session_login_redirect_url.as_str(), "{local_ip}", user_ip);
    let step2 = replace_text(step1.as_str(), "{local_mac}", user_mac);
    let value = replace_text(step2.as_str(), "{nas_ip}", nas.as_str());
    ensure_redirect_query(value, user_ip, user_mac, nas.as_str())
}

// ---------------------------------------------------------------------------
// Route probing toward the gateway.

/// The host and port that route probing toward the gateway aims at: the host
/// of the gateway base URL and its port (explicit or the scheme's default),
/// `80` when neither is known.
pub open spec fn gateway_endpoint_of(gateway: Seq<char>) -> Option<(Seq<char>, u16)> {
    match parsed_url(gateway_base_text(gateway)) {
        Some(p) => match p.3 {
            Some(h) => Some(
                (
                    h,
                    match p.4 {
                        Some(port) => port,
                        None => 80u16,
                    },
                ),
            ),
            None => None,
        },
        None => None,
    }
}

/// The host and port of the gateway, for finding which local address routes
/// toward it.
///
/// Fails with [`PortalError::UrlParse`] when the gateway base URL does not
/// parse, and with [`PortalError::GatewayResolve`] carrying the configured
/// gateway when it has no host.
pub fn gateway_endpoint(network: &NetworkConfig) -> (r: Result<(String, u16), PortalError>)
    ensures
        match r {
            Ok((h, port)) => gateway_endpoint_of(network.gateway@) == Some((h@, port)),
            Err(e) => gateway_endpoint_of(network.gateway@) is None && (match parsed_url(
                gateway_base_text(network.gateway@),
            ) {
                None => e matches PortalError::UrlParse { url, .. } && url@ == network.gateway@,
                Some(_) => e matches PortalError::GatewayResolve(g) && g@ == network.gateway@,
            }),
        },
{
    let base = network.gateway_base();
    let parts = match parse_url(base.as_str()) {
        Ok(p) => p,
        Err(source) => {
            return Err(PortalError::UrlParse { url: network.gateway.clone(), source });
        },
    };
    let port = match parts.port {
        Some(p) => p,
        None => 80,
    };
    match parts.host {
        Some(h) => Ok((h, port)),
        None => Err(PortalError::GatewayResolve(network.gateway.clone())),
    }
}

} // verus!

verus! {

// ---------------------------------------------------------------------------
// Laws of the redirect identity texts.

/// The number that a text of decimal digits denotes.
pub open spec fn decimal_value(s: Seq<char>) -> nat
    decreases s.len(),
{
    if s.len() == 0 {
        0
    } else {
        decimal_value(s.drop_last()) * 10 + ((s.last() as int) - ('0' as int)) as nat
    }
}

/// Whether a character is an ASCII decimal digit.
pub open spec fn is_decimal_digit(c: char) -> bool {
    '0' <= c && c <= '9'
}

proof fn lemma_decimal_text(n: nat)
    ensures
        decimal_text(n).len() >= 1,
        forall|i: int| 0 <= i < decimal_text(n).len() ==> is_decimal_digit(#[trigger] decimal_text(n)[i]),
        decimal_value(decimal_text(n)) == n,
    decreases n,
{
    if n >= 10 {
        lemma_decimal_text(n / 10);
        let p = decimal_text(n / 10);
        let t = decimal_text(n);
        assert(t == p.push((('0' as int) + n % 10) as char));
        assert(t.drop_last() == p);
        assert(t.last() as int == ('0' as int) + n % 10);
        assert forall|i: int| 0 <= i < t.len() implies is_decimal_digit(#[trigger] t[i]) by {
            if i < p.len() {
                assert(t[i] == p[i]);
            }
        }
        assert((n / 10) * 10 + n % 10 == n);
        assert(decimal_value(t) == decimal_value(p) * 10 + ((t.last() as int) - ('0' as int)) as nat);
    } else {
        let t = decimal_text(n);
        assert(t.drop_last() == Seq::<char>::empty());
        assert(t.last() as int == ('0' as int) + n);
        assert(decimal_value(Seq::<char>::empty()) == 0);
        assert(decimal_value(t) == decimal_value(t.drop_last()) * 10 + ((t.last() as int) - ('0' as int)) as nat);
    }
}

proof fn lemma_split_on_sep(s: Seq<char>, sep: char)
    ensures
        split_on(s + seq![sep], sep) == split_on(s, sep).push(Seq::empty()),
{
    assert((s + seq![sep]).drop_last() == s);
}

proof fn lemma_split_on_append(s: Seq<char>, t: Seq<char>, sep: char)
    requires
        forall|i: int| 0 <= i < t.len() ==> #[trigger] t[i] != sep,
    ensures
        split_on(s, sep).len() >= 1,
        split_on(s + t, sep) == split_on(s, sep).update(
            split_on(s, sep).len() - 1,
            split_on(s, sep).last() + t,
        ),
    decreases t.len(),
{
    lemma_split_on_len(s, sep);
    let p = split_on(s, sep);
    if t.len() == 0 {
        assert(s + t == s);
        assert(p.last() + t == p.last());
        assert(p.update(p.len() - 1, p.last()) == p);
    } else {
        let u = t.drop_last();
        lemma_split_on_append(s, u, sep);
        assert((s + t).drop_last() == s + u);
        assert((s + t).last() == t.last());
        assert((p.last() + u).push(t.last()) == p.last() + t);
    }
}

proof fn lemma_split_on_len(s: Seq<char>, sep: char)
    ensures
        split_on(s, sep).len() >= 1,
    decreases s.len(),
{
    if s.len() > 0 {
        lemma_split_on_len(s.drop_last(), sep);
    }
}

/// Appending a separator and then a piece without separators adds that piece
/// as the last group.
proof fn lemma_split_on_group(s: Seq<char>, t: Seq<char>, sep: char)
    requires
        forall|i: int| 0 <= i < t.len() ==> #[trigger] t[i] != sep,
    ensures
        split_on(s + seq![sep] + t, sep) == split_on(s, sep).push(t),
{
    lemma_split_on_sep(s, sep);
    lemma_split_on_append(s + seq![sep], t, sep);
    assert(Seq::<char>::empty() + t == t);
}

/// The dotted-decimal text of an address reads back as that address: it is
/// four groups of decimal digits separated by `.`, and the groups denote the
/// octets in order.
pub proof fn lemma_ipv4_text_reads_back(a: u8, b: u8, c: u8, d: u8)
    ensures
        split_on(ipv4_text(a, b, c, d), '.').len() == 4,
        forall|k: int|
            0 <= k < 4 ==> split_on(ipv4_text(a, b, c, d), '.')[k].len() >= 1 && forall|i: int|
                0 <= i < split_on(ipv4_text(a, b, c, d), '.')[k].len() ==> is_decimal_digit(
                    #[trigger] split_on(ipv4_text(a, b, c, d), '.')[k][i],
                ),
        decimal_value(split_on(ipv4_text(a, b, c, d), '.')[0]) == a,
        decimal_value(split_on(ipv4_text(a, b, c, d), '.')[1]) == b,
        decimal_value(split_on(ipv4_text(a, b, c, d), '.')[2]) == c,
        decimal_value(split_on(ipv4_text(a, b, c, d), '.')[3]) == d,
{
    let ta = decimal_text(a as nat);
    let tb = decimal_text(b as nat);
    let tc = decimal_text(c as nat);
    let td = decimal_text(d as nat);
    lemma_decimal_text(a as nat);
    lemma_decimal_text(b as nat);
    lemma_decimal_text(c as nat);
    lemma_decimal_text(d as nat);
    assert forall|i: int| 0 <= i < ta.len() implies #[trigger] ta[i] != '.' by {
        assert(is_decimal_digit(ta[i]));
    }
    assert forall|i: int| 0 <= i < tb.len() implies #[trigger] tb[i] != '.' by {
        assert(is_decimal_digit(tb[i]));
    }
    assert forall|i: int| 0 <= i < tc.len() implies #[trigger] tc[i] != '.' by {
        assert(is_decimal_digit(tc[i]));
    }
    assert forall|i: int| 0 <= i < td.len() implies #[trigger] td[i] != '.' by {
        assert(is_decimal_digit(td[i]));
    }
    lemma_split_on_append(Seq::empty(), ta, '.');
    assert(Seq::<char>::empty() + ta == ta);
    assert(split_on(Seq::<char>::empty(), '.') == seq![Seq::<char>::empty()]);
    assert(Seq::<char>::empty() + ta == ta);
    let s1 = ta;
    assert(split_on(s1, '.') == seq![ta]);
    lemma_split_on_group(s1, tb, '.');
    let s2 = s1 + seq!['.'] + tb;
    lemma_split_on_group(s2, tc, '.');
    let s3 = s2 + seq!['.'] + tc;
    lemma_split_on_group(s3, td, '.');
    let s4 = s3 + seq!['.'] + td;
    assert(s4 == ipv4_text(a, b, c, d));
    let g = split_on(s4, '.');
    assert(g == seq![ta, tb, tc, td]);
}

/// Completing the redirect query leaves every identity parameter present:
/// after the missing pairs are appended, the query has `userip`, `usermac` and
/// `nasip`. Each parameter is appended, with the given value, exactly when the
/// query lacks it, independently of the others, and one already present is
/// never appended again.
pub proof fn lemma_identity_query_complete(
    pairs: Seq<(Seq<char>, Seq<char>)>,
    user_ip: Seq<char>,
    user_mac: Seq<char>,
    nas_ip: Seq<char>,
)
    ensures
        ({
            let missing = missing_identity_pairs(pairs, user_ip, user_mac, nas_ip);
            &&& has_query_key(pairs + missing, "userip"@)
            &&& has_query_key(pairs + missing, "usermac"@)
            &&& has_query_key(pairs + missing, "nasip"@)
            &&& !has_query_key(pairs, "userip"@) ==> missing.contains(("userip"@, user_ip))
            &&& !has_query_key(pairs, "usermac"@) ==> missing.contains(("usermac"@, user_mac))
            &&& !has_query_key(pairs, "nasip"@) ==> missing.contains(("nasip"@, nas_ip))
            &&& has_query_key(pairs, "userip"@) ==> !has_query_key(missing, "userip"@)
            &&& has_query_key(pairs, "usermac"@) ==> !has_query_key(missing, "usermac"@)
            &&& has_query_key(pairs, "nasip"@) ==> !has_query_key(missing, "nasip"@)
        }),
{
    reveal_strlit("userip");
    reveal_strlit("usermac");
    reveal_strlit("nasip");
    let missing = missing_identity_pairs(pairs, user_ip, user_mac, nas_ip);
    let all = pairs + missing;
    let a = if has_query_key(pairs, "userip"@) {
        Seq::<(Seq<char>, Seq<char>)>::empty()
    } else {
        seq![("userip"@, user_ip)]
    };
    let b = if has_query_key(pairs, "usermac"@) {
        Seq::<(Seq<char>, Seq<char>)>::empty()
    } else {
        seq![("usermac"@, user_mac)]
    };
    let c = if has_query_key(pairs, "nasip"@) {
        Seq::<(Seq<char>, Seq<char>)>::empty()
    } else {
        seq![("nasip"@, nas_ip)]
    };
    assert(missing == a + b + c);
    assert("userip"@.len() == 6);
    assert("usermac"@.len() == 7);
    assert("nasip"@.len() == 5);
    // Each key is present in the pairs, or appended in its own part.
    if has_query_key(pairs, "userip"@) {
        let i = choose|i: int| 0 <= i < pairs.len() && pairs[i].0 == "userip"@;
        assert(all[i] == pairs[i]);
    } else {
        assert(missing[0] == ("userip"@, user_ip));
        assert(all[pairs.len() as int] == missing[0]);
    }
    if has_query_key(pairs, "usermac"@) {
        let i = choose|i: int| 0 <= i < pairs.len() && pairs[i].0 == "usermac"@;
        assert(all[i] == pairs[i]);
    } else {
        assert(missing[a.len() as int] == ("usermac"@, user_mac));
        assert(all[(pairs.len() + a.len()) as int] == missing[a.len() as int]);
    }
    if has_query_key(pairs, "nasip"@) {
        let i = choose|i: int| 0 <= i < pairs.len() && pairs[i].0 == "nasip"@;
        assert(all[i] == pairs[i]);
    } else {
        assert(missing[(a.len() + b.len()) as int] == ("nasip"@, nas_ip));
        assert(all[(pairs.len() + a.len() + b.len()) as int] == missing[(a.len() + b.len()) as int]);
    }
    // The keys that are appended are those that were missing.
    assert forall|i: int| 0 <= i < missing.len() implies (#[trigger] missing[i]).0 == "userip"@
        && !has_query_key(pairs, "userip"@) || missing[i].0 == "usermac"@ && !has_query_key(
        pairs,
        "usermac"@,
    ) || missing[i].0 == "nasip"@ && !has_query_key(pairs, "nasip"@) by {
        if i < a.len() {
            assert(missing[i] == a[i]);
        } else if i < a.len() + b.len() {
            assert(missing[i] == b[i - a.len()]);
        } else {
            assert(missing[i] == c[i - a.len() - b.len()]);
        }
    }
}

} // verus!
