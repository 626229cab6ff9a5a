//! Session-list normalization, MAC normalization and automatic logout choice.
//!
//! The portal session-list API returns partially optional fields and MAC
//! addresses in the API's own formatting. This module turns those records into
//! valid [`Session`] values while keeping the original MAC text that the logout
//! endpoint needs, and decides which device to log out at the device limit.

use vstd::prelude::*;

use crate::error::PortalError;
use crate::text::{
    ascii_lower, char_ascii_lower, char_is_hex_digit, chars_of, hex_digit_value, hex_value,
    is_hex_digit, is_whitespace, lower_hex_char, lower_hex_digit, owned, string_from_chars,
    strings_contain, trim, trim_chars, trim_end, trim_start, views,
};

verus! {

/// Maps a `-` separator to `:` and lowercases ASCII letters.
pub open spec fn mac_char(c: char) -> char {
    if c == '-' {
        ':'
    } else {
        ascii_lower(c)
    }
}

/// The text that MAC parsing splits: trimmed, `-` turned into `:`, lowercased.
pub open spec fn mac_chars(s: Seq<char>) -> Seq<char> {
    trim(s).map_values(|c: char| mac_char(c))
}

/// The groups of `s` between `:` characters (always at least one group).
pub open spec fn split_colon(s: Seq<char>) -> Seq<Seq<char>>
    decreases s.len(),
{
    if s.len() == 0 {
        seq![Seq::empty()]
    } else {
        let prev = split_colon(s.drop_last());
        if s.last() == ':' {
            prev.push(Seq::empty())
        } else {
            prev.update(prev.len() - 1, prev.last().push(s.last()))
        }
    }
}

/// The colon-separated groups of a MAC text after normalization of
/// separators and case.
pub open spec fn mac_groups(s: Seq<char>) -> Seq<Seq<char>> {
    split_colon(mac_chars(s))
}

/// One or two hexadecimal digits.
pub open spec fn valid_octet(g: Seq<char>) -> bool {
    1 <= g.len() <= 2 && forall|i: int| 0 <= i < g.len() ==> is_hex_digit(#[trigger] g[i])
}

/// The value of a valid octet group.
pub open spec fn octet_value(g: Seq<char>) -> u8 {
    if g.len() == 1 {
        hex_digit_value(g[0]) as u8
    } else {
        (16 * hex_digit_value(g[0]) + hex_digit_value(g[1])) as u8
    }
}

/// The six octets of a MAC text, or `None` when it is not six groups of one or
/// two hexadecimal digits separated by `:` or `-`.
pub open spec fn mac_octets(s: Seq<char>) -> Option<Seq<u8>> {
    let gs = mac_groups(s);
    if gs.len() == 6 && forall|i: int| 0 <= i < 6 ==> valid_octet(#[trigger] gs[i]) {
        Some(gs.map_values(|g: Seq<char>| octet_value(g)))
    } else {
        None
    }
}

/// Two lowercase hexadecimal digits of an octet.
pub open spec fn octet_text(v: u8) -> Seq<char> {
    seq![lower_hex_digit(v as int / 16), lower_hex_digit(v as int % 16)]
}

/// Octets written as two-digit lowercase hex, joined by `:`.
pub open spec fn mac_text(vs: Seq<u8>) -> Seq<char>
    decreases vs.len(),
{
    if vs.len() == 0 {
        Seq::empty()
    } else if vs.len() == 1 {
        octet_text(vs[0])
    } else {
        mac_text(vs.drop_last()) + seq![':'] + octet_text(vs.last())
    }
}

/// The normalized form `aa:bb:cc:dd:ee:ff` of a MAC text, if it is valid.
pub open spec fn normalized_mac(s: Seq<char>) -> Option<Seq<char>> {
    match mac_octets(s) {
        Some(vs) => Some(mac_text(vs)),
        None => None,
    }
}

proof fn lemma_split_colon_nonempty(s: Seq<char>)
    ensures
        split_colon(s).len() >= 1,
    decreases s.len(),
{
    if s.len() > 0 {
        lemma_split_colon_nonempty(s.drop_last());
    }
}

/// Splits the normalized MAC characters of `s` into `:`-separated groups.
fn mac_group_vecs(s: &str) -> (r: Vec<Vec<char>>)
    ensures
        r@.len() == mac_groups(s@).len(),
        forall|i: int| 0 <= i < r@.len() ==> (#[trigger] r@[i])@ == mac_groups(s@)[i],
{
    let all = chars_of(s);
    let t = trim_chars(all.as_slice());
    let ghost m = mac_chars(s@);
    assert(m.len() == t@.len());
    let mut done: Vec<Vec<char>> = Vec::new();
    let mut cur: Vec<char> = Vec::new();
    let mut i: usize = 0;
    while i < t.len()
        invariant
            i <= t@.len(),
            m == t@.map_values(|c: char| mac_char(c)),
            split_colon(m.take(i as int)).len() == done@.len() + 1,
            forall|k: int|
                0 <= k < done@.len() ==> (#[trigger] done@[k])@ == split_colon(m.take(i as int))[k],
            cur@ == split_colon(m.take(i as int)).last(),
        decreases t@.len() - i,
    {
        let c = t[i];
        let mc = if c == '-' {
            ':'
        } else {
            char_ascii_lower(c)
        };
        proof {
            assert(m.take(i + 1).drop_last() == m.take(i as int));
            assert(m.take(i + 1).last() == mc);
            lemma_split_colon_nonempty(m.take(i as int));
        }
        if mc == ':' {
            done.push(cur);
            cur = Vec::new();
        } else {
            cur.push(mc);
        }
        i = i + 1;
    }
    assert(m.take(t@.len() as int) == m);
    done.push(cur);
    done
}

/// Two lowercase hexadecimal digits of an octet.
fn push_octet_text(out: &mut Vec<char>, v: u8)
    ensures
        final(out)@ == old(out)@ + octet_text(v),
{
    out.push(lower_hex_char(v / 16));
    out.push(lower_hex_char(v % 16));
}

/// Normalizes a MAC address to lowercase colon-separated form.
///
/// Accepts one- or two-digit hex octets separated by `:` or `-` (after
/// trimming surrounding whitespace, in any letter case) and returns a six-octet
/// `aa:bb:cc:dd:ee:ff` string. Any other input is rejected with
/// [`PortalError::InvalidMac`] carrying the input text.
pub fn normalize_mac(mac: &str) -> (r: Result<String, PortalError>)
    ensures
        match r {
            Ok(m) => normalized_mac(mac@) == Some(m@),
            Err(e) => normalized_mac(mac@) is None && (e matches PortalError::InvalidMac(t)
                && t@ == mac@),
        },
{
    let groups = mac_group_vecs(mac);
    let ghost gs = mac_groups(mac@);
    if groups.len() != 6 {
        return Err(PortalError::InvalidMac(owned(mac)));
    }
    let mut values: Vec<u8> = Vec::new();
    let mut k: usize = 0;
    while k < 6
        invariant
            k <= 6,
            groups@.len() == 6,
            gs == mac_groups(mac@),
            gs.len() == 6,
            forall|i: int| 0 <= i < 6 ==> (#[trigger] groups@[i])@ == gs[i],
            forall|i: int| 0 <= i < k ==> valid_octet(#[trigger] gs[i]),
            values@.len() == k,
            forall|i: int| 0 <= i < k ==> values@[i] == octet_value(#[trigger] gs[i]),
        decreases 6 - k,
    {
        let g = &groups[k];
        if g.len() == 0 || g.len() > 2 {
            assert(!valid_octet(gs[k as int]));
            return Err(PortalError::InvalidMac(owned(mac)));
        }
        if !char_is_hex_digit(g[0]) {
            assert(!valid_octet(gs[k as int]));
            return Err(PortalError::InvalidMac(owned(mac)));
        }
        let v = if g.len() == 1 {
            hex_value(g[0])
        } else {
            if !char_is_hex_digit(g[1]) {
                assert(!valid_octet(gs[k as int]));
                return Err(PortalError::InvalidMac(owned(mac)));
            }
            16 * hex_value(g[0]) + hex_value(g[1])
        };
        assert(valid_octet(gs[k as int]));
        values.push(v);
        k = k + 1;
    }
    let ghost octets = gs.map_values(|g: Seq<char>| octet_value(g));
    assert(values@ == octets);
    assert(mac_octets(mac@) == Some(octets));
    let mut out: Vec<char> = Vec::new();
    let mut j: usize = 0;
    while j < 6
        invariant
            j <= 6,
            values@ == octets,
            octets.len() == 6,
            out@ == mac_text(octets.take(j as int)),
        decreases 6 - j,
    {
        if j > 0 {
            out.push(':');
        }
        push_octet_text(&mut out, values[j]);
        j = j + 1;
        assert(octets.take(j as int).drop_last() == octets.take(j - 1));
    }
    assert(octets.take(6) == octets);
    Ok(string_from_chars(out.as_slice()))
}

} // verus!

verus! {

/// The normalized forms of the valid MAC texts in `macs`, in order; invalid
/// texts are skipped.
pub open spec fn normalized_macs(macs: Seq<Seq<char>>) -> Seq<Seq<char>>
    decreases macs.len(),
{
    if macs.len() == 0 {
        Seq::empty()
    } else {
        let prev = normalized_macs(macs.drop_last());
        match normalized_mac(macs.last()) {
            Some(m) => prev.push(m),
            None => prev,
        }
    }
}

/// The first element of `s` that `known` does not contain.
pub open spec fn first_not_in(s: Seq<Seq<char>>, known: Seq<Seq<char>>) -> Option<Seq<char>>
    decreases s.len(),
{
    if s.len() == 0 {
        None
    } else if !known.contains(s[0]) {
        Some(s[0])
    } else {
        first_not_in(s.drop_first(), known)
    }
}

/// The first element of `s` that `set` contains.
pub open spec fn first_in(s: Seq<Seq<char>>, set: Seq<Seq<char>>) -> Option<Seq<char>>
    decreases s.len(),
{
    if s.len() == 0 {
        None
    } else if set.contains(s[0]) {
        Some(s[0])
    } else {
        first_in(s.drop_first(), set)
    }
}

/// The MAC chosen for automatic logout among the sessions' MAC texts, given
/// the configured known MAC texts.
///
/// 1. The first valid session MAC that is not known.
/// 2. Otherwise the first known MAC, in configuration order, that is a session MAC.
/// 3. Otherwise the first valid session MAC, if any.
pub open spec fn logout_choice(session_macs: Seq<Seq<char>>, known_macs: Seq<Seq<char>>) -> Option<
    Seq<char>,
> {
    let sessions = normalized_macs(session_macs);
    let known = normalized_macs(known_macs);
    match first_not_in(sessions, known) {
        Some(m) => Some(m),
        None => match first_in(known, sessions) {
            Some(m) => Some(m),
            None => if sessions.len() > 0 {
                Some(sessions[0])
            } else {
                None
            },
        },
    }
}

/// The texts of a slice of string slices.
pub open spec fn str_views(v: Seq<&str>) -> Seq<Seq<char>> {
    v.map_values(|s: &str| s@)
}

/// Normalizes every valid MAC text of `macs`, skipping invalid ones.
fn normalize_strs(macs: &[&str]) -> (r: Vec<String>)
    ensures
        views(r@) == normalized_macs(str_views(macs@)),
{
    let mut out: Vec<String> = Vec::new();
    let mut i: usize = 0;
    while i < macs.len()
        invariant
            i <= macs@.len(),
            views(out@) == normalized_macs(str_views(macs@).take(i as int)),
        decreases macs@.len() - i,
    {
        let ghost before = out@;
        match normalize_mac(macs[i]) {
            Ok(m) => {
                out.push(m);
            },
            Err(_) => {},
        }
        i = i + 1;
        proof {
            let t = str_views(macs@).take(i as int);
            assert(t.drop_last() == str_views(macs@).take(i - 1));
            assert(t.last() == macs@[i - 1]@);
            assert(views(before.push(out@.last())) == views(before).push(out@.last()@));
        }
    }
    assert(str_views(macs@).take(macs@.len() as int) == str_views(macs@));
    out
}

/// Normalizes every valid MAC text of `macs`, skipping invalid ones.
fn normalize_strings(macs: &[String]) -> (r: Vec<String>)
    ensures
        views(r@) == normalized_macs(views(macs@)),
{
    let mut out: Vec<String> = Vec::new();
    let mut i: usize = 0;
    while i < macs.len()
        invariant
            i <= macs@.len(),
            views(out@) == normalized_macs(views(macs@).take(i as int)),
        decreases macs@.len() - i,
    {
        let ghost before = out@;
        match normalize_mac(macs[i].as_str()) {
            Ok(m) => {
                out.push(m);
            },
            Err(_) => {},
        }
        i = i + 1;
        proof {
            let t = views(macs@).take(i as int);
            assert(t.drop_last() == views(macs@).take(i - 1));
            assert(t.last() == macs@[i - 1]@);
            assert(views(before.push(out@.last())) == views(before).push(out@.last()@));
        }
    }
    assert(views(macs@).take(macs@.len() as int) == views(macs@));
    out
}

proof fn lemma_first_not_in_skip(s: Seq<Seq<char>>, known: Seq<Seq<char>>, i: int)
    requires
        0 <= i <= s.len(),
        forall|k: int| 0 <= k < i ==> known.contains(#[trigger] s[k]),
    ensures
        first_not_in(s, known) == first_not_in(s.subrange(i, s.len() as int), known),
    decreases i,
{
    if i > 0 {
        lemma_first_not_in_skip(s, known, i - 1);
        let t = s.subrange(i - 1, s.len() as int);
        assert(t[0] == s[i - 1]);
        assert(t.drop_first() == s.subrange(i, s.len() as int));
    } else {
        assert(s.subrange(0, s.len() as int) == s);
    }
}

proof fn lemma_first_in_skip(s: Seq<Seq<char>>, set: Seq<Seq<char>>, i: int)
    requires
        0 <= i <= s.len(),
        forall|k: int| 0 <= k < i ==> !set.contains(#[trigger] s[k]),
    ensures
        first_in(s, set) == first_in(s.subrange(i, s.len() as int), set),
    decreases i,
{
    if i > 0 {
        lemma_first_in_skip(s, set, i - 1);
        let t = s.subrange(i - 1, s.len() as int);
        assert(t[0] == s[i - 1]);
        assert(t.drop_first() == s.subrange(i, s.len() as int));
    } else {
        assert(s.subrange(0, s.len() as int) == s);
    }
}

/// Chooses which MAC address to log out when an account is over the device limit.
///
/// The strategy is:
///
/// 1. Prefer the first active session not listed in `known_macs`.
/// 2. If every active session is known, choose by `known_macs` order.
/// 3. If no configured known MAC matches, fall back to the first valid session.
///
/// Invalid MAC strings are ignored; the result is in normalized form.
pub fn choose_logout_mac(session_macs: &[&str], known_macs: &[String]) -> (r: Option<String>)
    ensures
        match r {
            Some(m) => logout_choice(str_views(session_macs@), views(known_macs@)) == Some(m@),
            None => logout_choice(str_views(session_macs@), views(known_macs@)) is None,
        },
{
    let sessions = normalize_strs(session_macs);
    let known = normalize_strings(known_macs);
    let ghost sv = views(sessions@);
    let ghost kv = views(known@);
    let mut i: usize = 0;
    while i < sessions.len()
        invariant
            i <= sessions@.len(),
            sv == views(sessions@),
            kv == views(known@),
            sv == normalized_macs(str_views(session_macs@)),
            kv == normalized_macs(views(known_macs@)),
            forall|k: int| 0 <= k < i ==> kv.contains(#[trigger] sv[k]),
        decreases sessions@.len() - i,
    {
        if !strings_contain(&known, &sessions[i]) {
            proof {
                lemma_first_not_in_skip(sv, kv, i as int);
                assert(sv.subrange(i as int, sv.len() as int)[0] == sv[i as int]);
            }
            return Some(sessions[i].clone());
        }
        i = i + 1;
    }
    proof {
        lemma_first_not_in_skip(sv, kv, sv.len() as int);
        assert(first_not_in(sv.subrange(sv.len() as int, sv.len() as int), kv) is None);
    }
    let mut j: usize = 0;
    while j < known.len()
        invariant
            j <= known@.len(),
            sv == views(sessions@),
            kv == views(known@),
            sv == normalized_macs(str_views(session_macs@)),
            kv == normalized_macs(views(known_macs@)),
            first_not_in(sv, kv) is None,
            forall|k: int| 0 <= k < j ==> !sv.contains(#[trigger] kv[k]),
        decreases known@.len() - j,
    {
        if strings_contain(&sessions, &known[j]) {
            proof {
                lemma_first_in_skip(kv, sv, j as int);
                assert(kv.subrange(j as int, kv.len() as int)[0] == kv[j as int]);
            }
            return Some(known[j].clone());
        }
        j = j + 1;
    }
    proof {
        lemma_first_in_skip(kv, sv, kv.len() as int);
    }
    if sessions.len() > 0 {
        Some(sessions[0].clone())
    } else {
        None
    }
}

} // verus!

verus! {

/// Declares `serde_json::Value`, an arbitrary JSON value.
#[verifier::external_type_specification]
#[verifier::external_body]
pub struct ExJsonValue(serde_json::Value);

/// A validated portal session ready for display or logout.
#[derive(Debug, Clone, PartialEq, Eq)]
pub struct Session {
    /// Normalized MAC address used for local comparison.
    pub mac: String,
    /// API-provided MAC string preserved for logout payloads.
    pub api_mac: String,
    /// Portal-reported device type.
    pub device_type: String,
    /// Portal-reported user IP.
    pub user_ip: String,
    /// Portal-reported accounting start time.
    pub start_time: String,
    /// Portal accounting unique ID required by the logout API.
    pub unique_id: String,
}

/// The texts of a [`Session`].
pub struct SessionView {
    pub mac: Seq<char>,
    pub api_mac: Seq<char>,
    pub device_type: Seq<char>,
    pub user_ip: Seq<char>,
    pub start_time: Seq<char>,
    pub unique_id: Seq<char>,
}

impl View for Session {
    type V = SessionView;

    open spec fn view(&self) -> SessionView {
        SessionView {
            mac: self.mac@,
            api_mac: self.api_mac@,
            device_type: self.device_type@,
            user_ip: self.user_ip@,
            start_time: self.start_time@,
            unique_id: self.unique_id@,
        }
    }
}

/// The texts of a sequence of sessions.
pub open spec fn session_views(s: Seq<Session>) -> Seq<SessionView> {
    s.map_values(|x: Session| x@)
}

/// Raw response returned by the encrypted v3 session-list endpoint.
pub struct SessionListResponse {
    /// Portal concurrency metadata. It is not needed by the library.
    pub concurrency: serde_json::Value,
    /// Raw session records.
    pub sessions: Vec<PortalSession>,
}

/// Raw session record returned by the portal.
#[derive(Debug, Clone)]
pub struct PortalSession {
    /// Raw `deviceType` field.
    pub device_type: Option<String>,
    /// Raw `framed_ip_address` field.
    pub framed_ip_address: Option<String>,
    /// Raw `calling_station_id` MAC field.
    pub calling_station_id: Option<String>,
    /// Raw session start time field.
    pub acct_start_time: Option<String>,
    /// Raw accounting unique ID field.
    pub acct_unique_id: Option<String>,
}

/// The text of an optional field, empty when absent.
pub open spec fn text_or_empty(o: Option<String>) -> Seq<char> {
    match o {
        Some(s) => s@,
        None => Seq::empty(),
    }
}

/// The text of an optional field when it is present and not empty.
pub open spec fn nonempty_text(o: Option<String>) -> Option<Seq<char>> {
    match o {
        Some(s) => if s@.len() > 0 {
            Some(s@)
        } else {
            None
        },
        None => None,
    }
}

/// Scans session records in order and returns the normalized MACs of the
/// sessions kept so far together with those sessions.
///
/// A record is discarded when its MAC is missing, empty or invalid, or when it
/// lacks a unique ID or a user IP; a valid record is kept unless a kept
/// session already has its normalized MAC. Invalid records therefore never
/// hide a later valid record of the same device.
pub open spec fn session_scan(records: Seq<PortalSession>) -> (Seq<Seq<char>>, Seq<SessionView>)
    decreases records.len(),
{
    if records.len() == 0 {
        (Seq::empty(), Seq::empty())
    } else {
        let prev = session_scan(records.drop_last());
        let seen = prev.0;
        let out = prev.1;
        let r = records.last();
        match nonempty_text(r.calling_station_id) {
            None => prev,
            Some(api_mac) => match normalized_mac(api_mac) {
                None => prev,
                Some(mac) => if seen.contains(mac) {
                    prev
                } else {
                    let seen2 = seen.push(mac);
                    match nonempty_text(r.acct_unique_id) {
                        None => prev,
                        Some(uid) => {
                            let ip = text_or_empty(r.framed_ip_address);
                            if ip.len() == 0 {
                                prev
                            } else {
                                (
                                    seen2,
                                    out.push(
                                        SessionView {
                                            mac,
                                            api_mac,
                                            device_type: text_or_empty(r.device_type),
                                            user_ip: ip,
                                            start_time: text_or_empty(r.acct_start_time),
                                            unique_id: uid,
                                        },
                                    ),
                                )
                            }
                        },
                    }
                },
            },
        }
    }
}

/// The valid, deduplicated sessions of a list of raw records.
pub open spec fn valid_sessions(records: Seq<PortalSession>) -> Seq<SessionView> {
    session_scan(records).1
}

/// The text of an optional field, empty when absent.
fn field_text(o: &Option<String>) -> (r: String)
    ensures
        r@ == text_or_empty(*o),
{
    match o {
        Some(s) => s.clone(),
        None => String::new(),
    }
}

impl SessionListResponse {
    /// Converts the raw response into valid, deduplicated sessions.
    ///
    /// Records without MAC, unique ID, or user IP are discarded because they
    /// cannot be shown or safely logged out; of several valid records with the
    /// same normalized MAC only the first is kept.
    pub fn into_sessions(self) -> (r: Vec<Session>)
        ensures
            session_views(r@) == valid_sessions(self.sessions@),
    {
        let records = &self.sessions;
        let mut seen: Vec<String> = Vec::new();
        let mut out: Vec<Session> = Vec::new();
        let mut i: usize = 0;
        while i < records.len()
            invariant
                i <= records@.len(),
                views(seen@) == session_scan(records@.take(i as int)).0,
                session_views(out@) == session_scan(records@.take(i as int)).1,
            decreases records@.len() - i,
        {
            let r = &records[i];
            let ghost pre = records@.take(i as int);
            let ghost seen0 = seen@;
            let ghost out0 = out@;
            proof {
                assert(records@.take(i + 1).drop_last() == pre);
                assert(records@.take(i + 1).last() == *r);
            }
            i = i + 1;
            let api_mac = match &r.calling_station_id {
                Some(s) => {
                    if s.as_str().is_empty() {
                        continue;
                    }
                    s.clone()
                },
                None => {
                    continue;
                },
            };
            let mac = match normalize_mac(api_mac.as_str()) {
                Ok(m) => m,
                Err(_) => {
                    continue;
                },
            };
            if strings_contain(&seen, &mac) {
                continue;
            }
            let unique_id = match &r.acct_unique_id {
                Some(s) => {
                    if s.as_str().is_empty() {
                        continue;
                    }
                    s.clone()
                },
                None => {
                    continue;
                },
            };
            let user_ip = field_text(&r.framed_ip_address);
            if user_ip.as_str().is_empty() {
                continue;
            }
            seen.push(mac.clone());
            proof {
                assert(views(seen@) == views(seen0).push(mac@));
            }
            let session = Session {
                mac,
                api_mac,
                device_type: field_text(&r.device_type),
                user_ip,
                start_time: field_text(&r.acct_start_time),
                unique_id,
            };
            out.push(session);
            proof {
                assert(session_views(out@) == session_views(out0).push(session@));
            }
        }
        assert(records@.take(records@.len() as int) == records@);
        out
    }
}

} // verus!

verus! {

/// A character that can occur in a normalized MAC text.
pub open spec fn is_mac_text_char(c: char) -> bool {
    c == ':' || ('0' <= c && c <= '9') || ('a' <= c && c <= 'f')
}

proof fn lemma_lower_hex_digit(d: int)
    requires
        0 <= d < 16,
    ensures
        is_hex_digit(lower_hex_digit(d)),
        hex_digit_value(lower_hex_digit(d)) == d,
        ('0' <= lower_hex_digit(d) && lower_hex_digit(d) <= '9') || ('a' <= lower_hex_digit(d)
            && lower_hex_digit(d) <= 'f'),
{
}

proof fn lemma_octet_text(v: u8)
    ensures
        valid_octet(octet_text(v)),
        octet_value(octet_text(v)) == v,
        forall|i: int| 0 <= i < 2 ==> #[trigger] octet_text(v)[i] != ':' && is_mac_text_char(
            octet_text(v)[i],
        ),
{
    lemma_lower_hex_digit(v as int / 16);
    lemma_lower_hex_digit(v as int % 16);
    let t = octet_text(v);
    assert(t.len() == 2);
    assert(16 * (v as int / 16) + v as int % 16 == v as int);
}

proof fn lemma_split_colon_append(s: Seq<char>, t: Seq<char>)
    requires
        forall|i: int| 0 <= i < t.len() ==> #[trigger] t[i] != ':',
    ensures
        split_colon(s).len() >= 1,
        split_colon(s + t) == split_colon(s).update(
            split_colon(s).len() - 1,
            split_colon(s).last() + t,
        ),
    decreases t.len(),
{
    lemma_split_colon_nonempty(s);
    let p = split_colon(s);
    if t.len() == 0 {
        assert(s + t == s);
        assert(p.last() + t == p.last());
        assert(p.update(p.len() - 1, p.last()) == p);
    } else {
        let u = t.drop_last();
        lemma_split_colon_append(s, u);
        assert((s + t).drop_last() == s + u);
        assert((s + t).last() == t.last());
        assert((p.last() + u).push(t.last()) == p.last() + t);
    }
}

pub(crate) proof fn lemma_mac_text_shape(vs: Seq<u8>)
    requires
        vs.len() >= 1,
    ensures
        split_colon(mac_text(vs)) == vs.map_values(|v: u8| octet_text(v)),
        mac_text(vs).len() >= 2,
        is_mac_text_char(mac_text(vs)[0]) && mac_text(vs)[0] != ':',
        is_mac_text_char(mac_text(vs).last()) && mac_text(vs).last() != ':',
        forall|i: int| 0 <= i < mac_text(vs).len() ==> is_mac_text_char(#[trigger] mac_text(vs)[i]),
    decreases vs.len(),
{
    lemma_octet_text(vs.last());
    let last = octet_text(vs.last());
    if vs.len() == 1 {
        lemma_split_colon_append(Seq::empty(), last);
        assert(Seq::<char>::empty() + last == last);
        assert(split_colon(Seq::<char>::empty()) == seq![Seq::<char>::empty()]);
        assert(Seq::<char>::empty() + last == last);
        assert(vs.map_values(|v: u8| octet_text(v)) == seq![last]);
    } else {
        let a = mac_text(vs.drop_last());
        lemma_mac_text_shape(vs.drop_last());
        let b = a + seq![':'];
        assert(b.drop_last() == a);
        lemma_split_colon_append(b, last);
        assert(b + last == mac_text(vs));
        assert(split_colon(b) == split_colon(a).push(Seq::<char>::empty()));
        assert(Seq::<char>::empty() + last == last);
        assert(vs.map_values(|v: u8| octet_text(v)) == vs.drop_last().map_values(
            |v: u8| octet_text(v),
        ).push(last));
        let m = mac_text(vs);
        assert forall|i: int| 0 <= i < m.len() implies is_mac_text_char(#[trigger] m[i]) by {
            if i < a.len() {
                assert(m[i] == a[i]);
            } else if i == a.len() {
                assert(m[i] == ':');
            } else {
                assert(m[i] == last[i - a.len() - 1]);
            }
        }
        assert(m[0] == a[0]);
        assert(m.last() == last[1]);
    }
}

pub(crate) proof fn lemma_trim_mac_text(m: Seq<char>)
    requires
        m.len() >= 1,
        m[0] != ':' && is_mac_text_char(m[0]),
        m.last() != ':' && is_mac_text_char(m.last()),
    ensures
        trim(m) == m,
{
    assert(!is_whitespace(m[0]));
    assert(trim_start(m) == m);
    assert(!is_whitespace(m.last()));
    assert(trim_end(m) == m);
}

/// Six octets written as `aa:bb:cc:dd:ee:ff` form a valid MAC address that
/// normalizes to itself.
pub proof fn lemma_mac_text_is_normalized(vs: Seq<u8>)
    requires
        vs.len() == 6,
    ensures
        normalized_mac(mac_text(vs)) == Some(mac_text(vs)),
{
    let m = mac_text(vs);
    lemma_mac_text_shape(vs);
    lemma_trim_mac_text(m);
    assert forall|i: int| 0 <= i < m.len() implies #[trigger] mac_char(m[i]) == m[i] by {
        assert(is_mac_text_char(m[i]));
    }
    assert(mac_chars(m) == m);
    let gs = mac_groups(m);
    assert(gs == vs.map_values(|v: u8| octet_text(v)));
    assert forall|i: int| 0 <= i < 6 implies valid_octet(#[trigger] gs[i]) by {
        lemma_octet_text(vs[i]);
    }
    let values = gs.map_values(|g: Seq<char>| octet_value(g));
    assert forall|i: int| 0 <= i < 6 implies #[trigger] values[i] == vs[i] by {
        lemma_octet_text(vs[i]);
    }
    assert(values == vs);
}

/// Normalization is idempotent: the normalized form of a MAC address is
/// itself valid and normalizes to the same text.
pub proof fn lemma_normalized_mac_idempotent(mac: Seq<char>)
    requires
        normalized_mac(mac) is Some,
    ensures
        normalized_mac(normalized_mac(mac)->0) == normalized_mac(mac),
{
    lemma_mac_text_is_normalized(mac_octets(mac)->0);
}

proof fn lemma_first_not_in(s: Seq<Seq<char>>, known: Seq<Seq<char>>)
    ensures
        match first_not_in(s, known) {
            Some(m) => exists|j: int|
                0 <= j < s.len() && s[j] == m && !known.contains(m) && forall|l: int|
                    0 <= l < j ==> known.contains(#[trigger] s[l]),
            None => forall|j: int| 0 <= j < s.len() ==> known.contains(#[trigger] s[j]),
        },
    decreases s.len(),
{
    if s.len() > 0 && known.contains(s[0]) {
        let t = s.drop_first();
        lemma_first_not_in(t, known);
        match first_not_in(t, known) {
            Some(m) => {
                let j = choose|j: int|
                    0 <= j < t.len() && t[j] == m && !known.contains(m) && forall|l: int|
                        0 <= l < j ==> known.contains(#[trigger] t[l]);
                assert(s[j + 1] == m);
                assert forall|l: int| 0 <= l < j + 1 implies known.contains(#[trigger] s[l]) by {
                    if l > 0 {
                        assert(s[l] == t[l - 1]);
                    }
                }
            },
            None => {
                assert forall|j: int| 0 <= j < s.len() implies known.contains(#[trigger] s[j]) by {
                    if j > 0 {
                        assert(s[j] == t[j - 1]);
                    }
                }
            },
        }
    }
}

proof fn lemma_first_in(s: Seq<Seq<char>>, set: Seq<Seq<char>>)
    ensures
        match first_in(s, set) {
            Some(m) => exists|j: int|
                0 <= j < s.len() && s[j] == m && set.contains(m) && forall|l: int|
                    0 <= l < j ==> !set.contains(#[trigger] s[l]),
            None => forall|j: int| 0 <= j < s.len() ==> !set.contains(#[trigger] s[j]),
        },
    decreases s.len(),
{
    if s.len() > 0 && !set.contains(s[0]) {
        let t = s.drop_first();
        lemma_first_in(t, set);
        match first_in(t, set) {
            Some(m) => {
                let j = choose|j: int|
                    0 <= j < t.len() && t[j] == m && set.contains(m) && forall|l: int|
                        0 <= l < j ==> !set.contains(#[trigger] t[l]);
                assert(s[j + 1] == m);
                assert forall|l: int| 0 <= l < j + 1 implies !set.contains(#[trigger] s[l]) by {
                    if l > 0 {
                        assert(s[l] == t[l - 1]);
                    }
                }
            },
            None => {
                assert forall|j: int| 0 <= j < s.len() implies !set.contains(#[trigger] s[j]) by {
                    if j > 0 {
                        assert(s[j] == t[j - 1]);
                    }
                }
            },
        }
    }
}

/// The MAC chosen for logout is always one of the sessions' own MACs in
/// normalized form, and a MAC is chosen exactly when some session MAC is valid.
pub proof fn lemma_logout_choice_is_session_mac(
    session_macs: Seq<Seq<char>>,
    known_macs: Seq<Seq<char>>,
)
    ensures
        logout_choice(session_macs, known_macs) is None <==> normalized_macs(session_macs).len()
            == 0,
        logout_choice(session_macs, known_macs) matches Some(m) ==> normalized_macs(
            session_macs,
        ).contains(m),
{
    let sessions = normalized_macs(session_macs);
    let known = normalized_macs(known_macs);
    lemma_first_not_in(sessions, known);
    lemma_first_in(known, sessions);
    if first_not_in(sessions, known) is None && sessions.len() > 0 {
        assert(known.contains(sessions[0]));
        let k = choose|k: int| 0 <= k < known.len() && known[k] == sessions[0];
        assert(sessions.contains(known[k]));
    }
}

/// A session whose MAC is not a configured known MAC is always logged out
/// before any known device: the choice is the first such session.
pub proof fn lemma_logout_prefers_unknown(
    session_macs: Seq<Seq<char>>,
    known_macs: Seq<Seq<char>>,
    i: int,
)
    requires
        0 <= i < normalized_macs(session_macs).len(),
        !normalized_macs(known_macs).contains(normalized_macs(session_macs)[i]),
    ensures
        logout_choice(session_macs, known_macs) matches Some(m) && !normalized_macs(
            known_macs,
        ).contains(m) && exists|j: int|
            0 <= j <= i && normalized_macs(session_macs)[j] == m && forall|l: int|
                0 <= l < j ==> normalized_macs(known_macs).contains(
                    #[trigger] normalized_macs(session_macs)[l],
                ),
{
    let sessions = normalized_macs(session_macs);
    let known = normalized_macs(known_macs);
    lemma_first_not_in(sessions, known);
    let m = first_not_in(sessions, known)->0;
    let j = choose|j: int|
        0 <= j < sessions.len() && sessions[j] == m && !known.contains(m) && forall|l: int|
            0 <= l < j ==> known.contains(#[trigger] sessions[l]);
    if j > i {
        assert(known.contains(sessions[i]));
    }
}

/// When every session belongs to a known device, the choice follows the
/// configured order of the known MACs: it is the first known MAC that has a
/// session.
pub proof fn lemma_logout_follows_known_order(
    session_macs: Seq<Seq<char>>,
    known_macs: Seq<Seq<char>>,
)
    requires
        normalized_macs(session_macs).len() > 0,
        forall|i: int|
            0 <= i < normalized_macs(session_macs).len() ==> normalized_macs(known_macs).contains(
                #[trigger] normalized_macs(session_macs)[i],
            ),
    ensures
        logout_choice(session_macs, known_macs) matches Some(m) && exists|k: int|
            0 <= k < normalized_macs(known_macs).len() && normalized_macs(known_macs)[k] == m
                && normalized_macs(session_macs).contains(m) && forall|l: int|
                0 <= l < k ==> !normalized_macs(session_macs).contains(
                    #[trigger] normalized_macs(known_macs)[l],
                ),
{
    let sessions = normalized_macs(session_macs);
    let known = normalized_macs(known_macs);
    lemma_first_not_in(sessions, known);
    lemma_first_in(known, sessions);
    assert(known.contains(sessions[0]));
    let k = choose|k: int| 0 <= k < known.len() && known[k] == sessions[0];
    assert(sessions.contains(known[k]));
    if first_not_in(sessions, known) is Some {
        let m = first_not_in(sessions, known)->0;
        let j = choose|j: int|
            0 <= j < sessions.len() && sessions[j] == m && !known.contains(m) && forall|l: int|
                0 <= l < j ==> known.contains(#[trigger] sessions[l]);
        assert(known.contains(sessions[j]));
    }
}

} // verus!

verus! {

proof fn lemma_session_scan(records: Seq<PortalSession>)
    ensures
        ({
            let (seen, out) = session_scan(records);
            &&& forall|i: int| 0 <= i < out.len() ==> seen.contains(#[trigger] out[i].mac)
            &&& forall|i: int, j: int|
                0 <= i < j < out.len() ==> (#[trigger] out[i]).mac != (#[trigger] out[j]).mac
            &&& forall|i: int|
                0 <= i < out.len() ==> normalized_mac((#[trigger] out[i]).api_mac) == Some(
                    out[i].mac,
                ) && out[i].api_mac.len() > 0 && out[i].unique_id.len() > 0
                    && out[i].user_ip.len() > 0
        }),
    decreases records.len(),
{
    if records.len() > 0 {
        lemma_session_scan(records.drop_last());
        let (seen, out) = session_scan(records.drop_last());
        let (seen2, out2) = session_scan(records);
        if out2.len() > out.len() {
            let mac = out2.last().mac;
            assert(!seen.contains(mac));
            assert(seen2 == seen.push(mac));
            assert(out2 == out.push(out2.last()));
            assert forall|i: int| 0 <= i < out2.len() implies seen2.contains(#[trigger] out2[i].mac) by {
                if i < out.len() {
                    assert(out2[i] == out[i]);
                    assert(seen.contains(out[i].mac));
                    let k = choose|k: int| 0 <= k < seen.len() && seen[k] == out[i].mac;
                    assert(seen2[k] == seen[k]);
                } else {
                    assert(seen2[seen.len() as int] == mac);
                }
            }
            assert forall|i: int, j: int| 0 <= i < j < out2.len() implies (#[trigger] out2[i]).mac
                != (#[trigger] out2[j]).mac by {
                assert(out2[i] == out[i]);
                if j < out.len() {
                    assert(out2[j] == out[j]);
                } else {
                    assert(seen.contains(out[i].mac));
                }
            }
        } else {
            assert(out2 == out);
            assert forall|i: int| 0 <= i < out2.len() implies seen2.contains(#[trigger] out2[i].mac) by {
                assert(seen.contains(out[i].mac));
                if seen2 != seen {
                    assert(seen2 == seen.push(seen2.last()));
                    assert(seen2[seen.len() as int] == seen2.last());
                    let k = choose|k: int| 0 <= k < seen.len() && seen[k] == out[i].mac;
                    assert(seen2[k] == seen[k]);
                }
            }
        }
    }
}

/// The sessions kept from a session list never share a normalized MAC, and
/// each one has a MAC text, a unique ID and a user IP, with `mac` the
/// normalized form of the portal's `api_mac`.
pub proof fn lemma_valid_sessions_are_distinct_and_complete(records: Seq<PortalSession>)
    ensures
        forall|i: int, j: int|
            0 <= i < j < valid_sessions(records).len() ==> (#[trigger] valid_sessions(
                records,
            )[i]).mac != (#[trigger] valid_sessions(records)[j]).mac,
        forall|i: int|
            0 <= i < valid_sessions(records).len() ==> normalized_mac(
                (#[trigger] valid_sessions(records)[i]).api_mac,
            ) == Some(valid_sessions(records)[i].mac) && valid_sessions(records)[i].unique_id.len()
                > 0 && valid_sessions(records)[i].user_ip.len() > 0,
{
    lemma_session_scan(records);
}

} // verus!
