//! Local network-interface facts: IP addresses of the machine's interfaces and
//! the MAC address texts that the operating system reports.
//!
//! Enumerating the interfaces is the operating system's business; this module
//! asks for the list and selects from it.

use vstd::prelude::*;

use crate::error::PortalError;
use crate::text::{owned, text_eq};

verus! {

/// An IP address as plain octets or segments.
#[derive(Debug, Clone, Copy, PartialEq, Eq, Structural)]
pub enum IpAddr {
    /// An IPv4 address.
    V4(u8, u8, u8, u8),
    /// An IPv6 address as eight 16-bit segments.
    V6(u16, u16, u16, u16, u16, u16, u16, u16),
}

/// One address of a local network interface.
#[derive(Debug, Clone)]
pub struct InterfaceAddress {
    /// The interface name, such as `eth0`.
    pub name: String,
    /// One address assigned to the interface.
    pub addr: IpAddr,
}

/// Whether an IPv4 address can identify the machine to the portal: it is not
/// loopback (`127.0.0.0/8`), link-local (`169.254.0.0/16`) or unspecified.
pub open spec fn is_usable_ipv4(ip: IpAddr) -> bool {
    match ip {
        IpAddr::V4(a, b, c, d) => a != 127 && !(a == 169 && b == 254) && !(a == 0 && b == 0 && c
            == 0 && d == 0),
        IpAddr::V6(..) => false,
    }
}

/// Returns whether an IPv4 address is suitable for portal identity and binding.
pub fn usable_ipv4(ip: IpAddr) -> (r: bool)
    ensures
        r == is_usable_ipv4(ip),
{
    match ip {
        IpAddr::V4(a, b, c, d) => a != 127 && !(a == 169 && b == 254) && !(a == 0 && b == 0 && c
            == 0 && d == 0),
        IpAddr::V6(..) => false,
    }
}

/// The first usable IPv4 address listed for the interface `name`.
pub open spec fn first_usable_ipv4(name: Seq<char>, list: Seq<InterfaceAddress>) -> Option<IpAddr>
    decreases list.len(),
{
    if list.len() == 0 {
        None
    } else if list[0].name@ == name && is_usable_ipv4(list[0].addr) {
        Some(list[0].addr)
    } else {
        first_usable_ipv4(name, list.drop_first())
    }
}

/// The name of the first listed interface that holds address `ip`.
pub open spec fn interface_named_for(ip: IpAddr, list: Seq<InterfaceAddress>) -> Option<Seq<char>>
    decreases list.len(),
{
    if list.len() == 0 {
        None
    } else if list[0].addr == ip {
        Some(list[0].name@)
    } else {
        interface_named_for(ip, list.drop_first())
    }
}

/// Lists the addresses of the machine's network interfaces.
///
/// Calls `get_if_addrs::get_if_addrs`. What it returns depends on the machine.
#[verifier::external_body]
fn list_interfaces() -> (r: Result<Vec<InterfaceAddress>, std::io::Error>) {
    match get_if_addrs::get_if_addrs() {
        Ok(list) => Ok(list.into_iter().map(|i| InterfaceAddress {
            addr: match i.addr {
                get_if_addrs::IfAddr::V4(v4) => IpAddr::from_octets(v4.ip.octets()),
                get_if_addrs::IfAddr::V6(v6) => IpAddr::from_segments(v6.ip.segments()),
            },
            name: i.name,
        }).collect()),
        Err(e) => Err(e),
    }
}

impl IpAddr {
    /// An IPv4 address from its four octets.
    pub fn from_octets(o: [u8; 4]) -> (r: IpAddr)
        ensures
            r == IpAddr::V4(o@[0], o@[1], o@[2], o@[3]),
    {
        IpAddr::V4(o[0], o[1], o[2], o[3])
    }

    /// An IPv6 address from its eight segments.
    pub fn from_segments(s: [u16; 8]) -> (r: IpAddr)
        ensures
            r == IpAddr::V6(s@[0], s@[1], s@[2], s@[3], s@[4], s@[5], s@[6], s@[7]),
    {
        IpAddr::V6(s[0], s[1], s[2], s[3], s[4], s[5], s[6], s[7])
    }
}

proof fn lemma_first_usable_skip(name: Seq<char>, list: Seq<InterfaceAddress>, i: int)
    requires
        0 <= i <= list.len(),
        forall|k: int|
            0 <= k < i ==> !((#[trigger] list[k]).name@ == name && is_usable_ipv4(list[k].addr)),
    ensures
        first_usable_ipv4(name, list) == first_usable_ipv4(name, list.subrange(i, list.len() as int)),
    decreases i,
{
    if i > 0 {
        lemma_first_usable_skip(name, list, i - 1);
        let t = list.subrange(i - 1, list.len() as int);
        assert(t[0] == list[i - 1]);
        assert(t.drop_first() == list.subrange(i, list.len() as int));
    } else {
        assert(list.subrange(0, list.len() as int) == list);
    }
}

proof fn lemma_named_for_skip(ip: IpAddr, list: Seq<InterfaceAddress>, i: int)
    requires
        0 <= i <= list.len(),
        forall|k: int| 0 <= k < i ==> (#[trigger] list[k]).addr != ip,
    ensures
        interface_named_for(ip, list) == interface_named_for(ip, list.subrange(i, list.len() as int)),
    decreases i,
{
    if i > 0 {
        lemma_named_for_skip(ip, list, i - 1);
        let t = list.subrange(i - 1, list.len() as int);
        assert(t[0] == list[i - 1]);
        assert(t.drop_first() == list.subrange(i, list.len() as int));
    } else {
        assert(list.subrange(0, list.len() as int) == list);
    }
}

proof fn lemma_first_usable_is_usable(name: Seq<char>, list: Seq<InterfaceAddress>)
    ensures
        first_usable_ipv4(name, list) matches Some(ip) ==> is_usable_ipv4(ip),
    decreases list.len(),
{
    if list.len() > 0 {
        lemma_first_usable_is_usable(name, list.drop_first());
    }
}

/// Returns the first usable IPv4 address that `list` gives for interface `name`.
pub fn select_interface_ipv4(name: &str, list: &Vec<InterfaceAddress>) -> (r: Option<IpAddr>)
    ensures
        r == first_usable_ipv4(name@, list@),
{
    let mut i: usize = 0;
    while i < list.len()
        invariant
            i <= list@.len(),
            forall|k: int|
                0 <= k < i ==> !((#[trigger] list@[k]).name@ == name@ && is_usable_ipv4(
                    list@[k].addr,
                )),
        decreases list@.len() - i,
    {
        let entry = &list[i];
        if text_eq(entry.name.as_str(), name) && usable_ipv4(entry.addr) {
            proof {
                lemma_first_usable_skip(name@, list@, i as int);
                assert(list@.subrange(i as int, list@.len() as int)[0] == list@[i as int]);
            }
            return Some(entry.addr);
        }
        i = i + 1;
    }
    proof {
        lemma_first_usable_skip(name@, list@, list@.len() as int);
    }
    None
}

/// Returns the name of the first listed interface that holds address `ip`.
pub fn select_interface_for_ip(ip: IpAddr, list: &Vec<InterfaceAddress>) -> (r: Option<String>)
    ensures
        match r {
            Some(n) => interface_named_for(ip, list@) == Some(n@),
            None => interface_named_for(ip, list@) is None,
        },
{
    let mut i: usize = 0;
    while i < list.len()
        invariant
            i <= list@.len(),
            forall|k: int| 0 <= k < i ==> (#[trigger] list@[k]).addr != ip,
        decreases list@.len() - i,
    {
        if list[i].addr == ip {
            proof {
                lemma_named_for_skip(ip, list@, i as int);
                assert(list@.subrange(i as int, list@.len() as int)[0] == list@[i as int]);
            }
            return Some(list[i].name.clone());
        }
        i = i + 1;
    }
    proof {
        lemma_named_for_skip(ip, list@, list@.len() as int);
    }
    None
}

/// Returns the first usable IPv4 address assigned to an interface name.
///
/// Loopback, link-local, and unspecified addresses are ignored because the
/// portal needs a routable LAN address. Fails with
/// [`PortalError::InterfaceInspect`] when the interfaces cannot be listed, and
/// with [`PortalError::InterfaceAddressMissing`] when the interface has no
/// usable IPv4 address.
pub fn interface_ipv4(name: &str) -> (r: Result<IpAddr, PortalError>)
    ensures
        match r {
            Ok(ip) => is_usable_ipv4(ip),
            Err(e) => e is InterfaceInspect || (e matches PortalError::InterfaceAddressMissing {
                name: n,
            } && n@ == name@),
        },
{
    let list = match list_interfaces() {
        Ok(l) => l,
        Err(e) => {
            return Err(PortalError::InterfaceInspect(e));
        },
    };
    proof {
        lemma_first_usable_is_usable(name@, list@);
    }
    match select_interface_ipv4(name, &list) {
        Some(ip) => Ok(ip),
        None => Err(PortalError::InterfaceAddressMissing { name: owned(name) }),
    }
}

/// Finds the name of the local interface that holds address `ip`: the first
/// interface that the operating system lists with that address.
///
/// Fails with [`PortalError::InterfaceInspect`] when the interfaces cannot be
/// listed; which interfaces exist depends on the machine.
pub fn interface_name_for_ip(ip: IpAddr) -> (r: Result<Option<String>, PortalError>)
    ensures
        r matches Err(e) ==> e is InterfaceInspect,
{
    let list = match list_interfaces() {
        Ok(l) => l,
        Err(e) => {
            return Err(PortalError::InterfaceInspect(e));
        },
    };
    Ok(select_interface_for_ip(ip, &list))
}

} // verus!

verus! {

/// The MAC text of an `ether` line as `ifconfig` prints it: the first token
/// after `ether ` on the trimmed line.
pub open spec fn ether_mac(line: Seq<char>) -> Option<Seq<char>> {
    let t = crate::text::trim(line);
    if crate::text::has_prefix(t, "ether "@) {
        let token = crate::text::first_token(t.subrange(6, t.len() as int));
        if token.len() > 0 {
            Some(token)
        } else {
            None
        }
    } else {
        None
    }
}

/// The MAC of the first `ether` line of a list of lines.
pub open spec fn first_ether_mac(lines: Seq<Seq<char>>) -> Option<Seq<char>>
    decreases lines.len(),
{
    if lines.len() == 0 {
        None
    } else {
        match ether_mac(lines[0]) {
            Some(m) => Some(m),
            None => first_ether_mac(lines.drop_first()),
        }
    }
}

/// The MAC text that the output of `ifconfig <name>` reports.
pub open spec fn ifconfig_mac(output: Seq<char>) -> Option<Seq<char>> {
    first_ether_mac(crate::text::split_on(output, '\n'))
}

/// Reads the MAC address from the output of `ifconfig <name>`: the first token
/// after `ether ` on the first line that starts with it (after trimming).
pub fn mac_from_ifconfig_output(output: &str) -> (r: Option<String>)
    ensures
        match r {
            Some(m) => ifconfig_mac(output@) == Some(m@),
            None => ifconfig_mac(output@) is None,
        },
{
    let cs = crate::text::chars_of(output);
    let lines = crate::text::split_chars(cs.as_slice(), '\n');
    let ghost ls = crate::text::split_on(output@, '\n');
    let mut i: usize = 0;
    assert(ls.subrange(0, ls.len() as int) == ls);
    while i < lines.len()
        invariant
            i <= lines@.len(),
            lines@.len() == ls.len(),
            ls == crate::text::split_on(output@, '\n'),
            forall|k: int| 0 <= k < lines@.len() ==> (#[trigger] lines@[k])@ == ls[k],
            first_ether_mac(ls) == first_ether_mac(ls.subrange(i as int, ls.len() as int)),
        decreases lines@.len() - i,
    {
        proof {
            let rest = ls.subrange(i as int, ls.len() as int);
            assert(rest[0] == ls[i as int]);
            assert(rest.drop_first() == ls.subrange(i + 1, ls.len() as int));
        }
        let t = crate::text::trim_chars(lines[i].as_slice());
        proof {
            reveal_strlit("ether ");
        }
        if crate::text::starts_with(t.as_slice(), "ether ") {
            let tail = crate::text::chars_from(t.as_slice(), 6);
            let token = crate::text::first_token_of(tail.as_slice());
            if token.len() > 0 {
                return Some(crate::text::string_from_chars(token.as_slice()));
            }
        }
        i = i + 1;
    }
    None
}

/// Reads the MAC address from the contents of `/sys/class/net/<name>/address`:
/// the trimmed text, if it is not empty.
pub fn mac_from_sysfs(contents: &str) -> (r: Option<String>)
    ensures
        match r {
            Some(m) => crate::text::trim(contents@).len() > 0 && m@ == crate::text::trim(contents@),
            None => crate::text::trim(contents@).len() == 0,
        },
{
    let cs = crate::text::chars_of(contents);
    let t = crate::text::trim_chars(cs.as_slice());
    if t.len() == 0 {
        None
    } else {
        Some(crate::text::string_from_chars(t.as_slice()))
    }
}

} // verus!
