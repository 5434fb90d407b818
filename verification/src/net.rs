//! Plain-value forms of IP addresses and network prefixes, and the trusted
//! text parsers for them.
use vstd::prelude::*;

verus! {

/// An IP address held as its numeric value: 32 bits for IPv4, 128 for IPv6.
#[derive(Clone, Copy, PartialEq, Eq, Structural, Debug, Hash)]
pub enum IpAddress {
    V4(u32),
    V6(u128),
}

/// A network prefix: an address and a mask length.
#[derive(Clone, Copy, PartialEq, Eq, Structural, Debug, Hash)]
pub struct NetPrefix {
    pub addr: IpAddress,
    pub len: u8,
}

/// What `core::net::IpAddr::from_str` returns on a given text; the result
/// depends on the characters alone.
pub uninterp spec fn ip_of(s: Seq<char>) -> Option<IpAddress>;

/// What `ipnet::IpNet::from_str` returns on a given `"address/length"` text;
/// the result depends on the characters alone.
pub uninterp spec fn prefix_of(s: Seq<char>) -> Option<NetPrefix>;

/// Relies on `core::net::IpAddr`'s `FromStr`: it accepts exactly the IPv4
/// dotted-decimal and IPv6 literals, deterministically in the input text.
#[verifier::external_body]
pub(crate) fn parse_ip_text(s: &str) -> (r: Option<IpAddress>)
    ensures
        r == ip_of(s@),
{
    match s.parse::<core::net::IpAddr>() {
        Ok(core::net::IpAddr::V4(a)) => Some(IpAddress::V4(u32::from(a))),
        Ok(core::net::IpAddr::V6(a)) => Some(IpAddress::V6(u128::from(a))),
        Err(_) => None,
    }
}

/// Relies on `ipnet::IpNet`'s `FromStr`: it accepts exactly `"address/length"`
/// texts, deterministically in the input text.
#[verifier::external_body]
pub(crate) fn parse_prefix_text(s: &str) -> (r: Option<NetPrefix>)
    ensures
        r == prefix_of(s@),
{
    match s.parse::<ipnet::IpNet>() {
        Ok(ipnet::IpNet::V4(n)) => Some(
            NetPrefix { addr: IpAddress::V4(u32::from(n.addr())), len: n.prefix_len() },
        ),
        Ok(ipnet::IpNet::V6(n)) => Some(
            NetPrefix { addr: IpAddress::V6(u128::from(n.addr())), len: n.prefix_len() },
        ),
        Err(_) => None,
    }
}

} // verus!
