//! IP addresses and their classification as internet or local traffic.
//!
//! An IPv4 address is held as its 32-bit big-endian value (`a.b.c.d` is
//! `a << 24 | b << 16 | c << 8 | d`), an IPv6 address as its 128-bit value.
use crate::traffic::{is_ipv4_local, spec_ipv4_local};
use vstd::prelude::*;

verus! {

/// An IPv4 or IPv6 address.
#[derive(Clone, Copy, Debug, PartialEq, Eq, Hash, Structural)]
pub enum IpAddress {
    V4(u32),
    V6(u128),
}

/// Traffic category: internet (public addresses) or local network.
#[derive(Clone, Copy, Debug, PartialEq, Eq, Hash, Structural)]
pub enum TrafficCategory {
    /// Internet/WAN traffic (public addresses).
    Internet,
    /// Local/LAN traffic (private, loopback, link-local and similar).
    Local,
}

/// The four octets of an IPv4 address, most significant first.
pub open spec fn spec_octets(x: u32) -> Seq<u8> {
    seq![(x >> 24) as u8, ((x >> 16) & 0xff) as u8, ((x >> 8) & 0xff) as u8, (x & 0xff) as u8]
}

/// The first 16-bit segment of an IPv6 address.
pub open spec fn spec_first_segment(x: u128) -> u16 {
    (x >> 112) as u16
}

/// The 128-bit value of an IPv6 address given by its eight segments.
pub open spec fn spec_from_segments(s: Seq<u16>) -> u128 {
    ((s[0] as u128) << 112) | ((s[1] as u128) << 96) | ((s[2] as u128) << 80) | ((s[3] as u128)
        << 64) | ((s[4] as u128) << 48) | ((s[5] as u128) << 32) | ((s[6] as u128) << 16) | (
    s[7] as u128)
}

/// Local IPv4: private, loopback, link-local, unspecified or the limited
/// broadcast address.
pub open spec fn spec_is_local_ipv4(x: u32) -> bool {
    spec_ipv4_local(spec_octets(x))
}

/// Local IPv6: `::1`, fe80::/10, `::` or fc00::/7.
pub open spec fn spec_is_local_ipv6(x: u128) -> bool {
    ||| x == 1
    ||| 0xfe80 <= spec_first_segment(x) <= 0xfebf
    ||| x == 0
    ||| 0xfc00 <= spec_first_segment(x) <= 0xfdff
}

/// Whether an address is local traffic.
pub open spec fn spec_is_local_traffic(ip: IpAddress) -> bool {
    match ip {
        IpAddress::V4(x) => spec_is_local_ipv4(x),
        IpAddress::V6(x) => spec_is_local_ipv6(x),
    }
}

/// The category of traffic with the given remote address.
pub open spec fn spec_categorize(ip: IpAddress) -> TrafficCategory {
    if spec_is_local_traffic(ip) {
        TrafficCategory::Local
    } else {
        TrafficCategory::Internet
    }
}

impl IpAddress {
    /// Whether this is `0.0.0.0` or `::`.
    pub open spec fn spec_is_unspecified(self) -> bool {
        match self {
            IpAddress::V4(x) => x == 0,
            IpAddress::V6(x) => x == 0,
        }
    }

    /// The IPv4 address `a.b.c.d`.
    pub fn v4(a: u8, b: u8, c: u8, d: u8) -> (r: IpAddress)
        ensures
            r matches IpAddress::V4(x) && spec_octets(x) == seq![a, b, c, d],
    {
        let x: u32 = ((a as u32) << 24) | ((b as u32) << 16) | ((c as u32) << 8) | (d as u32);
        assert((x >> 24) as u8 == a && ((x >> 16) & 0xff) as u8 == b && ((x >> 8) & 0xff) as u8
            == c && (x & 0xff) as u8 == d) by (bit_vector)
            requires
                x == ((a as u32) << 24) | ((b as u32) << 16) | ((c as u32) << 8) | (d as u32),
        ;
        assert(spec_octets(x) =~= seq![a, b, c, d]);
        IpAddress::V4(x)
    }

    /// The IPv6 address with the given eight 16-bit segments.
    pub fn v6(segments: [u16; 8]) -> (r: IpAddress)
        ensures
            r == IpAddress::V6(spec_from_segments(segments@)),
    {
        let s = segments;
        let x: u128 = ((s[0] as u128) << 112) | ((s[1] as u128) << 96) | ((s[2] as u128) << 80)
            | ((s[3] as u128) << 64) | ((s[4] as u128) << 48) | ((s[5] as u128) << 32) | ((
        s[6] as u128) << 16) | (s[7] as u128);
        IpAddress::V6(x)
    }

    /// Whether this is `0.0.0.0` or `::`.
    pub fn is_unspecified(&self) -> (r: bool)
        ensures
            r == self.spec_is_unspecified(),
    {
        match self {
            IpAddress::V4(x) => *x == 0,
            IpAddress::V6(x) => *x == 0,
        }
    }
}

fn is_local_ipv4(x: u32) -> (r: bool)
    ensures
        r == spec_is_local_ipv4(x),
{
    let a = (x >> 24) as u8;
    let b = ((x >> 16) & 0xff) as u8;
    let c = ((x >> 8) & 0xff) as u8;
    let d = (x & 0xff) as u8;
    let octets = [a, b, c, d];
    assert(octets@ =~= spec_octets(x));
    is_ipv4_local(&octets)
}

fn is_unique_local_ipv6(x: u128) -> (r: bool)
    ensures
        r == (0xfc00 <= spec_first_segment(x) <= 0xfdff),
{
    let seg0 = (x >> 112) as u16;
    assert(((seg0 & 0xfe00) == 0xfc00) == (0xfc00 <= seg0 && seg0 <= 0xfdff)) by (bit_vector);
    (seg0 & 0xfe00) == 0xfc00
}

fn is_local_ipv6(x: u128) -> (r: bool)
    ensures
        r == spec_is_local_ipv6(x),
{
    let seg0 = (x >> 112) as u16;
    assert(((seg0 & 0xffc0) == 0xfe80) == (0xfe80 <= seg0 && seg0 <= 0xfebf)) by (bit_vector);
    x == 1 || (seg0 & 0xffc0) == 0xfe80 || x == 0 || is_unique_local_ipv6(x)
}

/// Whether an address is local or private network traffic.
pub fn is_local_traffic(ip: &IpAddress) -> (r: bool)
    ensures
        r == spec_is_local_traffic(*ip),
{
    match ip {
        IpAddress::V4(x) => is_local_ipv4(*x),
        IpAddress::V6(x) => is_local_ipv6(*x),
    }
}

/// Categorize traffic by its remote address.
pub fn categorize_traffic(remote_ip: &IpAddress) -> (r: TrafficCategory)
    ensures
        r == spec_categorize(*remote_ip),
{
    if is_local_traffic(remote_ip) {
        TrafficCategory::Local
    } else {
        TrafficCategory::Internet
    }
}

} // verus!
