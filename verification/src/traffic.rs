//! Classification of raw IP packets by their remote endpoint.
//!
//! The packet starts at the IP header. The remote endpoint is the source
//! address on ingress and the destination address on egress. "Local" means
//! private, loopback, link-local, unspecified or IPv4 limited-broadcast space.
use crate::common::{TRAFFIC_TYPE_ALL, TRAFFIC_TYPE_INTERNET, TRAFFIC_TYPE_LOCAL};
use vstd::prelude::*;

verus! {

/// IPv4 local address space: 10/8, 127/8, 169.254/16, 172.16/12, 192.168/16,
/// the unspecified address and the limited broadcast address.
pub open spec fn spec_ipv4_local(ip: Seq<u8>) -> bool {
    ||| ip[0] == 10
    ||| ip[0] == 127
    ||| (ip[0] == 169 && ip[1] == 254)
    ||| (ip[0] == 172 && 16 <= ip[1] <= 31)
    ||| (ip[0] == 192 && ip[1] == 168)
    ||| (ip[0] == 0 && ip[1] == 0 && ip[2] == 0 && ip[3] == 0)
    ||| (ip[0] == 255 && ip[1] == 255 && ip[2] == 255 && ip[3] == 255)
}

/// Every byte of `ip` from position `from` on is `v`.
pub open spec fn spec_bytes_from_are(ip: Seq<u8>, from: int, v: u8) -> bool {
    forall|i: int| from <= i < ip.len() ==> ip[i] == v
}

/// IPv6 local address space: fe80::/10, fc00::/7, `::` and `::1`.
pub open spec fn spec_ipv6_local(ip: Seq<u8>) -> bool {
    ||| (ip[0] == 0xfe && 0x80 <= ip[1] < 0xc0)
    ||| (ip[0] == 0xfc || ip[0] == 0xfd)
    ||| spec_bytes_from_are(ip, 0, 0)
    ||| (spec_bytes_from_are(ip.subrange(0, 15), 0, 0) && ip[15] == 1)
}

/// Whether an IPv4 address lies in local address space.
pub fn is_ipv4_local(ip: &[u8; 4]) -> (r: bool)
    ensures
        r == spec_ipv4_local(ip@),
{
    ip[0] == 10 || ip[0] == 127 || (ip[0] == 169 && ip[1] == 254) || (ip[0] == 172 && ip[1]
        >= 16 && ip[1] <= 31) || (ip[0] == 192 && ip[1] == 168) || (ip[0] == 0 && ip[1] == 0
        && ip[2] == 0 && ip[3] == 0) || (ip[0] == 255 && ip[1] == 255 && ip[2] == 255 && ip[3]
        == 255)
}

/// Whether every byte of `ip` at positions `0..n` is zero.
fn leading_bytes_zero(ip: &[u8; 16], n: usize) -> (r: bool)
    requires
        n <= 16,
    ensures
        r == spec_bytes_from_are(ip@.subrange(0, n as int), 0, 0),
{
    let mut i: usize = 0;
    while i < n
        invariant
            i <= n <= 16,
            spec_bytes_from_are(ip@.subrange(0, i as int), 0, 0),
        decreases n - i,
    {
        if ip[i] != 0 {
            assert(ip@.subrange(0, n as int)[i as int] == ip@[i as int]);
            return false;
        }
        i = i + 1;
    }
    true
}

/// Whether an IPv6 address lies in local address space.
pub fn is_ipv6_local(ip: &[u8; 16]) -> (r: bool)
    ensures
        r == spec_ipv6_local(ip@),
{
    let b0 = ip[0];
    let b1 = ip[1];
    let link_local = b0 == 0xfe && (b1 & 0xc0) == 0x80;
    assert(((b1 & 0xc0) == 0x80) == (0x80 <= b1 && b1 < 0xc0)) by (bit_vector);
    let unique_local = (b0 & 0xfe) == 0xfc;
    assert(((b0 & 0xfe) == 0xfc) == (b0 == 0xfc || b0 == 0xfd)) by (bit_vector);
    let zero_prefix = leading_bytes_zero(ip, 15);
    let unspecified = zero_prefix && ip[15] == 0;
    let loopback = zero_prefix && ip[15] == 1;
    proof {
        assert(ip@.subrange(0, 16) =~= ip@);
        if zero_prefix && ip[15] == 0 {
            assert(spec_bytes_from_are(ip@, 0, 0)) by {
                assert forall|i: int| 0 <= i < ip@.len() implies ip@[i] == 0 by {
                    if i < 15 {
                        assert(ip@.subrange(0, 15)[i] == ip@[i]);
                    }
                }
            }
        }
        if spec_bytes_from_are(ip@, 0, 0) {
            assert(ip@[15] == 0);
            assert(spec_bytes_from_are(ip@.subrange(0, 15), 0, 0));
        }
    }
    link_local || unique_local || unspecified || loopback
}

/// The four bytes of `packet` at `offset..offset + 4`.
pub open spec fn spec_take4(packet: Seq<u8>, offset: int) -> Seq<u8> {
    packet.subrange(offset, offset + 4)
}

/// Whether the remote endpoint of a well-formed IP packet is local; `None`
/// for a packet that is too short or of an unknown version.
pub open spec fn spec_remote_is_local(ingress: bool, packet: Seq<u8>) -> Option<bool> {
    if packet.len() < 1 {
        None
    } else if packet[0] / 16 == 4 {
        if packet[0] % 16 < 5 || packet.len() < 20 {
            None
        } else {
            Some(spec_ipv4_local(spec_take4(packet, if ingress { 12 } else { 16 })))
        }
    } else if packet[0] / 16 == 6 {
        if packet.len() < 40 {
            None
        } else {
            let offset: int = if ingress { 8 } else { 24 };
            Some(spec_ipv6_local(packet.subrange(offset, offset + 16)))
        }
    } else {
        None
    }
}

/// Whether a packet of the given traffic class is throttled. Unknown
/// versions and truncated headers are throttled, as is any unknown class.
pub open spec fn spec_should_throttle(traffic_type: u8, ingress: bool, packet: Seq<u8>) -> bool {
    if traffic_type == TRAFFIC_TYPE_ALL {
        true
    } else {
        match spec_remote_is_local(ingress, packet) {
            None => true,
            Some(local) => if traffic_type == TRAFFIC_TYPE_INTERNET {
                !local
            } else if traffic_type == TRAFFIC_TYPE_LOCAL {
                local
            } else {
                true
            },
        }
    }
}

/// Decide whether an IP packet belongs to the configured traffic class.
///
/// `packet` holds the bytes from the start of the network header. Unknown
/// versions and truncated headers are throttled conservatively.
pub fn should_throttle_ip_packet(traffic_type: u8, ingress: bool, packet: &[u8]) -> (r: bool)
    ensures
        r == spec_should_throttle(traffic_type, ingress, packet@),
{
    if traffic_type == TRAFFIC_TYPE_ALL {
        return true;
    }
    if packet.len() < 1 {
        return true;
    }
    let v = packet[0];
    assert(v >> 4 == v / 16 && v & 0x0f == v % 16) by (bit_vector);
    let is_local = if v >> 4 == 4 {
        if v & 0x0f < 5 {
            return true;
        }
        if packet.len() < 20 {
            return true;
        }
        let offset: usize = if ingress { 12 } else { 16 };
        let addr: [u8; 4] = [packet[offset], packet[offset + 1], packet[offset + 2], packet[offset + 3]];
        assert(addr@ =~= spec_take4(packet@, offset as int));
        is_ipv4_local(&addr)
    } else if v >> 4 == 6 {
        if packet.len() < 40 {
            return true;
        }
        let offset: usize = if ingress { 8 } else { 24 };
        let mut address = [0u8; 16];
        let mut i: usize = 0;
        while i < 16
            invariant
                i <= 16,
                offset == 8 || offset == 24,
                offset + 16 <= packet@.len(),
                forall|j: int| 0 <= j < i ==> address@[j] == packet@[offset + j],
            decreases 16 - i,
        {
            address[i] = packet[offset + i];
            i = i + 1;
        }
        assert(address@ =~= packet@.subrange(offset as int, offset + 16));
        is_ipv6_local(&address)
    } else {
        return true;
    };
    if traffic_type == TRAFFIC_TYPE_INTERNET {
        !is_local
    } else if traffic_type == TRAFFIC_TYPE_LOCAL {
        is_local
    } else {
        true
    }
}

/// For a well-formed packet, exactly one of the local and internet classes
/// is throttled, and which one depends on the remote endpoint alone; a
/// malformed packet is throttled under every class.
pub proof fn lemma_local_and_internet_partition(ingress: bool, packet: Seq<u8>)
    ensures
        spec_remote_is_local(ingress, packet) is Some ==> spec_should_throttle(
            TRAFFIC_TYPE_LOCAL,
            ingress,
            packet,
        ) != spec_should_throttle(TRAFFIC_TYPE_INTERNET, ingress, packet),
        spec_remote_is_local(ingress, packet) matches Some(local) ==> spec_should_throttle(
            TRAFFIC_TYPE_LOCAL,
            ingress,
            packet,
        ) == local,
        spec_remote_is_local(ingress, packet) is None ==> forall|t: u8|
            spec_should_throttle(t, ingress, packet),
{
}

} // verus!
