//! Reading a captured Ethernet frame down to the addresses and ports of its
//! TCP or UDP segment, with the field layout and length rules of the
//! packet views that the capture library gives: a view needs its fixed
//! header, and a payload ends at the length its header announces or at the
//! end of the data, whichever comes first.
use vstd::prelude::*;

use crate::monitor::{PacketInfo, Protocol};
use crate::traffic_classifier::IpAddress;

verus! {

/// Why a frame was not read.
#[derive(Clone, Copy, Debug, PartialEq, Eq, Structural)]
pub enum FrameError {
    /// Shorter than an Ethernet header.
    NotEthernet,
}

/// `256` to the power `n`.
pub open spec fn spec_pow256(n: nat) -> nat
    decreases n,
{
    if n == 0 {
        1
    } else {
        256 * spec_pow256((n - 1) as nat)
    }
}

/// The `n` bytes of `s` from `i` on, most significant first.
pub open spec fn spec_be(s: Seq<u8>, i: int, n: nat) -> nat
    decreases n,
{
    if n == 0 {
        0
    } else {
        spec_be(s, i, (n - 1) as nat) * 256 + s[i + n - 1] as nat
    }
}

proof fn lemma_be_bound(s: Seq<u8>, i: int, n: nat)
    ensures
        spec_be(s, i, n) < spec_pow256(n),
    decreases n,
{
    if n > 0 {
        lemma_be_bound(s, i, (n - 1) as nat);
        let v = spec_be(s, i, (n - 1) as nat);
        let p = spec_pow256((n - 1) as nat);
        let b = s[i + n - 1] as nat;
        assert(v * 256 + b < 256 * p) by (nonlinear_arith)
            requires
                v < p,
                b < 256,
        ;
    }
}

proof fn lemma_pow256_grows(n: nat, m: nat)
    requires
        n <= m,
    ensures
        spec_pow256(n) <= spec_pow256(m),
    decreases m - n,
{
    if n < m {
        lemma_pow256_grows(n, (m - 1) as nat);
    }
}

/// Reads `n` bytes from `i` on, most significant first.
pub(crate) fn read_be(p: &[u8], i: usize, n: usize) -> (r: u128)
    requires
        i + n <= p@.len(),
        n <= 16,
    ensures
        r == spec_be(p@, i as int, n as nat),
        r < spec_pow256(n as nat),
{
    proof {
        reveal_with_fuel(spec_pow256, 17);
        assert(spec_pow256(16) == 0x1_0000_0000_0000_0000_0000_0000_0000_0000nat);
    }
    let len = p.len();
    let mut v: u128 = 0;
    let mut k: usize = 0;
    while k < n
        invariant
            len == p@.len(),
            k <= n <= 16,
            i + n <= p@.len(),
            v == spec_be(p@, i as int, k as nat),
            spec_pow256(16) == 0x1_0000_0000_0000_0000_0000_0000_0000_0000nat,
        decreases n - k,
    {
        proof {
            lemma_be_bound(p@, i as int, (k + 1) as nat);
            lemma_pow256_grows((k + 1) as nat, 16);
            lemma_be_bound(p@, i as int, k as nat);
            lemma_pow256_grows(k as nat, 15);
            assert(spec_pow256(15) * 256 == spec_pow256(16));
        }
        v = v * 256 + p[i + k] as u128;
        k = k + 1;
    }
    proof {
        lemma_be_bound(p@, i as int, n as nat);
    }
    v
}

/// The transport ports of a payload of `paylen` bytes at `off`: TCP (6)
/// needs its 20-byte header, UDP (17) its 8 bytes; other protocols give
/// nothing.
pub open spec fn spec_transport(
    p: Seq<u8>,
    off: int,
    paylen: int,
    protocol: u8,
    src: IpAddress,
    dst: IpAddress,
) -> Option<PacketInfo> {
    if protocol == 6 && paylen >= 20 {
        Some(
            PacketInfo {
                src_addr: src,
                src_port: spec_be(p, off, 2) as u16,
                dst_addr: dst,
                dst_port: spec_be(p, off + 2, 2) as u16,
                protocol: Protocol::Tcp,
                len: p.len() as u64,
            },
        )
    } else if protocol == 17 && paylen >= 8 {
        Some(
            PacketInfo {
                src_addr: src,
                src_port: spec_be(p, off, 2) as u16,
                dst_addr: dst,
                dst_port: spec_be(p, off + 2, 2) as u16,
                protocol: Protocol::Udp,
                len: p.len() as u64,
            },
        )
    } else {
        None
    }
}

/// Bytes of the payload that starts `start` bytes into a view of `n`
/// bytes and announces `announced` bytes.
pub open spec fn spec_payload_len(n: int, start: int, announced: int) -> int {
    if n <= start {
        0
    } else if start + announced < n {
        announced
    } else {
        n - start
    }
}

/// An IPv4 packet at `o`: a 20-byte header; the payload after the options
/// the header length announces, as long as the total length says.
pub open spec fn spec_ipv4(p: Seq<u8>, o: int) -> Option<PacketInfo> {
    let n = p.len() - o;
    if n < 20 {
        None
    } else {
        let hl = (p[o] % 16) as int * 4;
        let start = 20 + if hl > 20 { hl - 20 } else { 0 };
        let total = spec_be(p, o + 2, 2) as int;
        let announced = if total > hl { total - hl } else { 0 };
        spec_transport(
            p,
            o + start,
            spec_payload_len(n, start, announced),
            p[o + 9],
            IpAddress::V4(spec_be(p, o + 12, 4) as u32),
            IpAddress::V4(spec_be(p, o + 16, 4) as u32),
        )
    }
}

/// An IPv6 packet at `o`: a 40-byte header; the payload as long as its
/// payload length says.
pub open spec fn spec_ipv6(p: Seq<u8>, o: int) -> Option<PacketInfo> {
    let n = p.len() - o;
    if n < 40 {
        None
    } else {
        spec_transport(
            p,
            o + 40,
            spec_payload_len(n, 40, spec_be(p, o + 4, 2) as int),
            p[o + 6],
            IpAddress::V6(spec_be(p, o + 8, 16) as u128),
            IpAddress::V6(spec_be(p, o + 24, 16) as u128),
        )
    }
}

/// A frame: a 14-byte Ethernet header whose type (bytes 12 and 13) selects
/// IPv4 (0x0800) or IPv6 (0x86DD); any other type gives nothing.
pub open spec fn spec_frame(p: Seq<u8>) -> Result<Option<PacketInfo>, FrameError> {
    if p.len() < 14 {
        Err(FrameError::NotEthernet)
    } else {
        let t = spec_be(p, 12, 2);
        if t == 0x0800 {
            Ok(spec_ipv4(p, 14))
        } else if t == 0x86DD {
            Ok(spec_ipv6(p, 14))
        } else {
            Ok(None)
        }
    }
}

fn payload_len(n: usize, start: usize, announced: usize) -> (r: usize)
    requires
        start + announced <= usize::MAX,
    ensures
        r == spec_payload_len(n as int, start as int, announced as int),
{
    if n <= start {
        0
    } else if start + announced < n {
        announced
    } else {
        n - start
    }
}

fn transport(p: &[u8], off: usize, paylen: usize, protocol: u8, src: IpAddress, dst: IpAddress) -> (r:
    Option<PacketInfo>)
    requires
        off + paylen <= p@.len(),
        p@.len() <= u64::MAX,
        paylen >= 8,
    ensures
        r == spec_transport(p@, off as int, paylen as int, protocol, src, dst),
{
    proof {
        reveal_with_fuel(spec_pow256, 5);
    }
    let _len = p.len();
    if protocol == 6 && paylen >= 20 {
        Some(
            PacketInfo {
                src_addr: src,
                src_port: read_be(p, off, 2) as u16,
                dst_addr: dst,
                dst_port: read_be(p, off + 2, 2) as u16,
                protocol: Protocol::Tcp,
                len: p.len() as u64,
            },
        )
    } else if protocol == 17 && paylen >= 8 {
        Some(
            PacketInfo {
                src_addr: src,
                src_port: read_be(p, off, 2) as u16,
                dst_addr: dst,
                dst_port: read_be(p, off + 2, 2) as u16,
                protocol: Protocol::Udp,
                len: p.len() as u64,
            },
        )
    } else {
        None
    }
}

/// The flow of an IPv4 packet at `o`.
pub fn process_ipv4_packet(p: &[u8], o: usize) -> (r: Option<PacketInfo>)
    requires
        o <= p@.len(),
        p@.len() <= u64::MAX,
    ensures
        r == spec_ipv4(p@, o as int),
{
    proof {
        reveal_with_fuel(spec_pow256, 5);
    }
    let n = p.len() - o;
    if n < 20 {
        return None;
    }
    let hl: usize = (p[o] % 16) as usize * 4;
    let start: usize = 20 + if hl > 20 {
        hl - 20
    } else {
        0
    };
    let total = read_be(p, o + 2, 2) as usize;
    let announced: usize = if total > hl {
        total - hl
    } else {
        0
    };
    let paylen = payload_len(n, start, announced);
    if paylen < 8 {
        return None;
    }
    let src = IpAddress::V4(read_be(p, o + 12, 4) as u32);
    let dst = IpAddress::V4(read_be(p, o + 16, 4) as u32);
    transport(p, o + start, paylen, p[o + 9], src, dst)
}

/// The flow of an IPv6 packet at `o`.
pub fn process_ipv6_packet(p: &[u8], o: usize) -> (r: Option<PacketInfo>)
    requires
        o <= p@.len(),
        p@.len() <= u64::MAX,
    ensures
        r == spec_ipv6(p@, o as int),
{
    proof {
        reveal_with_fuel(spec_pow256, 5);
    }
    let n = p.len() - o;
    if n < 40 {
        return None;
    }
    let announced = read_be(p, o + 4, 2) as usize;
    let paylen = payload_len(n, 40, announced);
    if paylen < 8 {
        return None;
    }
    let src = IpAddress::V6(read_be(p, o + 8, 16));
    let dst = IpAddress::V6(read_be(p, o + 24, 16));
    transport(p, o + 40, paylen, p[o + 6], src, dst)
}

/// The flow of a captured frame, its length being the whole frame's; an
/// error when the frame is shorter than an Ethernet header.
pub fn process_packet(p: &[u8]) -> (r: Result<Option<PacketInfo>, FrameError>)
    requires
        p@.len() <= u64::MAX,
    ensures
        r == spec_frame(p@),
{
    proof {
        reveal_with_fuel(spec_pow256, 5);
    }
    if p.len() < 14 {
        return Err(FrameError::NotEthernet);
    }
    let t = read_be(p, 12, 2);
    if t == 0x0800 {
        Ok(process_ipv4_packet(p, 14))
    } else if t == 0x86DD {
        Ok(process_ipv6_packet(p, 14))
    } else {
        Ok(None)
    }
}

/// A 16-bit big-endian word of `p` at `i`.
proof fn lemma_be_word(p: Seq<u8>, i: int)
    ensures
        spec_be(p, i, 2) == (p[i] as nat) * 256 + (p[i + 1] as nat),
        spec_be(p, i, 2) < 65536,
{
    reveal_with_fuel(spec_be, 3);
}

/// An IPv6 packet whose next header is UDP (17) or TCP (6) and whose
/// payload holds that protocol's header is a flow of that protocol: its
/// addresses are the header's source and destination, its ports the first
/// two big-endian 16-bit words of the payload, its length the whole
/// capture's.
pub proof fn lemma_ipv6_transport_is_a_flow(p: Seq<u8>, o: int)
    requires
        0 <= o,
        o + 40 <= p.len(),
        p[o + 6] == 17 || p[o + 6] == 6,
        ({
            let need: int = if p[o + 6] == 17 { 8 } else { 20 };
            &&& (p[o + 4] as int) * 256 + (p[o + 5] as int) >= need
            &&& o + 40 + need <= p.len()
        }),
    ensures
        spec_ipv6(p, o) matches Some(f) && f.protocol == (if p[o + 6] == 17 {
            Protocol::Udp
        } else {
            Protocol::Tcp
        }) && f.src_port as int == (p[o + 40] as int) * 256 + (p[o + 41] as int) && f.dst_port as int
            == (p[o + 42] as int) * 256 + (p[o + 43] as int) && f.src_addr == IpAddress::V6(
            spec_be(p, o + 8, 16) as u128,
        ) && f.dst_addr == IpAddress::V6(spec_be(p, o + 24, 16) as u128) && f.len == p.len() as u64,
{
    lemma_be_word(p, o + 4);
    lemma_be_word(p, o + 40);
    lemma_be_word(p, o + 42);
}

/// An IPv4 packet with a plain 20-byte header whose protocol is UDP (17)
/// or TCP (6) and whose payload holds that protocol's header is a flow of
/// that protocol, its ports the first two big-endian words of the payload.
pub proof fn lemma_ipv4_transport_is_a_flow(p: Seq<u8>, o: int)
    requires
        0 <= o,
        o + 20 <= p.len(),
        p[o] % 16 == 5,
        p[o + 9] == 17 || p[o + 9] == 6,
        ({
            let need: int = if p[o + 9] == 17 { 8 } else { 20 };
            &&& (p[o + 2] as int) * 256 + (p[o + 3] as int) >= 20 + need
            &&& o + 20 + need <= p.len()
        }),
    ensures
        spec_ipv4(p, o) matches Some(f) && f.protocol == (if p[o + 9] == 17 {
            Protocol::Udp
        } else {
            Protocol::Tcp
        }) && f.src_port as int == (p[o + 20] as int) * 256 + (p[o + 21] as int) && f.dst_port as int
            == (p[o + 22] as int) * 256 + (p[o + 23] as int) && f.len == p.len() as u64,
{
    lemma_be_word(p, o + 2);
    lemma_be_word(p, o + 20);
    lemma_be_word(p, o + 22);
}

} // verus!
