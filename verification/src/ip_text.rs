//! The standard textual form of IP addresses: dotted decimal for IPv4;
//! for IPv6 lower-case hexadecimal groups with the longest run of two or
//! more zero groups shortened to `::`, and IPv4-mapped addresses written as
//! `::ffff:` and the dotted IPv4 address.
use vstd::prelude::*;

use crate::text::{push_char, push_u64, spec_decimal};
use crate::traffic_classifier::IpAddress;

verus! {

/// Dotted decimal form of an IPv4 address held most significant octet first.
pub open spec fn spec_ipv4_text(v: u32) -> Seq<char> {
    spec_decimal((v / 16777216) as nat) + seq!['.'] + spec_decimal(((v / 65536) % 256) as nat) + seq![
        '.',
    ] + spec_decimal(((v / 256) % 256) as nat) + seq!['.'] + spec_decimal((v % 256) as nat)
}

/// Appends the dotted decimal form of an IPv4 address.
pub fn push_ipv4(s: &mut String, v: u32)
    ensures
        final(s)@ == old(s)@ + spec_ipv4_text(v),
{
    push_u64(s, (v / 16777216) as u64);
    push_char(s, '.');
    push_u64(s, ((v / 65536) % 256) as u64);
    push_char(s, '.');
    push_u64(s, ((v / 256) % 256) as u64);
    push_char(s, '.');
    push_u64(s, (v % 256) as u64);
    assert(final(s)@ =~= old(s)@ + spec_ipv4_text(v));
}

/// The lower-case hexadecimal digit of `d`.
pub open spec fn spec_hex_char(d: int) -> char {
    if d < 10 {
        (d + 48) as char
    } else {
        (d + 87) as char
    }
}

/// Lower-case hexadecimal notation, without leading zeros.
pub open spec fn spec_hex(n: nat) -> Seq<char>
    decreases n,
{
    if n < 16 {
        seq![spec_hex_char(n as int)]
    } else {
        spec_hex(n / 16).push(spec_hex_char((n % 16) as int))
    }
}

fn hex_char(d: u16) -> (c: char)
    requires
        d < 16,
    ensures
        c == spec_hex_char(d as int),
{
    match d {
        0u16 => '0',
        1u16 => '1',
        2u16 => '2',
        3u16 => '3',
        4u16 => '4',
        5u16 => '5',
        6u16 => '6',
        7u16 => '7',
        8u16 => '8',
        9u16 => '9',
        10u16 => 'a',
        11u16 => 'b',
        12u16 => 'c',
        13u16 => 'd',
        14u16 => 'e',
        _ => 'f',
    }
}

fn push_hex(s: &mut String, n: u16)
    ensures
        final(s)@ == old(s)@ + spec_hex(n as nat),
    decreases n,
{
    if n >= 16 {
        push_hex(s, n / 16);
    }
    let c = hex_char(n % 16);
    push_char(s, c);
    proof {
        if n < 16 {
            assert(old(s)@ + spec_hex(n as nat) =~= old(s)@.push(c));
        } else {
            assert(old(s)@ + spec_hex(n as nat) =~= (old(s)@ + spec_hex((n / 16) as nat)).push(c));
        }
    }
}

/// The eight 16-bit groups of an IPv6 address, most significant first.
pub open spec fn spec_groups(v: u128) -> Seq<u16> {
    seq![
        ((v >> 112u32) & 0xffff) as u16,
        ((v >> 96u32) & 0xffff) as u16,
        ((v >> 80u32) & 0xffff) as u16,
        ((v >> 64u32) & 0xffff) as u16,
        ((v >> 48u32) & 0xffff) as u16,
        ((v >> 32u32) & 0xffff) as u16,
        ((v >> 16u32) & 0xffff) as u16,
        (v & 0xffff) as u16,
    ]
}

/// Groups joined by `:`, each in hexadecimal.
pub open spec fn spec_join_groups(g: Seq<u16>) -> Seq<char>
    decreases g.len(),
{
    if g.len() == 0 {
        Seq::empty()
    } else if g.len() == 1 {
        spec_hex(g[0] as nat)
    } else {
        spec_join_groups(g.drop_last()) + seq![':'] + spec_hex(g.last() as nat)
    }
}

/// After the first `n` groups: the current run of zero groups and the
/// first longest one, each as (start, length).
pub open spec fn spec_zero_scan(g: Seq<u16>, n: int) -> (int, int, int, int)
    decreases n,
{
    if n <= 0 {
        (0, 0, 0, 0)
    } else {
        let (cs, cl, bs, bl) = spec_zero_scan(g, n - 1);
        if g[n - 1] == 0 {
            let cs2 = if cl == 0 {
                n - 1
            } else {
                cs
            };
            if cl + 1 > bl {
                (cs2, cl + 1, cs2, cl + 1)
            } else {
                (cs2, cl + 1, bs, bl)
            }
        } else {
            (0, 0, bs, bl)
        }
    }
}

/// The text of an IPv6 address.
pub open spec fn spec_ipv6_text(v: u128) -> Seq<char> {
    let g = spec_groups(v);
    if g[0] == 0 && g[1] == 0 && g[2] == 0 && g[3] == 0 && g[4] == 0 && g[5] == 0xffff {
        seq![':', ':', 'f', 'f', 'f', 'f', ':'] + spec_ipv4_text((v & 0xffff_ffff) as u32)
    } else {
        let (_, _, bs, bl) = spec_zero_scan(g, 8);
        if bl > 1 {
            spec_join_groups(g.subrange(0, bs)) + seq![':', ':'] + spec_join_groups(
                g.subrange(bs + bl, 8),
            )
        } else {
            spec_join_groups(g)
        }
    }
}

/// The text of an address.
pub open spec fn spec_ip_text(a: IpAddress) -> Seq<char> {
    match a {
        IpAddress::V4(v) => spec_ipv4_text(v),
        IpAddress::V6(v) => spec_ipv6_text(v),
    }
}

fn groups(v: u128) -> (r: Vec<u16>)
    ensures
        r@ == spec_groups(v),
{
    let mut r: Vec<u16> = Vec::new();
    r.push(((v >> 112u32) & 0xffff) as u16);
    r.push(((v >> 96u32) & 0xffff) as u16);
    r.push(((v >> 80u32) & 0xffff) as u16);
    r.push(((v >> 64u32) & 0xffff) as u16);
    r.push(((v >> 48u32) & 0xffff) as u16);
    r.push(((v >> 32u32) & 0xffff) as u16);
    r.push(((v >> 16u32) & 0xffff) as u16);
    r.push((v & 0xffff) as u16);
    assert(r@ =~= spec_groups(v));
    r
}

fn push_joined(s: &mut String, g: &Vec<u16>, a: usize, b: usize)
    requires
        a <= b <= g@.len(),
    ensures
        final(s)@ == old(s)@ + spec_join_groups(g@.subrange(a as int, b as int)),
{
    let ghost start = s@;
    if a == b {
        assert(g@.subrange(a as int, b as int).len() == 0);
        assert(s@ =~= start + spec_join_groups(g@.subrange(a as int, b as int)));
        return;
    }
    push_hex(s, g[a]);
    assert(g@.subrange(a as int, a + 1).len() == 1);
    assert(s@ =~= start + spec_join_groups(g@.subrange(a as int, a + 1)));
    let mut i: usize = a + 1;
    while i < b
        invariant
            a < i <= b <= g@.len(),
            s@ == start + spec_join_groups(g@.subrange(a as int, i as int)),
        decreases b - i,
    {
        push_char(s, ':');
        push_hex(s, g[i]);
        proof {
            let t = g@.subrange(a as int, i + 1);
            assert(t.drop_last() =~= g@.subrange(a as int, i as int));
            assert(t.last() == g@[i as int]);
            assert(s@ =~= start + spec_join_groups(t));
        }
        i = i + 1;
    }
}

/// Appends the text of an IPv6 address.
pub fn push_ipv6(s: &mut String, v: u128)
    ensures
        final(s)@ == old(s)@ + spec_ipv6_text(v),
{
    let g = groups(v);
    if g[0] == 0 && g[1] == 0 && g[2] == 0 && g[3] == 0 && g[4] == 0 && g[5] == 0xffff {
        let ghost start = s@;
        push_char(s, ':');
        push_char(s, ':');
        push_char(s, 'f');
        push_char(s, 'f');
        push_char(s, 'f');
        push_char(s, 'f');
        push_char(s, ':');
        push_ipv4(s, (v & 0xffff_ffff) as u32);
        assert(s@ =~= start + spec_ipv6_text(v));
        return;
    }
    let mut cs: usize = 0;
    let mut cl: usize = 0;
    let mut bs: usize = 0;
    let mut bl: usize = 0;
    let mut i: usize = 0;
    while i < 8
        invariant
            g@ == spec_groups(v),
            i <= 8,
            spec_zero_scan(g@, i as int) == (cs as int, cl as int, bs as int, bl as int),
            cl <= i,
            bl <= i,
            cl > 0 ==> cs + cl == i,
            bs + bl <= i,
        decreases 8 - i,
    {
        if g[i] == 0 {
            if cl == 0 {
                cs = i;
            }
            cl = cl + 1;
            if cl > bl {
                bs = cs;
                bl = cl;
            }
        } else {
            cs = 0;
            cl = 0;
        }
        i = i + 1;
    }
    if bl > 1 {
        push_joined(s, &g, 0, bs);
        push_char(s, ':');
        push_char(s, ':');
        push_joined(s, &g, bs + bl, 8);
        proof {
            let (_, _, sbs, sbl) = spec_zero_scan(g@, 8);
            assert(sbs == bs && sbl == bl);
        }
        assert(final(s)@ =~= old(s)@ + spec_ipv6_text(v));
    } else {
        push_joined(s, &g, 0, 8);
        assert(g@.subrange(0, 8) =~= g@);
    }
}

/// Appends the text of an address.
pub fn push_ip(s: &mut String, a: &IpAddress)
    ensures
        final(s)@ == old(s)@ + spec_ip_text(*a),
{
    match a {
        IpAddress::V4(v) => push_ipv4(s, *v),
        IpAddress::V6(v) => push_ipv6(s, *v),
    }
}

/// The text of an address.
pub fn ip_text(a: &IpAddress) -> (r: String)
    ensures
        r@ == spec_ip_text(*a),
{
    let mut s = String::new();
    push_ip(&mut s, a);
    assert(Seq::<char>::empty() + spec_ip_text(*a) =~= spec_ip_text(*a));
    s
}

} // verus!
