//! Per-process bandwidth accounting from captured packets.
//!
//! The tracker holds the connection table (which process owns which
//! connection), the socket owners, and byte counters per process, per
//! interface and per process and interface. Captured packets are attributed
//! to a process by their addresses and ports; every update takes the bytes
//! counted since the previous update and keeps terminated processes visible
//! for a while.
//!
//! Tables are vectors; a lookup takes the first entry with the key, and an
//! insertion appends only when the key is absent, so keys stay unique.
use crate::text::{push_i64, spec_int_text};
use crate::traffic_classifier::{categorize_traffic, spec_categorize, IpAddress, TrafficCategory};
use vstd::prelude::*;

verus! {

/// Transport protocol of a connection.
#[derive(Clone, Copy, Debug, PartialEq, Eq, Hash, Structural)]
pub enum Protocol {
    Tcp,
    Udp,
}

/// A connection as seen from this host.
#[derive(Clone, Copy, Debug, PartialEq, Eq, Hash, Structural)]
pub struct ConnectionKey {
    pub local_addr: IpAddress,
    pub local_port: u16,
    pub remote_addr: IpAddress,
    pub remote_port: u16,
    pub protocol: Protocol,
}

/// Which rules attribute a UDP packet that matches no connection exactly.
#[derive(Clone, Copy, Debug, PartialEq, Eq, Structural)]
pub enum MatchStrategy {
    /// A socket bound to the packet's local address and port with no fixed
    /// peer: source side first, then destination side.
    Basic,
    /// As `Basic` on the source side, then sockets bound to the unspecified
    /// address, the destination side, and last any ephemeral socket.
    Extended,
}

/// A rule that selects connection-table keys.
#[derive(Clone, Copy, Debug)]
pub enum MatchRule {
    /// Exactly this key.
    Exact(ConnectionKey),
    /// A UDP socket bound to this address and port with no fixed peer.
    UdpBound(IpAddress, u16),
    /// A UDP socket bound to the unspecified address on this port with no fixed peer.
    UdpUnspecified(u16),
    /// A UDP socket bound to this address or the unspecified one, on this
    /// port, with no fixed peer.
    UdpBoundOrUnspecified(IpAddress, u16),
    /// A UDP socket on an ephemeral port (above 1024) bound to this address
    /// or the unspecified one, with no fixed peer.
    UdpEphemeral(IpAddress),
}

/// The key has no fixed peer: unspecified remote address or remote port 0.
pub open spec fn spec_no_peer(k: ConnectionKey) -> bool {
    k.remote_addr.spec_is_unspecified() || k.remote_port == 0
}

/// Whether a rule selects a key.
pub open spec fn spec_rule_matches(rule: MatchRule, k: ConnectionKey) -> bool {
    match rule {
        MatchRule::Exact(key) => k == key,
        MatchRule::UdpBound(a, p) => k.protocol == Protocol::Udp && k.local_addr == a
            && k.local_port == p && spec_no_peer(k),
        MatchRule::UdpUnspecified(p) => k.protocol == Protocol::Udp
            && k.local_addr.spec_is_unspecified() && k.local_port == p && spec_no_peer(k),
        MatchRule::UdpBoundOrUnspecified(a, p) => k.protocol == Protocol::Udp && (k.local_addr
            == a || k.local_addr.spec_is_unspecified()) && k.local_port == p && spec_no_peer(k),
        MatchRule::UdpEphemeral(a) => k.protocol == Protocol::Udp && k.local_port > 1024 && (
        k.local_addr == a || k.local_addr.spec_is_unspecified()) && spec_no_peer(k),
    }
}

fn rule_matches(rule: &MatchRule, k: &ConnectionKey) -> (r: bool)
    ensures
        r == spec_rule_matches(*rule, *k),
{
    let no_peer = k.remote_addr.is_unspecified() || k.remote_port == 0;
    let udp = k.protocol == Protocol::Udp;
    match rule {
        MatchRule::Exact(key) => *k == *key,
        MatchRule::UdpBound(a, p) => udp && k.local_addr == *a && k.local_port == *p && no_peer,
        MatchRule::UdpUnspecified(p) => udp && k.local_addr.is_unspecified() && k.local_port
            == *p && no_peer,
        MatchRule::UdpBoundOrUnspecified(a, p) => udp && (k.local_addr == *a
            || k.local_addr.is_unspecified()) && k.local_port == *p && no_peer,
        MatchRule::UdpEphemeral(a) => udp && k.local_port > 1024 && (k.local_addr == *a
            || k.local_addr.is_unspecified()) && no_peer,
    }
}

/// Owner of the first of the first `n` connections that the rule selects.
pub open spec fn spec_find_owner_in(
    table: Seq<(ConnectionKey, i32)>,
    rule: MatchRule,
    n: int,
) -> Option<i32>
    decreases n,
{
    if n <= 0 {
        None
    } else {
        match spec_find_owner_in(table, rule, n - 1) {
            Some(p) => Some(p),
            None => if spec_rule_matches(rule, table[n - 1].0) {
                Some(table[n - 1].1)
            } else {
                None
            },
        }
    }
}

/// Owner of the first connection that the rule selects.
pub open spec fn spec_find_owner(table: Seq<(ConnectionKey, i32)>, rule: MatchRule) -> Option<i32> {
    spec_find_owner_in(table, rule, table.len() as int)
}

proof fn lemma_find_owner_stable(table: Seq<(ConnectionKey, i32)>, rule: MatchRule, n: int, m: int)
    requires
        0 <= n <= m,
        spec_find_owner_in(table, rule, n) is Some,
    ensures
        spec_find_owner_in(table, rule, m) == spec_find_owner_in(table, rule, n),
    decreases m - n,
{
    if m > n {
        lemma_find_owner_stable(table, rule, n, m - 1);
    }
}

/// The owner of the first connection-table entry that the rule selects.
pub fn find_owner(table: &Vec<(ConnectionKey, i32)>, rule: &MatchRule) -> (r: Option<i32>)
    ensures
        r == spec_find_owner(table@, *rule),
{
    let mut i: usize = 0;
    while i < table.len()
        invariant
            i <= table@.len(),
            spec_find_owner_in(table@, *rule, i as int) is None,
        decreases table@.len() - i,
    {
        if rule_matches(rule, &table[i].0) {
            proof {
                lemma_find_owner_stable(table@, *rule, i + 1, table@.len() as int);
            }
            return Some(table[i].1);
        }
        i = i + 1;
    }
    None
}

/// A captured packet's addresses, ports, protocol and size.
#[derive(Clone, Copy, Debug, PartialEq, Eq, Structural)]
pub struct PacketInfo {
    pub src_addr: IpAddress,
    pub src_port: u16,
    pub dst_addr: IpAddress,
    pub dst_port: u16,
    pub protocol: Protocol,
    pub len: u64,
}

/// The key of a packet's connection if the source is local.
pub open spec fn spec_outbound_key(p: PacketInfo) -> ConnectionKey {
    ConnectionKey {
        local_addr: p.src_addr,
        local_port: p.src_port,
        remote_addr: p.dst_addr,
        remote_port: p.dst_port,
        protocol: p.protocol,
    }
}

/// The key of a packet's connection if the destination is local.
pub open spec fn spec_inbound_key(p: PacketInfo) -> ConnectionKey {
    ConnectionKey {
        local_addr: p.dst_addr,
        local_port: p.dst_port,
        remote_addr: p.src_addr,
        remote_port: p.src_port,
        protocol: p.protocol,
    }
}

/// `Some((pid, true))` for an owner found on the outbound side,
/// `Some((pid, false))` on the inbound side.
pub open spec fn spec_tag(found: Option<i32>, outbound: bool) -> Option<(i32, bool)> {
    match found {
        Some(pid) => Some((pid, outbound)),
        None => None,
    }
}

/// The UDP fallback rules of a strategy, applied in order after the exact lookups.
pub open spec fn spec_udp_fallback(
    table: Seq<(ConnectionKey, i32)>,
    p: PacketInfo,
    strategy: MatchStrategy,
) -> Option<(i32, bool)> {
    let bound_src = spec_find_owner(table, MatchRule::UdpBound(p.src_addr, p.src_port));
    if bound_src is Some {
        spec_tag(bound_src, true)
    } else {
        match strategy {
            MatchStrategy::Basic => spec_tag(
                spec_find_owner(table, MatchRule::UdpBound(p.dst_addr, p.dst_port)),
                false,
            ),
            MatchStrategy::Extended => {
                let unspecified = spec_find_owner(table, MatchRule::UdpUnspecified(p.src_port));
                if unspecified is Some {
                    spec_tag(unspecified, true)
                } else {
                    let inbound = spec_find_owner(
                        table,
                        MatchRule::UdpBoundOrUnspecified(p.dst_addr, p.dst_port),
                    );
                    if inbound is Some {
                        spec_tag(inbound, false)
                    } else if p.src_port > 1024 {
                        spec_tag(spec_find_owner(table, MatchRule::UdpEphemeral(p.src_addr)), true)
                    } else {
                        None
                    }
                }
            },
        }
    }
}

/// The process a packet belongs to and whether it is outbound: the exact
/// outbound key, then the exact inbound key, then for UDP the fallback rules.
pub open spec fn spec_packet_owner(
    table: Seq<(ConnectionKey, i32)>,
    p: PacketInfo,
    strategy: MatchStrategy,
) -> Option<(i32, bool)> {
    let out = spec_find_owner(table, MatchRule::Exact(spec_outbound_key(p)));
    let inb = spec_find_owner(table, MatchRule::Exact(spec_inbound_key(p)));
    if out is Some {
        spec_tag(out, true)
    } else if inb is Some {
        spec_tag(inb, false)
    } else if p.protocol == Protocol::Udp {
        spec_udp_fallback(table, p, strategy)
    } else {
        None
    }
}

fn tag(found: Option<i32>, outbound: bool) -> (r: Option<(i32, bool)>)
    ensures
        r == spec_tag(found, outbound),
{
    match found {
        Some(pid) => Some((pid, outbound)),
        None => None,
    }
}

/// The process a packet belongs to, and whether it is outbound.
pub fn packet_owner(table: &Vec<(ConnectionKey, i32)>, p: &PacketInfo, strategy: MatchStrategy) -> (r:
    Option<(i32, bool)>)
    ensures
        r == spec_packet_owner(table@, *p, strategy),
{
    let key_outbound = ConnectionKey {
        local_addr: p.src_addr,
        local_port: p.src_port,
        remote_addr: p.dst_addr,
        remote_port: p.dst_port,
        protocol: p.protocol,
    };
    let key_inbound = ConnectionKey {
        local_addr: p.dst_addr,
        local_port: p.dst_port,
        remote_addr: p.src_addr,
        remote_port: p.src_port,
        protocol: p.protocol,
    };
    let out = find_owner(table, &MatchRule::Exact(key_outbound));
    if out.is_some() {
        return tag(out, true);
    }
    let inb = find_owner(table, &MatchRule::Exact(key_inbound));
    if inb.is_some() {
        return tag(inb, false);
    }
    if p.protocol != Protocol::Udp {
        return None;
    }
    let bound_src = find_owner(table, &MatchRule::UdpBound(p.src_addr, p.src_port));
    if bound_src.is_some() {
        return tag(bound_src, true);
    }
    match strategy {
        MatchStrategy::Basic => tag(
            find_owner(table, &MatchRule::UdpBound(p.dst_addr, p.dst_port)),
            false,
        ),
        MatchStrategy::Extended => {
            let unspecified = find_owner(table, &MatchRule::UdpUnspecified(p.src_port));
            if unspecified.is_some() {
                return tag(unspecified, true);
            }
            let inbound = find_owner(
                table,
                &MatchRule::UdpBoundOrUnspecified(p.dst_addr, p.dst_port),
            );
            if inbound.is_some() {
                return tag(inbound, false);
            }
            if p.src_port > 1024 {
                tag(find_owner(table, &MatchRule::UdpEphemeral(p.src_addr)), true)
            } else {
                None
            }
        },
    }
}


/// Byte counters of one process (or one process on one interface): totals,
/// the totals at the previous update, and both split by traffic category.
#[derive(Clone, Copy, Debug, PartialEq, Eq, Structural)]
pub struct TrafficCounters {
    pub rx_bytes: u64,
    pub tx_bytes: u64,
    pub last_rx_bytes: u64,
    pub last_tx_bytes: u64,
    pub internet_rx_bytes: u64,
    pub internet_tx_bytes: u64,
    pub local_rx_bytes: u64,
    pub local_tx_bytes: u64,
    pub last_internet_rx_bytes: u64,
    pub last_internet_tx_bytes: u64,
    pub last_local_rx_bytes: u64,
    pub last_local_tx_bytes: u64,
}

/// All counters zero.
pub open spec fn spec_zero_counters() -> TrafficCounters {
    TrafficCounters {
        rx_bytes: 0,
        tx_bytes: 0,
        last_rx_bytes: 0,
        last_tx_bytes: 0,
        internet_rx_bytes: 0,
        internet_tx_bytes: 0,
        local_rx_bytes: 0,
        local_tx_bytes: 0,
        last_internet_rx_bytes: 0,
        last_internet_tx_bytes: 0,
        last_local_rx_bytes: 0,
        last_local_tx_bytes: 0,
    }
}

/// Adding `len` to any running total of `c` stays within `u64`.
pub open spec fn spec_counters_fit(c: TrafficCounters, len: u64) -> bool {
    &&& c.rx_bytes + len <= u64::MAX
    &&& c.tx_bytes + len <= u64::MAX
    &&& c.internet_rx_bytes + len <= u64::MAX
    &&& c.internet_tx_bytes + len <= u64::MAX
    &&& c.local_rx_bytes + len <= u64::MAX
    &&& c.local_tx_bytes + len <= u64::MAX
}

/// The totals split by category add up to the overall totals.
pub open spec fn spec_counters_consistent(c: TrafficCounters) -> bool {
    &&& c.rx_bytes == c.internet_rx_bytes + c.local_rx_bytes
    &&& c.tx_bytes == c.internet_tx_bytes + c.local_tx_bytes
}

/// `c` after a packet of `len` bytes: sent when `outbound`, received
/// otherwise, counted in the overall total and in its category's total.
pub open spec fn spec_record(
    c: TrafficCounters,
    outbound: bool,
    category: TrafficCategory,
    len: u64,
) -> TrafficCounters {
    if outbound {
        if category == TrafficCategory::Internet {
            TrafficCounters {
                tx_bytes: (c.tx_bytes + len) as u64,
                internet_tx_bytes: (c.internet_tx_bytes + len) as u64,
                ..c
            }
        } else {
            TrafficCounters {
                tx_bytes: (c.tx_bytes + len) as u64,
                local_tx_bytes: (c.local_tx_bytes + len) as u64,
                ..c
            }
        }
    } else {
        if category == TrafficCategory::Internet {
            TrafficCounters {
                rx_bytes: (c.rx_bytes + len) as u64,
                internet_rx_bytes: (c.internet_rx_bytes + len) as u64,
                ..c
            }
        } else {
            TrafficCounters {
                rx_bytes: (c.rx_bytes + len) as u64,
                local_rx_bytes: (c.local_rx_bytes + len) as u64,
                ..c
            }
        }
    }
}

impl TrafficCounters {
    /// All counters zero.
    pub fn zero() -> (r: Self)
        ensures
            r == spec_zero_counters(),
    {
        TrafficCounters {
            rx_bytes: 0,
            tx_bytes: 0,
            last_rx_bytes: 0,
            last_tx_bytes: 0,
            internet_rx_bytes: 0,
            internet_tx_bytes: 0,
            local_rx_bytes: 0,
            local_tx_bytes: 0,
            last_internet_rx_bytes: 0,
            last_internet_tx_bytes: 0,
            last_local_rx_bytes: 0,
            last_local_tx_bytes: 0,
        }
    }

    /// Count a packet of `len` bytes in its direction and category.
    pub fn record(&mut self, outbound: bool, category: TrafficCategory, len: u64)
        requires
            spec_counters_fit(*old(self), len),
        ensures
            *final(self) == spec_record(*old(self), outbound, category, len),
    {
        if outbound {
            self.tx_bytes = self.tx_bytes + len;
            match category {
                TrafficCategory::Internet => {
                    self.internet_tx_bytes = self.internet_tx_bytes + len;
                },
                TrafficCategory::Local => {
                    self.local_tx_bytes = self.local_tx_bytes + len;
                },
            }
        } else {
            self.rx_bytes = self.rx_bytes + len;
            match category {
                TrafficCategory::Internet => {
                    self.internet_rx_bytes = self.internet_rx_bytes + len;
                },
                TrafficCategory::Local => {
                    self.local_rx_bytes = self.local_rx_bytes + len;
                },
            }
        }
    }

    fn fits(&self, len: u64) -> (r: bool)
        ensures
            r == spec_counters_fit(*self, len),
    {
        let room = u64::MAX - len;
        self.rx_bytes <= room && self.tx_bytes <= room && self.internet_rx_bytes <= room
            && self.internet_tx_bytes <= room && self.local_rx_bytes <= room && self.local_tx_bytes
            <= room
    }
}

/// Recording a packet keeps the category totals adding up to the overall totals.
pub proof fn lemma_record_keeps_consistency(
    c: TrafficCounters,
    outbound: bool,
    category: TrafficCategory,
    len: u64,
)
    requires
        spec_counters_consistent(c),
        spec_counters_fit(c, len),
    ensures
        spec_counters_consistent(spec_record(c, outbound, category, len)),
{
}

/// The owner of a socket.
#[derive(Clone, Debug)]
pub struct SocketOwner {
    pub inode: u64,
    pub pid: i32,
    pub name: String,
}

impl SocketOwner {
    /// A copy of this entry.
    pub fn duplicate(&self) -> (r: Self)
        ensures
            r == *self,
    {
        SocketOwner { inode: self.inode, pid: self.pid, name: self.name.clone() }
    }
}

/// A copy of a list of socket owners.
pub fn copy_owners(v: &Vec<SocketOwner>) -> (r: Vec<SocketOwner>)
    ensures
        r@ == v@,
{
    let mut r: Vec<SocketOwner> = Vec::new();
    let mut i: usize = 0;
    while i < v.len()
        invariant
            i <= v@.len(),
            r@ == v@.take(i as int),
        decreases v@.len() - i,
    {
        r.push(v[i].duplicate());
        i = i + 1;
        assert(r@ =~= v@.take(i as int));
    }
    assert(v@.take(v@.len() as int) =~= v@);
    r
}

/// Bandwidth counters of one process.
#[derive(Clone, Debug)]
pub struct ProcessBandwidth {
    pub name: String,
    pub counters: TrafficCounters,
}

/// Bandwidth counters of one interface.
#[derive(Clone, Debug)]
pub struct InterfaceBandwidth {
    pub name: String,
    pub rx_bytes: u64,
    pub tx_bytes: u64,
    pub last_rx_bytes: u64,
    pub last_tx_bytes: u64,
}

/// Bandwidth counters of one process on one interface.
#[derive(Clone, Debug)]
pub struct ProcessInterfaceBandwidth {
    pub pid: i32,
    pub interface: String,
    pub counters: TrafficCounters,
}

/// Name of the first of the first `n` socket owners with this pid.
pub open spec fn spec_owner_name_in(s: Seq<SocketOwner>, pid: i32, n: int) -> Option<Seq<char>>
    decreases n,
{
    if n <= 0 {
        None
    } else {
        match spec_owner_name_in(s, pid, n - 1) {
            Some(name) => Some(name),
            None => if s[n - 1].pid == pid {
                Some(s[n - 1].name@)
            } else {
                None
            },
        }
    }
}

proof fn lemma_owner_name_stable(s: Seq<SocketOwner>, pid: i32, n: int, m: int)
    requires
        0 <= n <= m,
        spec_owner_name_in(s, pid, n) is Some,
    ensures
        spec_owner_name_in(s, pid, m) == spec_owner_name_in(s, pid, n),
    decreases m - n,
{
    if m > n {
        lemma_owner_name_stable(s, pid, n, m - 1);
    }
}

/// The name shown for a process: that of its first socket owner entry, or
/// `PID <pid>`.
pub open spec fn spec_process_name(s: Seq<SocketOwner>, pid: i32) -> Seq<char> {
    match spec_owner_name_in(s, pid, s.len() as int) {
        Some(name) => name,
        None => "PID "@ + spec_int_text(pid as int),
    }
}

/// The name shown for a process: that of its first socket owner entry, or
/// `PID <pid>`.
pub fn process_name(socket_map: &Vec<SocketOwner>, pid: i32) -> (r: String)
    ensures
        r@ == spec_process_name(socket_map@, pid),
{
    let mut i: usize = 0;
    while i < socket_map.len()
        invariant
            i <= socket_map@.len(),
            spec_owner_name_in(socket_map@, pid, i as int) is None,
        decreases socket_map@.len() - i,
    {
        if socket_map[i].pid == pid {
            proof {
                lemma_owner_name_stable(socket_map@, pid, i + 1, socket_map@.len() as int);
            }
            return socket_map[i].name.clone();
        }
        i = i + 1;
    }
    let mut name = String::from_str("PID ");
    push_i64(&mut name, pid as i64);
    name
}

/// Index of the first of the first `n` process entries with this pid.
pub open spec fn spec_find_process_in(s: Seq<(i32, ProcessBandwidth)>, pid: i32, n: int) -> Option<int>
    decreases n,
{
    if n <= 0 {
        None
    } else {
        match spec_find_process_in(s, pid, n - 1) {
            Some(i) => Some(i),
            None => if s[n - 1].0 == pid {
                Some(n - 1)
            } else {
                None
            },
        }
    }
}

/// Index of the first process entry with this pid.
pub open spec fn spec_find_process(s: Seq<(i32, ProcessBandwidth)>, pid: i32) -> Option<int> {
    spec_find_process_in(s, pid, s.len() as int)
}

proof fn lemma_find_process_stable(s: Seq<(i32, ProcessBandwidth)>, pid: i32, n: int, m: int)
    requires
        0 <= n <= m,
        spec_find_process_in(s, pid, n) is Some,
    ensures
        spec_find_process_in(s, pid, m) == spec_find_process_in(s, pid, n),
    decreases m - n,
{
    if m > n {
        lemma_find_process_stable(s, pid, n, m - 1);
    }
}

/// Index of the first process entry with this pid.
pub fn find_process(s: &Vec<(i32, ProcessBandwidth)>, pid: i32) -> (r: Option<usize>)
    ensures
        r matches Some(i) ==> spec_find_process(s@, pid) == Some(i as int),
        r is None ==> spec_find_process(s@, pid) is None,
        r matches Some(i) ==> i < s@.len() && s@[i as int].0 == pid,
        r is None ==> forall|j: int| 0 <= j < s@.len() ==> s@[j].0 != pid,
{
    let mut i: usize = 0;
    while i < s.len()
        invariant
            i <= s@.len(),
            spec_find_process_in(s@, pid, i as int) is None,
            forall|j: int| 0 <= j < i ==> s@[j].0 != pid,
        decreases s@.len() - i,
    {
        if s[i].0 == pid {
            proof {
                lemma_find_process_stable(s@, pid, i + 1, s@.len() as int);
            }
            return Some(i);
        }
        i = i + 1;
    }
    None
}

/// Index of the first of the first `n` interface entries with this name.
pub open spec fn spec_find_interface_in(s: Seq<InterfaceBandwidth>, name: Seq<char>, n: int) -> Option<int>
    decreases n,
{
    if n <= 0 {
        None
    } else {
        match spec_find_interface_in(s, name, n - 1) {
            Some(i) => Some(i),
            None => if s[n - 1].name@ == name {
                Some(n - 1)
            } else {
                None
            },
        }
    }
}

/// Index of the first interface entry with this name.
pub open spec fn spec_find_interface(s: Seq<InterfaceBandwidth>, name: Seq<char>) -> Option<int> {
    spec_find_interface_in(s, name, s.len() as int)
}

proof fn lemma_find_interface_stable(s: Seq<InterfaceBandwidth>, name: Seq<char>, n: int, m: int)
    requires
        0 <= n <= m,
        spec_find_interface_in(s, name, n) is Some,
    ensures
        spec_find_interface_in(s, name, m) == spec_find_interface_in(s, name, n),
    decreases m - n,
{
    if m > n {
        lemma_find_interface_stable(s, name, n, m - 1);
    }
}

/// Index of the first interface entry with this name.
pub fn find_interface(s: &Vec<InterfaceBandwidth>, name: &String) -> (r: Option<usize>)
    ensures
        r matches Some(i) ==> spec_find_interface(s@, name@) == Some(i as int),
        r is None ==> spec_find_interface(s@, name@) is None,
        r matches Some(i) ==> i < s@.len() && s@[i as int].name@ == name@,
{
    let mut i: usize = 0;
    while i < s.len()
        invariant
            i <= s@.len(),
            spec_find_interface_in(s@, name@, i as int) is None,
        decreases s@.len() - i,
    {
        if s[i].name == *name {
            proof {
                lemma_find_interface_stable(s@, name@, i + 1, s@.len() as int);
            }
            return Some(i);
        }
        i = i + 1;
    }
    None
}

/// Index of the first of the first `n` process-interface entries for this pair.
pub open spec fn spec_find_pair_in(
    s: Seq<ProcessInterfaceBandwidth>,
    pid: i32,
    name: Seq<char>,
    n: int,
) -> Option<int>
    decreases n,
{
    if n <= 0 {
        None
    } else {
        match spec_find_pair_in(s, pid, name, n - 1) {
            Some(i) => Some(i),
            None => if s[n - 1].pid == pid && s[n - 1].interface@ == name {
                Some(n - 1)
            } else {
                None
            },
        }
    }
}

/// Index of the first process-interface entry for this pair.
pub open spec fn spec_find_pair(s: Seq<ProcessInterfaceBandwidth>, pid: i32, name: Seq<char>) -> Option<
    int,
> {
    spec_find_pair_in(s, pid, name, s.len() as int)
}

proof fn lemma_find_pair_stable(
    s: Seq<ProcessInterfaceBandwidth>,
    pid: i32,
    name: Seq<char>,
    n: int,
    m: int,
)
    requires
        0 <= n <= m,
        spec_find_pair_in(s, pid, name, n) is Some,
    ensures
        spec_find_pair_in(s, pid, name, m) == spec_find_pair_in(s, pid, name, n),
    decreases m - n,
{
    if m > n {
        lemma_find_pair_stable(s, pid, name, n, m - 1);
    }
}

/// Index of the first process-interface entry for this pair.
pub fn find_pair(s: &Vec<ProcessInterfaceBandwidth>, pid: i32, name: &String) -> (r: Option<usize>)
    ensures
        r matches Some(i) ==> spec_find_pair(s@, pid, name@) == Some(i as int),
        r is None ==> spec_find_pair(s@, pid, name@) is None,
        r matches Some(i) ==> i < s@.len() && s@[i as int].pid == pid && s@[i as int].interface@
            == name@,
{
    let mut i: usize = 0;
    while i < s.len()
        invariant
            i <= s@.len(),
            spec_find_pair_in(s@, pid, name@, i as int) is None,
        decreases s@.len() - i,
    {
        if s[i].pid == pid && s[i].interface == *name {
            proof {
                lemma_find_pair_stable(s@, pid, name@, i + 1, s@.len() as int);
            }
            return Some(i);
        }
        i = i + 1;
    }
    None
}


/// Process counters after a packet: the process's entry is updated in
/// place, or a zero entry named `name` is appended first.
pub open spec fn spec_process_recorded(
    before: Seq<(i32, ProcessBandwidth)>,
    after: Seq<(i32, ProcessBandwidth)>,
    pid: i32,
    name: Seq<char>,
    outbound: bool,
    category: TrafficCategory,
    len: u64,
) -> bool {
    match spec_find_process(before, pid) {
        Some(i) => after == before.update(
            i,
            (
                pid,
                ProcessBandwidth {
                    name: before[i].1.name,
                    counters: spec_record(before[i].1.counters, outbound, category, len),
                },
            ),
        ),
        None => {
            &&& after.len() == before.len() + 1
            &&& after.take(before.len() as int) == before
            &&& after.last().0 == pid
            &&& after.last().1.name@ == name
            &&& after.last().1.counters == spec_record(spec_zero_counters(), outbound, category, len)
        },
    }
}

/// Process-interface counters after a packet, in the same way.
pub open spec fn spec_pair_recorded(
    before: Seq<ProcessInterfaceBandwidth>,
    after: Seq<ProcessInterfaceBandwidth>,
    pid: i32,
    interface: Seq<char>,
    outbound: bool,
    category: TrafficCategory,
    len: u64,
) -> bool {
    match spec_find_pair(before, pid, interface) {
        Some(i) => after == before.update(
            i,
            ProcessInterfaceBandwidth {
                counters: spec_record(before[i].counters, outbound, category, len),
                ..before[i]
            },
        ),
        None => {
            &&& after.len() == before.len() + 1
            &&& after.take(before.len() as int) == before
            &&& after.last().pid == pid
            &&& after.last().interface@ == interface
            &&& after.last().counters == spec_record(spec_zero_counters(), outbound, category, len)
        },
    }
}

/// Interface counters after a packet: sent bytes when `outbound`, received otherwise.
pub open spec fn spec_interface_recorded(
    before: Seq<InterfaceBandwidth>,
    after: Seq<InterfaceBandwidth>,
    interface: Seq<char>,
    outbound: bool,
    len: u64,
) -> bool {
    match spec_find_interface(before, interface) {
        Some(i) => after == before.update(
            i,
            if outbound {
                InterfaceBandwidth { tx_bytes: (before[i].tx_bytes + len) as u64, ..before[i] }
            } else {
                InterfaceBandwidth { rx_bytes: (before[i].rx_bytes + len) as u64, ..before[i] }
            },
        ),
        None => {
            &&& after.len() == before.len() + 1
            &&& after.take(before.len() as int) == before
            &&& after.last().name@ == interface
            &&& after.last().tx_bytes == (if outbound { len } else { 0 })
            &&& after.last().rx_bytes == (if outbound { 0 } else { len })
            &&& after.last().last_rx_bytes == 0
            &&& after.last().last_tx_bytes == 0
        },
    }
}

/// Connection ownership and byte counters shared by packet capture and updates.
pub struct BandwidthTracker {
    /// Connection -> owning process.
    pub connection_map: Vec<(ConnectionKey, i32)>,
    /// Socket inode -> owning process and its name.
    pub socket_map: Vec<SocketOwner>,
    /// Process -> counters.
    pub process_bandwidth: Vec<(i32, ProcessBandwidth)>,
    /// Process -> time it was first seen terminated, in nanoseconds.
    pub terminated_processes: Vec<(i32, u64)>,
    /// Interface -> counters.
    pub interface_bandwidth: Vec<InterfaceBandwidth>,
    /// (process, interface) -> counters.
    pub process_interface_bandwidth: Vec<ProcessInterfaceBandwidth>,
    /// Packets seen.
    pub packets_captured: u64,
    /// Packets attributed to a process.
    pub packets_matched: u64,
    /// Packets attributed to no process.
    pub packets_unmatched: u64,
}

/// The effect of one captured packet on the tracker.
pub open spec fn spec_tracked(
    before: BandwidthTracker,
    after: BandwidthTracker,
    p: PacketInfo,
    interface: Seq<char>,
    strategy: MatchStrategy,
) -> bool {
    &&& after.connection_map@ == before.connection_map@
    &&& after.socket_map@ == before.socket_map@
    &&& after.terminated_processes@ == before.terminated_processes@
    &&& after.packets_captured == before.packets_captured + 1
    &&& match spec_packet_owner(before.connection_map@, p, strategy) {
        Some((pid, outbound)) => {
            let category = spec_categorize(if outbound { p.dst_addr } else { p.src_addr });
            &&& after.packets_matched == before.packets_matched + 1
            &&& after.packets_unmatched == before.packets_unmatched
            &&& spec_process_recorded(
                before.process_bandwidth@,
                after.process_bandwidth@,
                pid,
                spec_process_name(before.socket_map@, pid),
                outbound,
                category,
                p.len,
            )
            &&& spec_pair_recorded(
                before.process_interface_bandwidth@,
                after.process_interface_bandwidth@,
                pid,
                interface,
                outbound,
                category,
                p.len,
            )
            &&& spec_interface_recorded(
                before.interface_bandwidth@,
                after.interface_bandwidth@,
                interface,
                outbound,
                p.len,
            )
        },
        None => {
            &&& after.packets_matched == before.packets_matched
            &&& after.packets_unmatched == before.packets_unmatched + 1
            &&& after.process_bandwidth@ == before.process_bandwidth@
            &&& after.process_interface_bandwidth@ == before.process_interface_bandwidth@
            &&& spec_interface_recorded(
                before.interface_bandwidth@,
                after.interface_bandwidth@,
                interface,
                false,
                p.len,
            )
        },
    }
}

impl BandwidthTracker {
    /// An empty tracker.
    pub fn new() -> (r: Self)
        ensures
            r.connection_map@.len() == 0,
            r.socket_map@.len() == 0,
            r.process_bandwidth@.len() == 0,
            r.terminated_processes@.len() == 0,
            r.interface_bandwidth@.len() == 0,
            r.process_interface_bandwidth@.len() == 0,
            r.packets_captured == 0,
            r.packets_matched == 0,
            r.packets_unmatched == 0,
    {
        BandwidthTracker {
            connection_map: Vec::new(),
            socket_map: Vec::new(),
            process_bandwidth: Vec::new(),
            terminated_processes: Vec::new(),
            interface_bandwidth: Vec::new(),
            process_interface_bandwidth: Vec::new(),
            packets_captured: 0,
            packets_matched: 0,
            packets_unmatched: 0,
        }
    }

    /// Every counter that a packet of `len` bytes may raise stays within `u64`.
    pub open spec fn spec_can_record(&self, len: u64) -> bool {
        &&& self.packets_captured < u64::MAX
        &&& self.packets_matched < u64::MAX
        &&& self.packets_unmatched < u64::MAX
        &&& forall|i: int|
            0 <= i < self.process_bandwidth@.len() ==> spec_counters_fit(
                #[trigger] self.process_bandwidth@[i].1.counters,
                len,
            )
        &&& forall|i: int|
            0 <= i < self.process_interface_bandwidth@.len() ==> spec_counters_fit(
                #[trigger] self.process_interface_bandwidth@[i].counters,
                len,
            )
        &&& forall|i: int|
            0 <= i < self.interface_bandwidth@.len() ==> #[trigger] self.interface_bandwidth@[i].rx_bytes
                + len <= u64::MAX && self.interface_bandwidth@[i].tx_bytes + len <= u64::MAX
    }

    /// The packet counters add up, and every process's category totals add
    /// up to its overall totals.
    pub open spec fn spec_consistent(&self) -> bool {
        &&& self.packets_captured == self.packets_matched + self.packets_unmatched
        &&& forall|i: int|
            0 <= i < self.process_bandwidth@.len() ==> spec_counters_consistent(
                #[trigger] self.process_bandwidth@[i].1.counters,
            )
        &&& forall|i: int|
            0 <= i < self.process_interface_bandwidth@.len() ==> spec_counters_consistent(
                #[trigger] self.process_interface_bandwidth@[i].counters,
            )
    }

    /// Whether a packet of `len` bytes can be counted without overflow.
    pub fn can_record(&self, len: u64) -> (r: bool)
        ensures
            r == self.spec_can_record(len),
    {
        if self.packets_captured == u64::MAX || self.packets_matched == u64::MAX
            || self.packets_unmatched == u64::MAX {
            return false;
        }
        let room = u64::MAX - len;
        let mut i: usize = 0;
        while i < self.process_bandwidth.len()
            invariant
                i <= self.process_bandwidth@.len(),
                forall|j: int|
                    0 <= j < i ==> spec_counters_fit(
                        #[trigger] self.process_bandwidth@[j].1.counters,
                        len,
                    ),
            decreases self.process_bandwidth@.len() - i,
        {
            if !self.process_bandwidth[i].1.counters.fits(len) {
                return false;
            }
            i = i + 1;
        }
        let mut i: usize = 0;
        while i < self.process_interface_bandwidth.len()
            invariant
                i <= self.process_interface_bandwidth@.len(),
                forall|j: int|
                    0 <= j < i ==> spec_counters_fit(
                        #[trigger] self.process_interface_bandwidth@[j].counters,
                        len,
                    ),
            decreases self.process_interface_bandwidth@.len() - i,
        {
            if !self.process_interface_bandwidth[i].counters.fits(len) {
                return false;
            }
            i = i + 1;
        }
        let mut i: usize = 0;
        while i < self.interface_bandwidth.len()
            invariant
                i <= self.interface_bandwidth@.len(),
                room == u64::MAX - len,
                forall|j: int|
                    0 <= j < i ==> #[trigger] self.interface_bandwidth@[j].rx_bytes + len
                        <= u64::MAX && self.interface_bandwidth@[j].tx_bytes + len <= u64::MAX,
            decreases self.interface_bandwidth@.len() - i,
        {
            if self.interface_bandwidth[i].rx_bytes > room || self.interface_bandwidth[i].tx_bytes
                > room {
                return false;
            }
            i = i + 1;
        }
        true
    }

    fn record_interface(&mut self, interface: &String, outbound: bool, len: u64)
        requires
            forall|i: int|
                0 <= i < old(self).interface_bandwidth@.len() ==> #[trigger] old(
                    self,
                ).interface_bandwidth@[i].rx_bytes + len <= u64::MAX && old(
                    self,
                ).interface_bandwidth@[i].tx_bytes + len <= u64::MAX,
        ensures
            spec_interface_recorded(
                old(self).interface_bandwidth@,
                final(self).interface_bandwidth@,
                interface@,
                outbound,
                len,
            ),
            final(self).connection_map == old(self).connection_map,
            final(self).socket_map == old(self).socket_map,
            final(self).process_bandwidth == old(self).process_bandwidth,
            final(self).terminated_processes == old(self).terminated_processes,
            final(self).process_interface_bandwidth == old(self).process_interface_bandwidth,
            final(self).packets_captured == old(self).packets_captured,
            final(self).packets_matched == old(self).packets_matched,
            final(self).packets_unmatched == old(self).packets_unmatched,
    {
        match find_interface(&self.interface_bandwidth, interface) {
            Some(i) => {
                let old_entry = &self.interface_bandwidth[i];
                let entry = if outbound {
                    InterfaceBandwidth {
                        name: old_entry.name.clone(),
                        rx_bytes: old_entry.rx_bytes,
                        tx_bytes: old_entry.tx_bytes + len,
                        last_rx_bytes: old_entry.last_rx_bytes,
                        last_tx_bytes: old_entry.last_tx_bytes,
                    }
                } else {
                    InterfaceBandwidth {
                        name: old_entry.name.clone(),
                        rx_bytes: old_entry.rx_bytes + len,
                        tx_bytes: old_entry.tx_bytes,
                        last_rx_bytes: old_entry.last_rx_bytes,
                        last_tx_bytes: old_entry.last_tx_bytes,
                    }
                };
                self.interface_bandwidth.set(i, entry);
                assert(entry.name == old(self).interface_bandwidth@[i as int].name);
                assert(self.interface_bandwidth@ == old(self).interface_bandwidth@.update(i as int, entry));
                assert(spec_find_interface(old(self).interface_bandwidth@, interface@) == Some(i as int));
            },
            None => {
                self.interface_bandwidth.push(
                    InterfaceBandwidth {
                        name: interface.clone(),
                        rx_bytes: if outbound { 0 } else { len },
                        tx_bytes: if outbound { len } else { 0 },
                        last_rx_bytes: 0,
                        last_tx_bytes: 0,
                    },
                );
                assert(self.interface_bandwidth@.take(old(self).interface_bandwidth@.len() as int)
                    =~= old(self).interface_bandwidth@);
            },
        }
    }

    /// Attribute one captured packet seen on `interface_name` to a process
    /// and count its bytes; a packet that no process owns is counted as
    /// received on the interface.
    pub fn track_connection(
        &mut self,
        packet: &PacketInfo,
        interface_name: &String,
        strategy: MatchStrategy,
    )
        requires
            old(self).spec_can_record(packet.len),
        ensures
            spec_tracked(*old(self), *final(self), *packet, interface_name@, strategy),
            old(self).spec_consistent() ==> final(self).spec_consistent(),
    {
        self.packets_captured = self.packets_captured + 1;
        let owner = packet_owner(&self.connection_map, packet, strategy);
        match owner {
            Some((pid, is_outbound)) => {
                self.packets_matched = self.packets_matched + 1;
                let remote_ip = if is_outbound { packet.dst_addr } else { packet.src_addr };
                let category = categorize_traffic(&remote_ip);
                let len = packet.len;
                match find_process(&self.process_bandwidth, pid) {
                    Some(i) => {
                        let name = self.process_bandwidth[i].1.name.clone();
                        let mut counters = self.process_bandwidth[i].1.counters;
                        counters.record(is_outbound, category, len);
                        self.process_bandwidth.set(i, (pid, ProcessBandwidth { name, counters }));
                    },
                    None => {
                        let name = process_name(&self.socket_map, pid);
                        let mut counters = TrafficCounters::zero();
                        counters.record(is_outbound, category, len);
                        self.process_bandwidth.push((pid, ProcessBandwidth { name, counters }));
                        assert(self.process_bandwidth@.take(
                            old(self).process_bandwidth@.len() as int,
                        ) =~= old(self).process_bandwidth@);
                    },
                }
                match find_pair(&self.process_interface_bandwidth, pid, interface_name) {
                    Some(i) => {
                        let interface = self.process_interface_bandwidth[i].interface.clone();
                        let mut counters = self.process_interface_bandwidth[i].counters;
                        counters.record(is_outbound, category, len);
                        self.process_interface_bandwidth.set(
                            i,
                            ProcessInterfaceBandwidth { pid, interface, counters },
                        );
                    },
                    None => {
                        let mut counters = TrafficCounters::zero();
                        counters.record(is_outbound, category, len);
                        self.process_interface_bandwidth.push(
                            ProcessInterfaceBandwidth {
                                pid,
                                interface: interface_name.clone(),
                                counters,
                            },
                        );
                        assert(self.process_interface_bandwidth@.take(
                            old(self).process_interface_bandwidth@.len() as int,
                        ) =~= old(self).process_interface_bandwidth@);
                    },
                }
                self.record_interface(interface_name, is_outbound, len);
                assert(spec_process_recorded(
                    old(self).process_bandwidth@,
                    self.process_bandwidth@,
                    pid,
                    spec_process_name(old(self).socket_map@, pid),
                    is_outbound,
                    category,
                    len,
                ));
                assert(spec_pair_recorded(
                    old(self).process_interface_bandwidth@,
                    self.process_interface_bandwidth@,
                    pid,
                    interface_name@,
                    is_outbound,
                    category,
                    len,
                ));
                proof {
                    if old(self).spec_consistent() {
                        assert forall|i: int|
                            0 <= i < self.process_bandwidth@.len() implies spec_counters_consistent(
                            #[trigger] self.process_bandwidth@[i].1.counters,
                        ) by {
                            if i < old(self).process_bandwidth@.len() {
                                lemma_record_keeps_consistency(
                                    old(self).process_bandwidth@[i].1.counters,
                                    is_outbound,
                                    category,
                                    len,
                                );
                            }
                        }
                        assert forall|i: int|
                            0 <= i < self.process_interface_bandwidth@.len() implies spec_counters_consistent(
                            #[trigger] self.process_interface_bandwidth@[i].counters,
                        ) by {
                            if i < old(self).process_interface_bandwidth@.len() {
                                lemma_record_keeps_consistency(
                                    old(self).process_interface_bandwidth@[i].counters,
                                    is_outbound,
                                    category,
                                    len,
                                );
                            }
                        }
                    }
                }
            },
            None => {
                self.packets_unmatched = self.packets_unmatched + 1;
                self.record_interface(interface_name, false, packet.len);
            },
        }
    }
}


/// A socket listed by the operating system.
#[derive(Clone, Debug)]
pub struct ConnectionEntry {
    pub local_addr: IpAddress,
    pub local_port: u16,
    pub remote_addr: IpAddress,
    pub remote_port: u16,
    pub inode: u64,
    /// "Established", "Listen" and so on.
    pub state: String,
}

/// Sockets and their owners as listed by the operating system.
#[derive(Clone, Debug)]
pub struct ConnectionMap {
    /// Socket inode -> owning process and its name.
    pub socket_to_pid: Vec<SocketOwner>,
    pub tcp_connections: Vec<ConnectionEntry>,
    pub tcp6_connections: Vec<ConnectionEntry>,
    pub udp_connections: Vec<ConnectionEntry>,
    pub udp6_connections: Vec<ConnectionEntry>,
}

impl ConnectionMap {
    /// A map with no sockets.
    pub fn new() -> (r: Self)
        ensures
            r.socket_to_pid@.len() == 0,
            r.tcp_connections@.len() == 0,
            r.tcp6_connections@.len() == 0,
            r.udp_connections@.len() == 0,
            r.udp6_connections@.len() == 0,
    {
        ConnectionMap {
            socket_to_pid: Vec::new(),
            tcp_connections: Vec::new(),
            tcp6_connections: Vec::new(),
            udp_connections: Vec::new(),
            udp6_connections: Vec::new(),
        }
    }
}

/// The connection table and the processes that own connections, derived
/// from a connection map.
pub struct ProcessedConnectionData {
    pub socket_map: Vec<SocketOwner>,
    pub connection_map: Vec<(ConnectionKey, i32)>,
    /// Each process owning a connection, once, in order of first ownership,
    /// with its name.
    pub pids_with_names: Vec<(i32, String)>,
}

/// Owner of the first of the first `n` sockets with this inode.
pub open spec fn spec_socket_pid_in(s: Seq<SocketOwner>, inode: u64, n: int) -> Option<i32>
    decreases n,
{
    if n <= 0 {
        None
    } else {
        match spec_socket_pid_in(s, inode, n - 1) {
            Some(p) => Some(p),
            None => if s[n - 1].inode == inode {
                Some(s[n - 1].pid)
            } else {
                None
            },
        }
    }
}

/// Owner of the first socket with this inode.
pub open spec fn spec_socket_pid(s: Seq<SocketOwner>, inode: u64) -> Option<i32> {
    spec_socket_pid_in(s, inode, s.len() as int)
}

proof fn lemma_socket_pid_stable(s: Seq<SocketOwner>, inode: u64, n: int, m: int)
    requires
        0 <= n <= m,
        spec_socket_pid_in(s, inode, n) is Some,
    ensures
        spec_socket_pid_in(s, inode, m) == spec_socket_pid_in(s, inode, n),
    decreases m - n,
{
    if m > n {
        lemma_socket_pid_stable(s, inode, n, m - 1);
    }
}

/// The process owning the socket with this inode.
pub fn socket_pid(s: &Vec<SocketOwner>, inode: u64) -> (r: Option<i32>)
    ensures
        r == spec_socket_pid(s@, inode),
{
    let mut i: usize = 0;
    while i < s.len()
        invariant
            i <= s@.len(),
            spec_socket_pid_in(s@, inode, i as int) is None,
        decreases s@.len() - i,
    {
        if s[i].inode == inode {
            proof {
                lemma_socket_pid_stable(s@, inode, i + 1, s@.len() as int);
            }
            return Some(s[i].pid);
        }
        i = i + 1;
    }
    None
}

/// Index of the first of the first `n` table entries with this key.
pub open spec fn spec_find_key_in(t: Seq<(ConnectionKey, i32)>, key: ConnectionKey, n: int) -> Option<int>
    decreases n,
{
    if n <= 0 {
        None
    } else {
        match spec_find_key_in(t, key, n - 1) {
            Some(i) => Some(i),
            None => if t[n - 1].0 == key {
                Some(n - 1)
            } else {
                None
            },
        }
    }
}

proof fn lemma_find_key_stable(t: Seq<(ConnectionKey, i32)>, key: ConnectionKey, n: int, m: int)
    requires
        0 <= n <= m,
        spec_find_key_in(t, key, n) is Some,
    ensures
        spec_find_key_in(t, key, m) == spec_find_key_in(t, key, n),
    decreases m - n,
{
    if m > n {
        lemma_find_key_stable(t, key, n, m - 1);
    }
}

/// The table with `key` owned by `pid`: the entry's owner replaced, or the
/// entry appended.
pub open spec fn spec_upsert(t: Seq<(ConnectionKey, i32)>, key: ConnectionKey, pid: i32) -> Seq<
    (ConnectionKey, i32),
> {
    match spec_find_key_in(t, key, t.len() as int) {
        Some(i) => t.update(i, (key, pid)),
        None => t.push((key, pid)),
    }
}

fn upsert(t: &mut Vec<(ConnectionKey, i32)>, key: ConnectionKey, pid: i32)
    ensures
        final(t)@ == spec_upsert(old(t)@, key, pid),
{
    let mut i: usize = 0;
    while i < t.len()
        invariant
            i <= t@.len(),
            t@ == old(t)@,
            spec_find_key_in(t@, key, i as int) is None,
        decreases t@.len() - i,
    {
        if t[i].0 == key {
            proof {
                lemma_find_key_stable(t@, key, i + 1, t@.len() as int);
            }
            t.set(i, (key, pid));
            return;
        }
        i = i + 1;
    }
    t.push((key, pid));
}

/// The table key of a listed socket.
pub open spec fn spec_entry_key(e: ConnectionEntry, protocol: Protocol) -> ConnectionKey {
    ConnectionKey {
        local_addr: e.local_addr,
        local_port: e.local_port,
        remote_addr: e.remote_addr,
        remote_port: e.remote_port,
        protocol,
    }
}

/// The table after adding the first `n` listed sockets whose owner is known.
pub open spec fn spec_add_connections(
    t: Seq<(ConnectionKey, i32)>,
    entries: Seq<ConnectionEntry>,
    owners: Seq<SocketOwner>,
    protocol: Protocol,
    n: int,
) -> Seq<(ConnectionKey, i32)>
    decreases n,
{
    if n <= 0 {
        t
    } else {
        let prev = spec_add_connections(t, entries, owners, protocol, n - 1);
        match spec_socket_pid(owners, entries[n - 1].inode) {
            Some(pid) => spec_upsert(prev, spec_entry_key(entries[n - 1], protocol), pid),
            None => prev,
        }
    }
}

fn add_connections(
    t: &mut Vec<(ConnectionKey, i32)>,
    entries: &Vec<ConnectionEntry>,
    owners: &Vec<SocketOwner>,
    protocol: Protocol,
)
    ensures
        final(t)@ == spec_add_connections(
            old(t)@,
            entries@,
            owners@,
            protocol,
            entries@.len() as int,
        ),
{
    let mut i: usize = 0;
    while i < entries.len()
        invariant
            i <= entries@.len(),
            t@ == spec_add_connections(old(t)@, entries@, owners@, protocol, i as int),
        decreases entries@.len() - i,
    {
        let e = &entries[i];
        match socket_pid(owners, e.inode) {
            Some(pid) => {
                let key = ConnectionKey {
                    local_addr: e.local_addr,
                    local_port: e.local_port,
                    remote_addr: e.remote_addr,
                    remote_port: e.remote_port,
                    protocol,
                };
                upsert(t, key, pid);
            },
            None => {},
        }
        i = i + 1;
    }
}

/// The connection table of a connection map: TCP, TCP6, UDP and UDP6
/// sockets in that order, each owned by the process owning its inode; a
/// later socket with the same key replaces the owner.
pub open spec fn spec_connection_table(m: ConnectionMap) -> Seq<(ConnectionKey, i32)> {
    let owners = m.socket_to_pid@;
    let t1 = spec_add_connections(
        Seq::empty(),
        m.tcp_connections@,
        owners,
        Protocol::Tcp,
        m.tcp_connections@.len() as int,
    );
    let t2 = spec_add_connections(
        t1,
        m.tcp6_connections@,
        owners,
        Protocol::Tcp,
        m.tcp6_connections@.len() as int,
    );
    let t3 = spec_add_connections(
        t2,
        m.udp_connections@,
        owners,
        Protocol::Udp,
        m.udp_connections@.len() as int,
    );
    spec_add_connections(
        t3,
        m.udp6_connections@,
        owners,
        Protocol::Udp,
        m.udp6_connections@.len() as int,
    )
}

/// The owners of the first `n` table entries, each once, in order of first appearance.
pub open spec fn spec_distinct_owners(t: Seq<(ConnectionKey, i32)>, n: int) -> Seq<i32>
    decreases n,
{
    if n <= 0 {
        Seq::empty()
    } else {
        let prev = spec_distinct_owners(t, n - 1);
        if prev.contains(t[n - 1].1) {
            prev
        } else {
            prev.push(t[n - 1].1)
        }
    }
}

fn contains_pid(v: &Vec<(i32, String)>, pid: i32) -> (r: bool)
    ensures
        r == exists|j: int| 0 <= j < v@.len() && v@[j].0 == pid,
{
    let mut i: usize = 0;
    while i < v.len()
        invariant
            i <= v@.len(),
            forall|j: int| 0 <= j < i ==> v@[j].0 != pid,
        decreases v@.len() - i,
    {
        if v[i].0 == pid {
            return true;
        }
        i = i + 1;
    }
    false
}

/// Build the connection table of a connection map, and list the processes
/// that own connections with their names.
pub fn process_connection_map(conn_map: &ConnectionMap) -> (r: ProcessedConnectionData)
    ensures
        r.socket_map@ == conn_map.socket_to_pid@,
        r.connection_map@ == spec_connection_table(*conn_map),
        r.pids_with_names@.len() == spec_distinct_owners(
            r.connection_map@,
            r.connection_map@.len() as int,
        ).len(),
        forall|j: int|
            0 <= j < r.pids_with_names@.len() ==> (#[trigger] r.pids_with_names@[j]).0
                == spec_distinct_owners(r.connection_map@, r.connection_map@.len() as int)[j]
                && r.pids_with_names@[j].1@ == spec_process_name(conn_map.socket_to_pid@, r.pids_with_names@[j].0),
{
    let owners = &conn_map.socket_to_pid;
    let mut table: Vec<(ConnectionKey, i32)> = Vec::new();
    add_connections(&mut table, &conn_map.tcp_connections, owners, Protocol::Tcp);
    add_connections(&mut table, &conn_map.tcp6_connections, owners, Protocol::Tcp);
    add_connections(&mut table, &conn_map.udp_connections, owners, Protocol::Udp);
    add_connections(&mut table, &conn_map.udp6_connections, owners, Protocol::Udp);
    let mut pids_with_names: Vec<(i32, String)> = Vec::new();
    let mut i: usize = 0;
    while i < table.len()
        invariant
            i <= table@.len(),
            pids_with_names@.len() == spec_distinct_owners(table@, i as int).len(),
            forall|j: int|
                0 <= j < pids_with_names@.len() ==> (#[trigger] pids_with_names@[j]).0
                    == spec_distinct_owners(table@, i as int)[j] && pids_with_names@[j].1@
                    == spec_process_name(owners@, pids_with_names@[j].0),
        decreases table@.len() - i,
    {
        let pid = table[i].1;
        let seen = contains_pid(&pids_with_names, pid);
        proof {
            let d = spec_distinct_owners(table@, i as int);
            if seen {
                let j = choose|j: int| 0 <= j < pids_with_names@.len() && pids_with_names@[j].0 == pid;
                assert(d[j] == pid);
                assert(d.contains(pid));
            } else {
                if d.contains(pid) {
                    let j = choose|j: int| 0 <= j < d.len() && d[j] == pid;
                    assert(pids_with_names@[j].0 == pid);
                }
            }
        }
        if !seen {
            let name = process_name(owners, pid);
            pids_with_names.push((pid, name));
        }
        i = i + 1;
    }
    let socket_map = copy_owners(owners);
    ProcessedConnectionData { socket_map, connection_map: table, pids_with_names }
}


/// The process table after making sure that each listed process has an
/// entry: a missing process gets zero counters under the listed name.
pub open spec fn spec_ensure_processes(
    table: Seq<(i32, ProcessBandwidth)>,
    listed: Seq<(i32, String)>,
    n: int,
) -> Seq<(i32, ProcessBandwidth)>
    decreases n,
{
    if n <= 0 {
        table
    } else {
        let prev = spec_ensure_processes(table, listed, n - 1);
        if spec_find_process(prev, listed[n - 1].0) is Some {
            prev
        } else {
            prev.push(
                (
                    listed[n - 1].0,
                    ProcessBandwidth { name: listed[n - 1].1, counters: spec_zero_counters() },
                ),
            )
        }
    }
}

impl BandwidthTracker {
    /// Install a freshly built connection table and socket owner list, and
    /// give every process that owns a connection an entry, so that it shows
    /// before any of its packets is captured.
    pub fn apply_connection_map(&mut self, processed: ProcessedConnectionData)
        ensures
            final(self).socket_map@ == processed.socket_map@,
            final(self).connection_map@ == processed.connection_map@,
            final(self).process_bandwidth@ == spec_ensure_processes(
                old(self).process_bandwidth@,
                processed.pids_with_names@,
                processed.pids_with_names@.len() as int,
            ),
            final(self).terminated_processes@ == old(self).terminated_processes@,
            final(self).interface_bandwidth@ == old(self).interface_bandwidth@,
            final(self).process_interface_bandwidth@ == old(self).process_interface_bandwidth@,
            final(self).packets_captured == old(self).packets_captured,
            final(self).packets_matched == old(self).packets_matched,
            final(self).packets_unmatched == old(self).packets_unmatched,
            old(self).spec_consistent() ==> final(self).spec_consistent(),
    {
        let ProcessedConnectionData { socket_map, connection_map, pids_with_names } = processed;
        self.socket_map = socket_map;
        self.connection_map = connection_map;
        let mut i: usize = 0;
        while i < pids_with_names.len()
            invariant
                i <= pids_with_names@.len(),
                pids_with_names@ == processed.pids_with_names@,
                self.process_bandwidth@ == spec_ensure_processes(
                    old(self).process_bandwidth@,
                    pids_with_names@,
                    i as int,
                ),
                self.terminated_processes@ == old(self).terminated_processes@,
                self.interface_bandwidth@ == old(self).interface_bandwidth@,
                self.process_interface_bandwidth@ == old(self).process_interface_bandwidth@,
                self.packets_captured == old(self).packets_captured,
                self.packets_matched == old(self).packets_matched,
                self.packets_unmatched == old(self).packets_unmatched,
                self.socket_map@ == processed.socket_map@,
                self.connection_map@ == processed.connection_map@,
                old(self).spec_consistent() ==> self.spec_consistent(),
            decreases pids_with_names@.len() - i,
        {
            let pid = pids_with_names[i].0;
            if find_process(&self.process_bandwidth, pid).is_none() {
                let name = pids_with_names[i].1.clone();
                let ghost prev = self.process_bandwidth@;
                self.process_bandwidth.push(
                    (pid, ProcessBandwidth { name, counters: TrafficCounters::zero() }),
                );
                proof {
                    if old(self).spec_consistent() {
                        assert forall|j: int|
                            0 <= j < self.process_bandwidth@.len() implies spec_counters_consistent(
                            #[trigger] self.process_bandwidth@[j].1.counters,
                        ) by {
                            if j < prev.len() {
                                assert(self.process_bandwidth@[j] == prev[j]);
                            }
                        }
                    }
                }
            }
            i = i + 1;
        }
    }
}

/// Counters with the previous-update values set to the current totals.
pub open spec fn spec_reset(c: TrafficCounters) -> TrafficCounters {
    TrafficCounters {
        last_rx_bytes: c.rx_bytes,
        last_tx_bytes: c.tx_bytes,
        last_internet_rx_bytes: c.internet_rx_bytes,
        last_internet_tx_bytes: c.internet_tx_bytes,
        last_local_rx_bytes: c.local_rx_bytes,
        last_local_tx_bytes: c.local_tx_bytes,
        ..c
    }
}

/// `a - b`, or zero when `b` exceeds `a`.
pub open spec fn spec_sat_sub(a: u64, b: u64) -> u64 {
    if a >= b { (a - b) as u64 } else { 0 }
}

/// How long a terminated process stays visible, in nanoseconds.
pub const TERMINATED_DISPLAY_NS: u64 = 5_000_000_000;

/// What an update does with a process.
#[derive(Clone, Copy, Debug, PartialEq, Eq, Structural)]
pub enum ProcessStatus {
    /// Running: shown with its rates.
    Live,
    /// Terminated less than the display duration ago: shown without rates.
    Terminated,
    /// Seen terminated for the first time: shown without rates, time recorded.
    NewlyTerminated,
    /// Terminated longer ago: removed.
    Expired,
}

/// First of the first `n` existence flags for this pid.
pub open spec fn spec_flag_in(cache: Seq<(i32, bool)>, pid: i32, n: int) -> Option<bool>
    decreases n,
{
    if n <= 0 {
        None
    } else {
        match spec_flag_in(cache, pid, n - 1) {
            Some(b) => Some(b),
            None => if cache[n - 1].0 == pid {
                Some(cache[n - 1].1)
            } else {
                None
            },
        }
    }
}

/// Whether a process exists according to the cache; unknown processes exist.
pub open spec fn spec_process_exists(cache: Seq<(i32, bool)>, pid: i32) -> bool {
    match spec_flag_in(cache, pid, cache.len() as int) {
        Some(b) => b,
        None => true,
    }
}

/// First of the first `n` termination times for this pid.
pub open spec fn spec_term_in(terms: Seq<(i32, u64)>, pid: i32, n: int) -> Option<u64>
    decreases n,
{
    if n <= 0 {
        None
    } else {
        match spec_term_in(terms, pid, n - 1) {
            Some(t) => Some(t),
            None => if terms[n - 1].0 == pid {
                Some(terms[n - 1].1)
            } else {
                None
            },
        }
    }
}

/// What an update at `now_ns` does with process `pid`.
pub open spec fn spec_status(
    cache: Seq<(i32, bool)>,
    terms: Seq<(i32, u64)>,
    pid: i32,
    now_ns: u64,
) -> ProcessStatus {
    if spec_process_exists(cache, pid) {
        ProcessStatus::Live
    } else {
        match spec_term_in(terms, pid, terms.len() as int) {
            Some(t) => if spec_sat_sub(now_ns, t) < TERMINATED_DISPLAY_NS {
                ProcessStatus::Terminated
            } else {
                ProcessStatus::Expired
            },
            None => ProcessStatus::NewlyTerminated,
        }
    }
}

proof fn lemma_flag_stable(cache: Seq<(i32, bool)>, pid: i32, n: int, m: int)
    requires
        0 <= n <= m,
        spec_flag_in(cache, pid, n) is Some,
    ensures
        spec_flag_in(cache, pid, m) == spec_flag_in(cache, pid, n),
    decreases m - n,
{
    if m > n {
        lemma_flag_stable(cache, pid, n, m - 1);
    }
}

proof fn lemma_term_stable(terms: Seq<(i32, u64)>, pid: i32, n: int, m: int)
    requires
        0 <= n <= m,
        spec_term_in(terms, pid, n) is Some,
    ensures
        spec_term_in(terms, pid, m) == spec_term_in(terms, pid, n),
    decreases m - n,
{
    if m > n {
        lemma_term_stable(terms, pid, n, m - 1);
    }
}

fn process_exists(cache: &Vec<(i32, bool)>, pid: i32) -> (r: bool)
    ensures
        r == spec_process_exists(cache@, pid),
{
    let mut i: usize = 0;
    while i < cache.len()
        invariant
            i <= cache@.len(),
            spec_flag_in(cache@, pid, i as int) is None,
        decreases cache@.len() - i,
    {
        if cache[i].0 == pid {
            proof {
                lemma_flag_stable(cache@, pid, i + 1, cache@.len() as int);
            }
            return cache[i].1;
        }
        i = i + 1;
    }
    true
}

fn termination_time(terms: &Vec<(i32, u64)>, pid: i32) -> (r: Option<u64>)
    ensures
        r == spec_term_in(terms@, pid, terms@.len() as int),
{
    let mut i: usize = 0;
    while i < terms.len()
        invariant
            i <= terms@.len(),
            spec_term_in(terms@, pid, i as int) is None,
        decreases terms@.len() - i,
    {
        if terms[i].0 == pid {
            proof {
                lemma_term_stable(terms@, pid, i + 1, terms@.len() as int);
            }
            return Some(terms[i].1);
        }
        i = i + 1;
    }
    None
}

/// What an update at `now_ns` does with process `pid`.
pub fn process_status(cache: &Vec<(i32, bool)>, terms: &Vec<(i32, u64)>, pid: i32, now_ns: u64) -> (r:
    ProcessStatus)
    ensures
        r == spec_status(cache@, terms@, pid, now_ns),
{
    if process_exists(cache, pid) {
        return ProcessStatus::Live;
    }
    match termination_time(terms, pid) {
        Some(t) => {
            let since = now_ns.saturating_sub(t);
            if since < TERMINATED_DISPLAY_NS {
                ProcessStatus::Terminated
            } else {
                ProcessStatus::Expired
            }
        },
        None => ProcessStatus::NewlyTerminated,
    }
}

/// A process's totals and the bytes counted since the previous update.
#[derive(Clone, Copy, Debug, PartialEq, Eq, Structural)]
pub struct TrafficSample {
    pub total_download: u64,
    pub total_upload: u64,
    pub download_delta: u64,
    pub upload_delta: u64,
    pub internet_total_download: u64,
    pub internet_total_upload: u64,
    pub internet_download_delta: u64,
    pub internet_upload_delta: u64,
    pub local_total_download: u64,
    pub local_total_upload: u64,
    pub local_download_delta: u64,
    pub local_upload_delta: u64,
}

/// The sample of a process's counters; a terminated process has no deltas.
pub open spec fn spec_traffic_sample(c: TrafficCounters, live: bool) -> TrafficSample {
    TrafficSample {
        total_download: c.rx_bytes,
        total_upload: c.tx_bytes,
        download_delta: if live { spec_sat_sub(c.rx_bytes, c.last_rx_bytes) } else { 0 },
        upload_delta: if live { spec_sat_sub(c.tx_bytes, c.last_tx_bytes) } else { 0 },
        internet_total_download: c.internet_rx_bytes,
        internet_total_upload: c.internet_tx_bytes,
        internet_download_delta: if live {
            spec_sat_sub(c.internet_rx_bytes, c.last_internet_rx_bytes)
        } else {
            0
        },
        internet_upload_delta: if live {
            spec_sat_sub(c.internet_tx_bytes, c.last_internet_tx_bytes)
        } else {
            0
        },
        local_total_download: c.local_rx_bytes,
        local_total_upload: c.local_tx_bytes,
        local_download_delta: if live { spec_sat_sub(c.local_rx_bytes, c.last_local_rx_bytes) } else { 0 },
        local_upload_delta: if live { spec_sat_sub(c.local_tx_bytes, c.last_local_tx_bytes) } else { 0 },
    }
}

/// Sample of a process's counters; a terminated process has no deltas.
pub fn traffic_sample(c: &TrafficCounters, live: bool) -> (r: TrafficSample)
    ensures
        r == spec_traffic_sample(*c, live),
{
    TrafficSample {
        total_download: c.rx_bytes,
        total_upload: c.tx_bytes,
        download_delta: if live { c.rx_bytes.saturating_sub(c.last_rx_bytes) } else { 0 },
        upload_delta: if live { c.tx_bytes.saturating_sub(c.last_tx_bytes) } else { 0 },
        internet_total_download: c.internet_rx_bytes,
        internet_total_upload: c.internet_tx_bytes,
        internet_download_delta: if live {
            c.internet_rx_bytes.saturating_sub(c.last_internet_rx_bytes)
        } else {
            0
        },
        internet_upload_delta: if live {
            c.internet_tx_bytes.saturating_sub(c.last_internet_tx_bytes)
        } else {
            0
        },
        local_total_download: c.local_rx_bytes,
        local_total_upload: c.local_tx_bytes,
        local_download_delta: if live {
            c.local_rx_bytes.saturating_sub(c.last_local_rx_bytes)
        } else {
            0
        },
        local_upload_delta: if live {
            c.local_tx_bytes.saturating_sub(c.last_local_tx_bytes)
        } else {
            0
        },
    }
}

/// A process as shown after an update.
#[derive(Clone, Debug)]
pub struct ProcessSample {
    pub pid: i32,
    pub name: String,
    pub is_terminated: bool,
    pub traffic: TrafficSample,
    /// The process's samples per interface; none for a terminated process.
    pub interfaces: Vec<PairSample>,
}

/// Bytes a process moved on one interface: totals and deltas.
#[derive(Clone, Debug)]
pub struct PairSample {
    pub pid: i32,
    pub interface: String,
    pub total_download: u64,
    pub total_upload: u64,
    pub download_delta: u64,
    pub upload_delta: u64,
    pub internet_download_delta: u64,
    pub internet_upload_delta: u64,
    pub local_download_delta: u64,
    pub local_upload_delta: u64,
}

/// Whether a pair sample belongs to `pid`.
pub open spec fn spec_pair_of(pid: i32) -> spec_fn(PairSample) -> bool {
    |s: PairSample| s.pid == pid
}

/// An interface's deltas and the number of processes seen on it.
#[derive(Clone, Debug)]
pub struct InterfaceUsage {
    pub name: String,
    pub download_delta: u64,
    pub upload_delta: u64,
    pub process_count: usize,
}

/// Number of the first `n` process-interface entries on this interface.
pub open spec fn spec_count_on_in(s: Seq<ProcessInterfaceBandwidth>, name: Seq<char>, n: int) -> nat
    decreases n,
{
    if n <= 0 {
        0
    } else {
        spec_count_on_in(s, name, n - 1) + if s[n - 1].interface@ == name { 1nat } else { 0nat }
    }
}

/// The pair samples of one process, in table order.
pub fn interfaces_of(pairs: &Vec<PairSample>, pid: i32) -> (r: Vec<PairSample>)
    ensures
        r@ == pairs@.filter(spec_pair_of(pid)),
{
    let mut r: Vec<PairSample> = Vec::new();
    let mut i: usize = 0;
    while i < pairs.len()
        invariant
            i <= pairs@.len(),
            r@ == pairs@.take(i as int).filter(spec_pair_of(pid)),
        decreases pairs@.len() - i,
    {
        proof {
            assert(pairs@.take(i + 1).drop_last() =~= pairs@.take(i as int));
            reveal_with_fuel(Seq::filter, 1);
        }
        if pairs[i].pid == pid {
            let p = &pairs[i];
            r.push(
                PairSample {
                    pid: p.pid,
                    interface: p.interface.clone(),
                    total_download: p.total_download,
                    total_upload: p.total_upload,
                    download_delta: p.download_delta,
                    upload_delta: p.upload_delta,
                    internet_download_delta: p.internet_download_delta,
                    internet_upload_delta: p.internet_upload_delta,
                    local_download_delta: p.local_download_delta,
                    local_upload_delta: p.local_upload_delta,
                },
            );
        }
        i = i + 1;
    }
    assert(pairs@.take(pairs@.len() as int) =~= pairs@);
    r
}


/// The sample of one process-interface entry.
pub open spec fn spec_pair_sample(e: ProcessInterfaceBandwidth) -> PairSample {
    let c = e.counters;
    PairSample {
        pid: e.pid,
        interface: e.interface,
        total_download: c.rx_bytes,
        total_upload: c.tx_bytes,
        download_delta: spec_sat_sub(c.rx_bytes, c.last_rx_bytes),
        upload_delta: spec_sat_sub(c.tx_bytes, c.last_tx_bytes),
        internet_download_delta: spec_sat_sub(c.internet_rx_bytes, c.last_internet_rx_bytes),
        internet_upload_delta: spec_sat_sub(c.internet_tx_bytes, c.last_internet_tx_bytes),
        local_download_delta: spec_sat_sub(c.local_rx_bytes, c.last_local_rx_bytes),
        local_upload_delta: spec_sat_sub(c.local_tx_bytes, c.last_local_tx_bytes),
    }
}

fn pair_samples(pairs: &Vec<ProcessInterfaceBandwidth>) -> (r: Vec<PairSample>)
    ensures
        r@.len() == pairs@.len(),
        forall|j: int| 0 <= j < pairs@.len() ==> r@[j] == spec_pair_sample(#[trigger] pairs@[j]),
{
    let mut r: Vec<PairSample> = Vec::new();
    let mut i: usize = 0;
    while i < pairs.len()
        invariant
            i <= pairs@.len(),
            r@.len() == i,
            forall|j: int| 0 <= j < i ==> r@[j] == spec_pair_sample(#[trigger] pairs@[j]),
        decreases pairs@.len() - i,
    {
        let e = &pairs[i];
        let c = &e.counters;
        r.push(
            PairSample {
                pid: e.pid,
                interface: e.interface.clone(),
                total_download: c.rx_bytes,
                total_upload: c.tx_bytes,
                download_delta: c.rx_bytes.saturating_sub(c.last_rx_bytes),
                upload_delta: c.tx_bytes.saturating_sub(c.last_tx_bytes),
                internet_download_delta: c.internet_rx_bytes.saturating_sub(
                    c.last_internet_rx_bytes,
                ),
                internet_upload_delta: c.internet_tx_bytes.saturating_sub(
                    c.last_internet_tx_bytes,
                ),
                local_download_delta: c.local_rx_bytes.saturating_sub(c.last_local_rx_bytes),
                local_upload_delta: c.local_tx_bytes.saturating_sub(c.last_local_tx_bytes),
            },
        );
        i = i + 1;
    }
    r
}

fn count_on(pairs: &Vec<ProcessInterfaceBandwidth>, name: &String) -> (r: usize)
    ensures
        r == spec_count_on_in(pairs@, name@, pairs@.len() as int),
{
    let mut count: usize = 0;
    let mut i: usize = 0;
    while i < pairs.len()
        invariant
            i <= pairs@.len(),
            count == spec_count_on_in(pairs@, name@, i as int),
            count <= i,
        decreases pairs@.len() - i,
    {
        if pairs[i].interface == *name {
            count = count + 1;
        }
        i = i + 1;
    }
    count
}

/// The usage of a named interface: its deltas (zero when it has no
/// counters) and the number of process-interface entries on it.
pub open spec fn spec_interface_usage(
    interfaces: Seq<InterfaceBandwidth>,
    pairs: Seq<ProcessInterfaceBandwidth>,
    name: Seq<char>,
    u: InterfaceUsage,
) -> bool {
    &&& u.name@ == name
    &&& u.process_count == spec_count_on_in(pairs, name, pairs.len() as int)
    &&& match spec_find_interface(interfaces, name) {
        Some(i) => u.download_delta == spec_sat_sub(interfaces[i].rx_bytes, interfaces[i].last_rx_bytes)
            && u.upload_delta == spec_sat_sub(interfaces[i].tx_bytes, interfaces[i].last_tx_bytes),
        None => u.download_delta == 0 && u.upload_delta == 0,
    }
}

fn interface_usage(
    interfaces: &Vec<InterfaceBandwidth>,
    pairs: &Vec<ProcessInterfaceBandwidth>,
    names: &Vec<String>,
) -> (r: Vec<InterfaceUsage>)
    ensures
        r@.len() == names@.len(),
        forall|k: int|
            0 <= k < names@.len() ==> spec_interface_usage(
                interfaces@,
                pairs@,
                names@[k]@,
                #[trigger] r@[k],
            ),
{
    let mut r: Vec<InterfaceUsage> = Vec::new();
    let mut k: usize = 0;
    while k < names.len()
        invariant
            k <= names@.len(),
            r@.len() == k,
            forall|j: int|
                0 <= j < k ==> spec_interface_usage(interfaces@, pairs@, names@[j]@, #[trigger] r@[j]),
        decreases names@.len() - k,
    {
        let name = &names[k];
        let (download_delta, upload_delta) = match find_interface(interfaces, name) {
            Some(i) => (
                interfaces[i].rx_bytes.saturating_sub(interfaces[i].last_rx_bytes),
                interfaces[i].tx_bytes.saturating_sub(interfaces[i].last_tx_bytes),
            ),
            None => (0, 0),
        };
        let process_count = count_on(pairs, name);
        r.push(InterfaceUsage { name: name.clone(), download_delta, upload_delta, process_count });
        k = k + 1;
    }
    r
}

/// The process table after an update: expired processes removed, the
/// others with their previous-update values set to the current totals.
pub open spec fn spec_kept_in(
    table: Seq<(i32, ProcessBandwidth)>,
    cache: Seq<(i32, bool)>,
    terms: Seq<(i32, u64)>,
    now_ns: u64,
    n: int,
) -> Seq<(i32, ProcessBandwidth)>
    decreases n,
{
    if n <= 0 {
        Seq::empty()
    } else {
        let prev = spec_kept_in(table, cache, terms, now_ns, n - 1);
        let (pid, b) = table[n - 1];
        if spec_status(cache, terms, pid, now_ns) == ProcessStatus::Expired {
            prev
        } else {
            prev.push((pid, ProcessBandwidth { name: b.name, counters: spec_reset(b.counters) }))
        }
    }
}

/// The processes of the first `n` table entries seen terminated for the
/// first time, with the update's time.
pub open spec fn spec_newly_in(
    table: Seq<(i32, ProcessBandwidth)>,
    cache: Seq<(i32, bool)>,
    terms: Seq<(i32, u64)>,
    now_ns: u64,
    n: int,
) -> Seq<(i32, u64)>
    decreases n,
{
    if n <= 0 {
        Seq::empty()
    } else {
        let prev = spec_newly_in(table, cache, terms, now_ns, n - 1);
        let pid = table[n - 1].0;
        if spec_status(cache, terms, pid, now_ns) == ProcessStatus::NewlyTerminated {
            prev.push((pid, now_ns))
        } else {
            prev
        }
    }
}

/// Whether an update removes process `pid`.
pub open spec fn spec_is_expired(
    table: Seq<(i32, ProcessBandwidth)>,
    cache: Seq<(i32, bool)>,
    terms: Seq<(i32, u64)>,
    now_ns: u64,
    pid: i32,
) -> bool {
    &&& exists|j: int| 0 <= j < table.len() && table[j].0 == pid
    &&& spec_status(cache, terms, pid, now_ns) == ProcessStatus::Expired
}

/// The first `n` termination records that an update keeps.
pub open spec fn spec_terms_kept_in(
    table: Seq<(i32, ProcessBandwidth)>,
    cache: Seq<(i32, bool)>,
    terms: Seq<(i32, u64)>,
    now_ns: u64,
    n: int,
) -> Seq<(i32, u64)>
    decreases n,
{
    if n <= 0 {
        Seq::empty()
    } else {
        let prev = spec_terms_kept_in(table, cache, terms, now_ns, n - 1);
        if spec_is_expired(table, cache, terms, now_ns, terms[n - 1].0) {
            prev
        } else {
            prev.push(terms[n - 1])
        }
    }
}

/// What one update reports.
pub struct TrackerSnapshot {
    /// One entry per process-table entry before the update, in table order;
    /// `None` for a process the update removes.
    pub processes: Vec<Option<ProcessSample>>,
    /// One sample per process-interface entry, in table order.
    pub pairs: Vec<PairSample>,
    /// One usage per requested interface name, in the order given.
    pub interfaces: Vec<InterfaceUsage>,
}

/// The sample reported for process entry `e` with status `st`.
pub open spec fn spec_process_reported(
    e: (i32, ProcessBandwidth),
    st: ProcessStatus,
    pairs: Seq<PairSample>,
    r: Option<ProcessSample>,
) -> bool {
    if st == ProcessStatus::Expired {
        r is None
    } else {
        &&& r matches Some(s)
        &&& s.pid == e.0
        &&& s.name == e.1.name
        &&& s.is_terminated == (st != ProcessStatus::Live)
        &&& s.traffic == spec_traffic_sample(e.1.counters, st == ProcessStatus::Live)
        &&& s.interfaces@ == (if st == ProcessStatus::Live {
            pairs.filter(spec_pair_of(e.0))
        } else {
            Seq::empty()
        })
    }
}

fn contains_i32(v: &Vec<i32>, x: i32) -> (r: bool)
    ensures
        r == v@.contains(x),
{
    let mut i: usize = 0;
    while i < v.len()
        invariant
            i <= v@.len(),
            forall|j: int| 0 <= j < i ==> v@[j] != x,
        decreases v@.len() - i,
    {
        if v[i] == x {
            assert(v@[i as int] == x);
            return true;
        }
        i = i + 1;
    }
    false
}

impl BandwidthTracker {
    /// Report every process and interface at time `now_ns` and start a new
    /// counting interval.
    ///
    /// `process_exists` says which processes are still running (a process
    /// not listed is taken to run); `interface_names` lists the interfaces to
    /// report. A running process is reported with the bytes counted since the
    /// previous update. A process that stopped is reported without deltas for
    /// five seconds from the update that first saw it stopped, then removed.
    pub fn update(
        &mut self,
        now_ns: u64,
        process_exists: &Vec<(i32, bool)>,
        interface_names: &Vec<String>,
    ) -> (r: TrackerSnapshot)
        ensures
            r.pairs@.len() == old(self).process_interface_bandwidth@.len(),
            forall|j: int|
                0 <= j < r.pairs@.len() ==> r.pairs@[j] == spec_pair_sample(
                    #[trigger] old(self).process_interface_bandwidth@[j],
                ),
            r.processes@.len() == old(self).process_bandwidth@.len(),
            forall|j: int|
                0 <= j < r.processes@.len() ==> spec_process_reported(
                    old(self).process_bandwidth@[j],
                    spec_status(
                        process_exists@,
                        old(self).terminated_processes@,
                        old(self).process_bandwidth@[j].0,
                        now_ns,
                    ),
                    r.pairs@,
                    #[trigger] r.processes@[j],
                ),
            r.interfaces@.len() == interface_names@.len(),
            forall|k: int|
                0 <= k < interface_names@.len() ==> spec_interface_usage(
                    old(self).interface_bandwidth@,
                    old(self).process_interface_bandwidth@,
                    interface_names@[k]@,
                    #[trigger] r.interfaces@[k],
                ),
            final(self).process_bandwidth@ == spec_kept_in(
                old(self).process_bandwidth@,
                process_exists@,
                old(self).terminated_processes@,
                now_ns,
                old(self).process_bandwidth@.len() as int,
            ),
            final(self).terminated_processes@ == spec_terms_kept_in(
                old(self).process_bandwidth@,
                process_exists@,
                old(self).terminated_processes@,
                now_ns,
                old(self).terminated_processes@.len() as int,
            ) + spec_newly_in(
                old(self).process_bandwidth@,
                process_exists@,
                old(self).terminated_processes@,
                now_ns,
                old(self).process_bandwidth@.len() as int,
            ),
            final(self).process_interface_bandwidth@.len()
                == old(self).process_interface_bandwidth@.len(),
            forall|j: int|
                0 <= j < final(self).process_interface_bandwidth@.len()
                    ==> #[trigger] final(self).process_interface_bandwidth@[j]
                    == (ProcessInterfaceBandwidth {
                    counters: spec_reset(old(self).process_interface_bandwidth@[j].counters),
                    ..old(self).process_interface_bandwidth@[j]
                }),
            final(self).interface_bandwidth@.len() == old(self).interface_bandwidth@.len(),
            forall|j: int|
                0 <= j < final(self).interface_bandwidth@.len()
                    ==> #[trigger] final(self).interface_bandwidth@[j] == (InterfaceBandwidth {
                    last_rx_bytes: old(self).interface_bandwidth@[j].rx_bytes,
                    last_tx_bytes: old(self).interface_bandwidth@[j].tx_bytes,
                    ..old(self).interface_bandwidth@[j]
                }),
            final(self).connection_map@ == old(self).connection_map@,
            final(self).socket_map@ == old(self).socket_map@,
            final(self).packets_captured == old(self).packets_captured,
            final(self).packets_matched == old(self).packets_matched,
            final(self).packets_unmatched == old(self).packets_unmatched,
    {
        let pairs = pair_samples(&self.process_interface_bandwidth);
        let interfaces = interface_usage(
            &self.interface_bandwidth,
            &self.process_interface_bandwidth,
            interface_names,
        );
        let ghost table = self.process_bandwidth@;
        let ghost terms = self.terminated_processes@;
        let mut processes: Vec<Option<ProcessSample>> = Vec::new();
        let mut kept: Vec<(i32, ProcessBandwidth)> = Vec::new();
        let mut expired: Vec<i32> = Vec::new();
        let mut newly: Vec<(i32, u64)> = Vec::new();
        let mut i: usize = 0;
        while i < self.process_bandwidth.len()
            invariant
                i <= table.len(),
                self.process_bandwidth@ == table,
                self.terminated_processes@ == terms,
                processes@.len() == i,
                forall|j: int|
                    0 <= j < i ==> spec_process_reported(
                        table[j],
                        spec_status(process_exists@, terms, table[j].0, now_ns),
                        pairs@,
                        #[trigger] processes@[j],
                    ),
                kept@ == spec_kept_in(table, process_exists@, terms, now_ns, i as int),
                newly@ == spec_newly_in(table, process_exists@, terms, now_ns, i as int),
                forall|pid: i32|
                    expired@.contains(pid) <==> (exists|j: int| 0 <= j < i && table[j].0 == pid)
                        && spec_status(process_exists@, terms, pid, now_ns)
                        == ProcessStatus::Expired,
            decreases table.len() - i,
        {
            let pid = self.process_bandwidth[i].0;
            let entry = &self.process_bandwidth[i].1;
            let status = process_status(process_exists, &self.terminated_processes, pid, now_ns);
            let ghost old_expired = expired@;
            if status == ProcessStatus::Expired {
                processes.push(None);
                expired.push(pid);
            } else {
                let live = status == ProcessStatus::Live;
                let ifaces = if live {
                    interfaces_of(&pairs, pid)
                } else {
                    Vec::new()
                };
                processes.push(
                    Some(
                        ProcessSample {
                            pid,
                            name: entry.name.clone(),
                            is_terminated: !live,
                            traffic: traffic_sample(&entry.counters, live),
                            interfaces: ifaces,
                        },
                    ),
                );
                let c = entry.counters;
                let reset = TrafficCounters {
                    last_rx_bytes: c.rx_bytes,
                    last_tx_bytes: c.tx_bytes,
                    last_internet_rx_bytes: c.internet_rx_bytes,
                    last_internet_tx_bytes: c.internet_tx_bytes,
                    last_local_rx_bytes: c.local_rx_bytes,
                    last_local_tx_bytes: c.local_tx_bytes,
                    ..c
                };
                kept.push((pid, ProcessBandwidth { name: entry.name.clone(), counters: reset }));
                if status == ProcessStatus::NewlyTerminated {
                    newly.push((pid, now_ns));
                }
            }
            proof {
                assert forall|q: i32|
                    expired@.contains(q) <==> (exists|j: int| 0 <= j < i + 1 && table[j].0 == q)
                        && spec_status(process_exists@, terms, q, now_ns)
                        == ProcessStatus::Expired by {
                    if expired@.contains(q) && q != pid {
                        assert(old_expired.contains(q));
                    }
                    if q == pid && status == ProcessStatus::Expired {
                        assert(expired@[expired@.len() - 1] == q);
                    }
                    if (exists|j: int| 0 <= j < i + 1 && table[j].0 == q) && spec_status(
                        process_exists@,
                        terms,
                        q,
                        now_ns,
                    ) == ProcessStatus::Expired && q != pid {
                        let j = choose|j: int| 0 <= j < i + 1 && table[j].0 == q;
                        assert(j < i);
                        assert(old_expired.contains(q));
                        let k = choose|k: int| 0 <= k < old_expired.len() && old_expired[k] == q;
                        assert(expired@[k] == q);
                    }
                }
            }
            i = i + 1;
        }
        let mut kept_terms: Vec<(i32, u64)> = Vec::new();
        let mut t: usize = 0;
        while t < self.terminated_processes.len()
            invariant
                t <= terms.len(),
                self.terminated_processes@ == terms,
                kept_terms@ == spec_terms_kept_in(table, process_exists@, terms, now_ns, t as int),
                forall|pid: i32|
                    expired@.contains(pid) <==> (exists|j: int| 0 <= j < table.len() && table[j].0 == pid)
                        && spec_status(process_exists@, terms, pid, now_ns)
                        == ProcessStatus::Expired,
            decreases terms.len() - t,
        {
            let record = self.terminated_processes[t];
            if !contains_i32(&expired, record.0) {
                kept_terms.push(record);
            }
            t = t + 1;
        }
        let mut j: usize = 0;
        while j < newly.len()
            invariant
                j <= newly@.len(),
                kept_terms@ == spec_terms_kept_in(table, process_exists@, terms, now_ns, terms.len() as int)
                    + newly@.take(j as int),
            decreases newly@.len() - j,
        {
            kept_terms.push(newly[j]);
            j = j + 1;
            assert(kept_terms@ =~= spec_terms_kept_in(
                table,
                process_exists@,
                terms,
                now_ns,
                terms.len() as int,
            ) + newly@.take(j as int));
        }
        assert(newly@.take(newly@.len() as int) =~= newly@);
        self.process_bandwidth = kept;
        self.terminated_processes = kept_terms;
        self.reset_pairs();
        self.reset_interfaces();
        TrackerSnapshot { processes, pairs, interfaces }
    }

    fn reset_pairs(&mut self)
        ensures
            final(self).process_interface_bandwidth@.len()
                == old(self).process_interface_bandwidth@.len(),
            forall|j: int|
                0 <= j < final(self).process_interface_bandwidth@.len()
                    ==> #[trigger] final(self).process_interface_bandwidth@[j]
                    == (ProcessInterfaceBandwidth {
                    counters: spec_reset(old(self).process_interface_bandwidth@[j].counters),
                    ..old(self).process_interface_bandwidth@[j]
                }),
            final(self).process_bandwidth == old(self).process_bandwidth,
            final(self).terminated_processes == old(self).terminated_processes,
            final(self).interface_bandwidth == old(self).interface_bandwidth,
            final(self).connection_map == old(self).connection_map,
            final(self).socket_map == old(self).socket_map,
            final(self).packets_captured == old(self).packets_captured,
            final(self).packets_matched == old(self).packets_matched,
            final(self).packets_unmatched == old(self).packets_unmatched,
    {
        let mut i: usize = 0;
        while i < self.process_interface_bandwidth.len()
            invariant
                i <= self.process_interface_bandwidth@.len(),
                self.process_interface_bandwidth@.len()
                    == old(self).process_interface_bandwidth@.len(),
                forall|j: int|
                    0 <= j < i ==> #[trigger] self.process_interface_bandwidth@[j]
                        == (ProcessInterfaceBandwidth {
                        counters: spec_reset(old(self).process_interface_bandwidth@[j].counters),
                        ..old(self).process_interface_bandwidth@[j]
                    }),
                forall|j: int|
                    i <= j < self.process_interface_bandwidth@.len()
                        ==> #[trigger] self.process_interface_bandwidth@[j]
                        == old(self).process_interface_bandwidth@[j],
                self.process_bandwidth == old(self).process_bandwidth,
                self.terminated_processes == old(self).terminated_processes,
                self.interface_bandwidth == old(self).interface_bandwidth,
                self.connection_map == old(self).connection_map,
                self.socket_map == old(self).socket_map,
                self.packets_captured == old(self).packets_captured,
                self.packets_matched == old(self).packets_matched,
                self.packets_unmatched == old(self).packets_unmatched,
            decreases self.process_interface_bandwidth@.len() - i,
        {
            let e = &self.process_interface_bandwidth[i];
            let c = e.counters;
            let reset = TrafficCounters {
                last_rx_bytes: c.rx_bytes,
                last_tx_bytes: c.tx_bytes,
                last_internet_rx_bytes: c.internet_rx_bytes,
                last_internet_tx_bytes: c.internet_tx_bytes,
                last_local_rx_bytes: c.local_rx_bytes,
                last_local_tx_bytes: c.local_tx_bytes,
                ..c
            };
            let updated = ProcessInterfaceBandwidth {
                pid: e.pid,
                interface: e.interface.clone(),
                counters: reset,
            };
            self.process_interface_bandwidth.set(i, updated);
            i = i + 1;
        }
    }

    fn reset_interfaces(&mut self)
        ensures
            final(self).interface_bandwidth@.len() == old(self).interface_bandwidth@.len(),
            forall|j: int|
                0 <= j < final(self).interface_bandwidth@.len()
                    ==> #[trigger] final(self).interface_bandwidth@[j] == (InterfaceBandwidth {
                    last_rx_bytes: old(self).interface_bandwidth@[j].rx_bytes,
                    last_tx_bytes: old(self).interface_bandwidth@[j].tx_bytes,
                    ..old(self).interface_bandwidth@[j]
                }),
            final(self).process_bandwidth == old(self).process_bandwidth,
            final(self).terminated_processes == old(self).terminated_processes,
            final(self).process_interface_bandwidth == old(self).process_interface_bandwidth,
            final(self).connection_map == old(self).connection_map,
            final(self).socket_map == old(self).socket_map,
            final(self).packets_captured == old(self).packets_captured,
            final(self).packets_matched == old(self).packets_matched,
            final(self).packets_unmatched == old(self).packets_unmatched,
    {
        let mut i: usize = 0;
        while i < self.interface_bandwidth.len()
            invariant
                i <= self.interface_bandwidth@.len(),
                self.interface_bandwidth@.len() == old(self).interface_bandwidth@.len(),
                forall|j: int|
                    0 <= j < i ==> #[trigger] self.interface_bandwidth@[j] == (InterfaceBandwidth {
                        last_rx_bytes: old(self).interface_bandwidth@[j].rx_bytes,
                        last_tx_bytes: old(self).interface_bandwidth@[j].tx_bytes,
                        ..old(self).interface_bandwidth@[j]
                    }),
                forall|j: int|
                    i <= j < self.interface_bandwidth@.len() ==> #[trigger] self.interface_bandwidth@[j]
                        == old(self).interface_bandwidth@[j],
                self.process_bandwidth == old(self).process_bandwidth,
                self.terminated_processes == old(self).terminated_processes,
                self.process_interface_bandwidth == old(self).process_interface_bandwidth,
                self.connection_map == old(self).connection_map,
                self.socket_map == old(self).socket_map,
                self.packets_captured == old(self).packets_captured,
                self.packets_matched == old(self).packets_matched,
                self.packets_unmatched == old(self).packets_unmatched,
            decreases self.interface_bandwidth@.len() - i,
        {
            let e = &self.interface_bandwidth[i];
            let updated = InterfaceBandwidth {
                name: e.name.clone(),
                rx_bytes: e.rx_bytes,
                tx_bytes: e.tx_bytes,
                last_rx_bytes: e.rx_bytes,
                last_tx_bytes: e.tx_bytes,
            };
            self.interface_bandwidth.set(i, updated);
            i = i + 1;
        }
    }
}

impl ProcessBandwidth {
    /// A copy of this entry.
    pub fn duplicate(&self) -> (r: Self)
        ensures
            r == *self,
    {
        ProcessBandwidth { name: self.name.clone(), counters: self.counters }
    }
}

fn copy_process_bandwidth(v: &Vec<(i32, ProcessBandwidth)>) -> (r: Vec<(i32, ProcessBandwidth)>)
    ensures
        r@ == v@,
{
    let mut r: Vec<(i32, ProcessBandwidth)> = Vec::new();
    let mut i: usize = 0;
    while i < v.len()
        invariant
            i <= v@.len(),
            r@ == v@.take(i as int),
        decreases v@.len() - i,
    {
        r.push((v[i].0, v[i].1.duplicate()));
        i = i + 1;
        assert(r@ =~= v@.take(i as int));
    }
    assert(v@.take(v@.len() as int) =~= v@);
    r
}

fn copy_terminations(v: &Vec<(i32, u64)>) -> (r: Vec<(i32, u64)>)
    ensures
        r@ == v@,
{
    let mut r: Vec<(i32, u64)> = Vec::new();
    let mut i: usize = 0;
    while i < v.len()
        invariant
            i <= v@.len(),
            r@ == v@.take(i as int),
        decreases v@.len() - i,
    {
        r.push(v[i]);
        i = i + 1;
        assert(r@ =~= v@.take(i as int));
    }
    assert(v@.take(v@.len() as int) =~= v@);
    r
}

impl BandwidthTracker {
    /// The per-process counters and termination times, kept across a
    /// change of socket mapper.
    pub fn extract_bandwidth_data(&self) -> (r: (Vec<(i32, ProcessBandwidth)>, Vec<(i32, u64)>))
        ensures
            r.0@ == self.process_bandwidth@,
            r.1@ == self.terminated_processes@,
    {
        (copy_process_bandwidth(&self.process_bandwidth), copy_terminations(&self.terminated_processes))
    }

    /// Puts back per-process counters and termination times.
    pub fn restore_bandwidth_data(
        &mut self,
        process_bandwidth: Vec<(i32, ProcessBandwidth)>,
        terminated_processes: Vec<(i32, u64)>,
    )
        ensures
            final(self).process_bandwidth@ == process_bandwidth@,
            final(self).terminated_processes@ == terminated_processes@,
            final(self).connection_map == old(self).connection_map,
            final(self).socket_map == old(self).socket_map,
            final(self).interface_bandwidth == old(self).interface_bandwidth,
            final(self).process_interface_bandwidth == old(self).process_interface_bandwidth,
            final(self).packets_captured == old(self).packets_captured,
            final(self).packets_matched == old(self).packets_matched,
            final(self).packets_unmatched == old(self).packets_unmatched,
    {
        self.process_bandwidth = process_bandwidth;
        self.terminated_processes = terminated_processes;
    }
}

/// Restoring what was extracted from a tracker into another gives it the
/// first tracker's per-process counters and termination times.
pub proof fn lemma_restore_extracted(
    a: BandwidthTracker,
    extracted: (Seq<(i32, ProcessBandwidth)>, Seq<(i32, u64)>),
    b: BandwidthTracker,
)
    requires
        extracted.0 == a.process_bandwidth@,
        extracted.1 == a.terminated_processes@,
        b.process_bandwidth@ == extracted.0,
        b.terminated_processes@ == extracted.1,
    ensures
        b.process_bandwidth@ == a.process_bandwidth@,
        b.terminated_processes@ == a.terminated_processes@,
{
}

/// A network interface as packet capture sees it.
#[derive(Clone, Debug)]
pub struct CaptureCandidate {
    pub name: String,
    pub is_up: bool,
    /// Number of addresses it has.
    pub address_count: usize,
    /// Whether every address it has is unspecified (`0.0.0.0` or `::`).
    pub all_unspecified: bool,
}

/// Whether packets are captured on an interface: on Windows, where
/// interfaces may report themselves down while working, one with an
/// address that is not all unspecified; elsewhere, an up one with an
/// address. Loopback is included.
pub open spec fn spec_captured(c: CaptureCandidate, windows: bool) -> bool {
    if windows {
        c.address_count > 0 && !c.all_unspecified
    } else {
        c.is_up && c.address_count > 0
    }
}

/// Names of the captured interfaces among the first `n`, in order.
pub open spec fn spec_capture_names(s: Seq<CaptureCandidate>, windows: bool, n: int) -> Seq<Seq<char>>
    decreases n,
{
    if n <= 0 {
        Seq::empty()
    } else {
        let prev = spec_capture_names(s, windows, n - 1);
        if spec_captured(s[n - 1], windows) {
            prev.push(s[n - 1].name@)
        } else {
            prev
        }
    }
}

/// The interfaces to capture packets on, by name, in the order given.
pub fn find_all_interfaces(interfaces: &Vec<CaptureCandidate>, windows: bool) -> (r: Vec<String>)
    ensures
        r@.len() == spec_capture_names(interfaces@, windows, interfaces@.len() as int).len(),
        forall|j: int|
            0 <= j < r@.len() ==> (#[trigger] r@[j])@ == spec_capture_names(
                interfaces@,
                windows,
                interfaces@.len() as int,
            )[j],
{
    let mut out: Vec<String> = Vec::new();
    let mut i: usize = 0;
    while i < interfaces.len()
        invariant
            i <= interfaces@.len(),
            out@.len() == spec_capture_names(interfaces@, windows, i as int).len(),
            forall|j: int|
                0 <= j < out@.len() ==> (#[trigger] out@[j])@ == spec_capture_names(
                    interfaces@,
                    windows,
                    i as int,
                )[j],
        decreases interfaces@.len() - i,
    {
        let c = &interfaces[i];
        let keep = if windows {
            c.address_count > 0 && !c.all_unspecified
        } else {
            c.is_up && c.address_count > 0
        };
        if keep {
            out.push(c.name.clone());
        }
        i = i + 1;
    }
    out
}

proof fn lemma_find_owner_none_upto(table: Seq<(ConnectionKey, i32)>, rule: MatchRule, n: int)
    requires
        0 <= n <= table.len(),
        forall|j: int| 0 <= j < n ==> !spec_rule_matches(rule, #[trigger] table[j].0),
    ensures
        spec_find_owner_in(table, rule, n) is None,
    decreases n,
{
    if n > 0 {
        lemma_find_owner_none_upto(table, rule, n - 1);
    }
}

proof fn lemma_find_owner_at(table: Seq<(ConnectionKey, i32)>, rule: MatchRule, k: int)
    requires
        0 <= k < table.len(),
        spec_rule_matches(rule, table[k].0),
        forall|j: int| 0 <= j < k ==> !spec_rule_matches(rule, #[trigger] table[j].0),
    ensures
        spec_find_owner(table, rule) == Some(table[k].1),
{
    lemma_find_owner_none_upto(table, rule, k);
    assert(spec_find_owner_in(table, rule, k + 1) == Some(table[k].1));
    lemma_find_owner_stable(table, rule, k + 1, table.len() as int);
}

/// A packet arriving on a known connection is received: when the table
/// holds the connection whose local end is the packet's destination and
/// whose remote end is its source, and no connection whose local end is the
/// packet's source, the packet belongs to the first such connection's
/// process as a download.
pub proof fn lemma_reply_on_known_connection_is_download(
    table: Seq<(ConnectionKey, i32)>,
    p: PacketInfo,
    strategy: MatchStrategy,
    k: int,
)
    requires
        0 <= k < table.len(),
        table[k].0 == (ConnectionKey {
            local_addr: p.dst_addr,
            local_port: p.dst_port,
            remote_addr: p.src_addr,
            remote_port: p.src_port,
            protocol: p.protocol,
        }),
        forall|j: int| 0 <= j < k ==> (#[trigger] table[j]).0 != table[k].0,
        forall|j: int|
            0 <= j < table.len() ==> (#[trigger] table[j]).0 != (ConnectionKey {
                local_addr: p.src_addr,
                local_port: p.src_port,
                remote_addr: p.dst_addr,
                remote_port: p.dst_port,
                protocol: p.protocol,
            }),
    ensures
        spec_packet_owner(table, p, strategy) == Some((table[k].1, false)),
{
    let outk = ConnectionKey {
        local_addr: p.src_addr,
        local_port: p.src_port,
        remote_addr: p.dst_addr,
        remote_port: p.dst_port,
        protocol: p.protocol,
    };
    assert(outk == spec_outbound_key(p));
    lemma_find_owner_none_upto(table, MatchRule::Exact(outk), table.len() as int);
    lemma_find_owner_at(table, MatchRule::Exact(spec_inbound_key(p)), k);
}

/// A packet sent on a known connection is sent: when the table holds the
/// connection whose local end is the packet's source and whose remote end
/// is its destination, the packet belongs to the first such connection's
/// process as an upload.
pub proof fn lemma_send_on_known_connection_is_upload(
    table: Seq<(ConnectionKey, i32)>,
    p: PacketInfo,
    strategy: MatchStrategy,
    k: int,
)
    requires
        0 <= k < table.len(),
        table[k].0 == (ConnectionKey {
            local_addr: p.src_addr,
            local_port: p.src_port,
            remote_addr: p.dst_addr,
            remote_port: p.dst_port,
            protocol: p.protocol,
        }),
        forall|j: int| 0 <= j < k ==> (#[trigger] table[j]).0 != table[k].0,
    ensures
        spec_packet_owner(table, p, strategy) == Some((table[k].1, true)),
{
    lemma_find_owner_at(table, MatchRule::Exact(spec_outbound_key(p)), k);
}

/// What a refresh reports is the traffic since the previous refresh: after
/// a refresh, a packet of `len` bytes makes the next report of a running
/// process show exactly `len` bytes in its direction and category and none
/// elsewhere, while its totals grow by `len`.
pub proof fn lemma_sample_reports_traffic_since_refresh(
    c: TrafficCounters,
    outbound: bool,
    category: TrafficCategory,
    len: u64,
)
    requires
        spec_counters_fit(c, len),
    ensures
        ({
            let s = spec_traffic_sample(spec_record(spec_reset(c), outbound, category, len), true);
            let internet = category == TrafficCategory::Internet;
            &&& s.download_delta == (if outbound { 0 } else { len })
            &&& s.upload_delta == (if outbound { len } else { 0 })
            &&& s.internet_download_delta == (if !outbound && internet { len } else { 0 })
            &&& s.internet_upload_delta == (if outbound && internet { len } else { 0 })
            &&& s.local_download_delta == (if !outbound && !internet { len } else { 0 })
            &&& s.local_upload_delta == (if outbound && !internet { len } else { 0 })
            &&& s.total_download == c.rx_bytes + (if outbound { 0 } else { len })
            &&& s.total_upload == c.tx_bytes + (if outbound { len } else { 0 })
        }),
{
}

/// A running process that moved no bytes since the previous refresh is
/// reported with no traffic, whatever its totals; a stopped one is always
/// reported without traffic.
pub proof fn lemma_sample_without_new_traffic_is_zero(c: TrafficCounters, live: bool)
    ensures
        ({
            let s = spec_traffic_sample(if live { spec_reset(c) } else { c }, live);
            &&& s.download_delta == 0 && s.upload_delta == 0
            &&& s.internet_download_delta == 0 && s.internet_upload_delta == 0
            &&& s.local_download_delta == 0 && s.local_upload_delta == 0
            &&& s.total_download == c.rx_bytes && s.total_upload == c.tx_bytes
        }),
{
}

/// A running process's report counts what moved since the previous refresh:
/// each delta is the counter less the value it had at that refresh, and
/// zero when the counter did not grow past it.
pub proof fn lemma_live_sample_is_growth_since_refresh(c: TrafficCounters)
    ensures
        ({
            let s = spec_traffic_sample(c, true);
            &&& c.rx_bytes >= c.last_rx_bytes ==> s.download_delta + c.last_rx_bytes == c.rx_bytes
            &&& c.rx_bytes <= c.last_rx_bytes ==> s.download_delta == 0
            &&& c.tx_bytes >= c.last_tx_bytes ==> s.upload_delta + c.last_tx_bytes == c.tx_bytes
            &&& c.tx_bytes <= c.last_tx_bytes ==> s.upload_delta == 0
            &&& c.internet_rx_bytes >= c.last_internet_rx_bytes ==> s.internet_download_delta
                + c.last_internet_rx_bytes == c.internet_rx_bytes
            &&& c.internet_tx_bytes >= c.last_internet_tx_bytes ==> s.internet_upload_delta
                + c.last_internet_tx_bytes == c.internet_tx_bytes
            &&& c.local_rx_bytes >= c.last_local_rx_bytes ==> s.local_download_delta
                + c.last_local_rx_bytes == c.local_rx_bytes
            &&& c.local_tx_bytes >= c.last_local_tx_bytes ==> s.local_upload_delta
                + c.last_local_tx_bytes == c.local_tx_bytes
        }),
{
}

/// The table holds an entry with this key.
pub open spec fn spec_has_key(t: Seq<(ConnectionKey, i32)>, key: ConnectionKey) -> bool {
    exists|j: int| 0 <= j < t.len() && (#[trigger] t[j]).0 == key
}

/// The table holds this entry.
pub open spec fn spec_holds(t: Seq<(ConnectionKey, i32)>, x: (ConnectionKey, i32)) -> bool {
    exists|k: int| 0 <= k < t.len() && #[trigger] t[k] == x
}

/// One of the first `n` listed sockets has the entry's key (with this
/// protocol) and the entry's owner.
pub open spec fn spec_listed(
    entries: Seq<ConnectionEntry>,
    owners: Seq<SocketOwner>,
    protocol: Protocol,
    n: int,
    x: (ConnectionKey, i32),
) -> bool {
    exists|i: int|
        0 <= i < n && spec_entry_key(#[trigger] entries[i], protocol) == x.0 && spec_socket_pid(
            owners,
            entries[i].inode,
        ) == Some(x.1)
}

proof fn lemma_find_key_facts(t: Seq<(ConnectionKey, i32)>, key: ConnectionKey, n: int)
    requires
        0 <= n <= t.len(),
    ensures
        spec_find_key_in(t, key, n) matches Some(i) ==> 0 <= i < n && t[i].0 == key,
    decreases n,
{
    if n > 0 {
        lemma_find_key_facts(t, key, n - 1);
    }
}

proof fn lemma_upsert_facts(t: Seq<(ConnectionKey, i32)>, key: ConnectionKey, pid: i32)
    ensures
        forall|k: int| 0 <= k < t.len() ==> spec_has_key(spec_upsert(t, key, pid), (#[trigger] t[k]).0),
        spec_has_key(spec_upsert(t, key, pid), key),
        forall|j: int|
            0 <= j < spec_upsert(t, key, pid).len() ==> spec_holds(t, #[trigger] spec_upsert(t, key, pid)[j])
                || spec_upsert(t, key, pid)[j] == (key, pid),
{
    lemma_find_key_facts(t, key, t.len() as int);
    let r = spec_upsert(t, key, pid);
    match spec_find_key_in(t, key, t.len() as int) {
        Some(i) => {
            assert(r[i] == (key, pid));
            assert forall|k: int| 0 <= k < t.len() implies spec_has_key(r, (#[trigger] t[k]).0) by {
                if k == i {
                    assert(r[i].0 == t[k].0);
                } else {
                    assert(r[k] == t[k]);
                }
            }
            assert forall|j: int| 0 <= j < r.len() implies spec_holds(t, #[trigger] r[j]) || r[j] == (key, pid) by {
                if j != i {
                    assert(r[j] == t[j]);
                }
            }
        },
        None => {
            assert(r[t.len() as int] == (key, pid));
            assert forall|k: int| 0 <= k < t.len() implies spec_has_key(r, (#[trigger] t[k]).0) by {
                assert(r[k] == t[k]);
            }
            assert forall|j: int| 0 <= j < r.len() implies spec_holds(t, #[trigger] r[j]) || r[j] == (key, pid) by {
                if j < t.len() {
                    assert(r[j] == t[j]);
                }
            }
        },
    }
}

proof fn lemma_add_connections_facts(
    t: Seq<(ConnectionKey, i32)>,
    entries: Seq<ConnectionEntry>,
    owners: Seq<SocketOwner>,
    protocol: Protocol,
    n: int,
)
    requires
        0 <= n <= entries.len(),
    ensures
        forall|k: int|
            0 <= k < t.len() ==> spec_has_key(
                spec_add_connections(t, entries, owners, protocol, n),
                (#[trigger] t[k]).0,
            ),
        forall|i: int|
            0 <= i < n && spec_socket_pid(owners, entries[i].inode) is Some ==> spec_has_key(
                spec_add_connections(t, entries, owners, protocol, n),
                spec_entry_key(#[trigger] entries[i], protocol),
            ),
        forall|j: int|
            0 <= j < spec_add_connections(t, entries, owners, protocol, n).len() ==> spec_holds(
                t,
                #[trigger] spec_add_connections(t, entries, owners, protocol, n)[j],
            ) || spec_listed(
                entries,
                owners,
                protocol,
                n,
                spec_add_connections(t, entries, owners, protocol, n)[j],
            ),
    decreases n,
{
    if n > 0 {
        lemma_add_connections_facts(t, entries, owners, protocol, n - 1);
        let prev = spec_add_connections(t, entries, owners, protocol, n - 1);
        let r = spec_add_connections(t, entries, owners, protocol, n);
        match spec_socket_pid(owners, entries[n - 1].inode) {
            Some(pid) => {
                let key = spec_entry_key(entries[n - 1], protocol);
                lemma_upsert_facts(prev, key, pid);
                assert forall|k: int| 0 <= k < t.len() implies spec_has_key(r, (#[trigger] t[k]).0) by {
                    let j = choose|j: int| 0 <= j < prev.len() && (#[trigger] prev[j]).0 == t[k].0;
                    assert(spec_has_key(r, prev[j].0));
                }
                assert forall|i: int|
                    0 <= i < n && spec_socket_pid(owners, entries[i].inode) is Some implies spec_has_key(
                    r,
                    spec_entry_key(#[trigger] entries[i], protocol),
                ) by {
                    if i < n - 1 {
                        let j = choose|j: int|
                            0 <= j < prev.len() && (#[trigger] prev[j]).0 == spec_entry_key(
                                entries[i],
                                protocol,
                            );
                        assert(spec_has_key(r, prev[j].0));
                    }
                }
                assert forall|j: int| 0 <= j < r.len() implies spec_holds(t, #[trigger] r[j])
                    || spec_listed(entries, owners, protocol, n, r[j]) by {
                    if spec_holds(prev, r[j]) {
                        let k = choose|k: int| 0 <= k < prev.len() && #[trigger] prev[k] == r[j];
                        if spec_listed(entries, owners, protocol, n - 1, prev[k]) {
                            let i = choose|i: int|
                                0 <= i < n - 1 && spec_entry_key(#[trigger] entries[i], protocol)
                                    == prev[k].0 && spec_socket_pid(owners, entries[i].inode) == Some(
                                    prev[k].1,
                                );
                            assert(0 <= i < n);
                        }
                    } else {
                        assert(r[j] == (key, pid));
                        assert(spec_entry_key(entries[n - 1], protocol) == r[j].0);
                    }
                }
            },
            None => {
                assert forall|j: int| 0 <= j < r.len() implies spec_holds(t, #[trigger] r[j])
                    || spec_listed(entries, owners, protocol, n, r[j]) by {
                    if spec_listed(entries, owners, protocol, n - 1, r[j]) {
                        let i = choose|i: int|
                            0 <= i < n - 1 && spec_entry_key(#[trigger] entries[i], protocol) == r[j].0
                                && spec_socket_pid(owners, entries[i].inode) == Some(r[j].1);
                        assert(0 <= i < n);
                    }
                }
            },
        }
    }
}

/// The connection table keeps each socket under its own protocol: every
/// owned socket of the UDP (TCP) lists is in the table under its addresses,
/// ports and protocol UDP (TCP); and every entry of the table is a socket
/// of the lists of its protocol, owned by the entry's process.
pub proof fn lemma_connection_table_keeps_protocols(m: ConnectionMap)
    ensures
        forall|i: int|
            0 <= i < m.udp_connections@.len() && spec_socket_pid(
                m.socket_to_pid@,
                m.udp_connections@[i].inode,
            ) is Some ==> spec_has_key(
                spec_connection_table(m),
                (ConnectionKey {
                    local_addr: (#[trigger] m.udp_connections@[i]).local_addr,
                    local_port: m.udp_connections@[i].local_port,
                    remote_addr: m.udp_connections@[i].remote_addr,
                    remote_port: m.udp_connections@[i].remote_port,
                    protocol: Protocol::Udp,
                }),
            ),
        forall|i: int|
            0 <= i < m.udp6_connections@.len() && spec_socket_pid(
                m.socket_to_pid@,
                m.udp6_connections@[i].inode,
            ) is Some ==> spec_has_key(
                spec_connection_table(m),
                (ConnectionKey {
                    local_addr: (#[trigger] m.udp6_connections@[i]).local_addr,
                    local_port: m.udp6_connections@[i].local_port,
                    remote_addr: m.udp6_connections@[i].remote_addr,
                    remote_port: m.udp6_connections@[i].remote_port,
                    protocol: Protocol::Udp,
                }),
            ),
        forall|i: int|
            0 <= i < m.tcp_connections@.len() && spec_socket_pid(
                m.socket_to_pid@,
                m.tcp_connections@[i].inode,
            ) is Some ==> spec_has_key(
                spec_connection_table(m),
                (ConnectionKey {
                    local_addr: (#[trigger] m.tcp_connections@[i]).local_addr,
                    local_port: m.tcp_connections@[i].local_port,
                    remote_addr: m.tcp_connections@[i].remote_addr,
                    remote_port: m.tcp_connections@[i].remote_port,
                    protocol: Protocol::Tcp,
                }),
            ),
        forall|i: int|
            0 <= i < m.tcp6_connections@.len() && spec_socket_pid(
                m.socket_to_pid@,
                m.tcp6_connections@[i].inode,
            ) is Some ==> spec_has_key(
                spec_connection_table(m),
                (ConnectionKey {
                    local_addr: (#[trigger] m.tcp6_connections@[i]).local_addr,
                    local_port: m.tcp6_connections@[i].local_port,
                    remote_addr: m.tcp6_connections@[i].remote_addr,
                    remote_port: m.tcp6_connections@[i].remote_port,
                    protocol: Protocol::Tcp,
                }),
            ),
        forall|j: int|
            0 <= j < spec_connection_table(m).len() ==> {
                let x = #[trigger] spec_connection_table(m)[j];
                &&& x.0.protocol == Protocol::Udp ==> spec_listed(
                    m.udp_connections@,
                    m.socket_to_pid@,
                    Protocol::Udp,
                    m.udp_connections@.len() as int,
                    x,
                ) || spec_listed(
                    m.udp6_connections@,
                    m.socket_to_pid@,
                    Protocol::Udp,
                    m.udp6_connections@.len() as int,
                    x,
                )
                &&& x.0.protocol == Protocol::Tcp ==> spec_listed(
                    m.tcp_connections@,
                    m.socket_to_pid@,
                    Protocol::Tcp,
                    m.tcp_connections@.len() as int,
                    x,
                ) || spec_listed(
                    m.tcp6_connections@,
                    m.socket_to_pid@,
                    Protocol::Tcp,
                    m.tcp6_connections@.len() as int,
                    x,
                )
            },
{
    let o = m.socket_to_pid@;
    let (e1, e2, e3, e4) = (m.tcp_connections@, m.tcp6_connections@, m.udp_connections@, m.udp6_connections@);
    let t0 = Seq::<(ConnectionKey, i32)>::empty();
    let t1 = spec_add_connections(t0, e1, o, Protocol::Tcp, e1.len() as int);
    let t2 = spec_add_connections(t1, e2, o, Protocol::Tcp, e2.len() as int);
    let t3 = spec_add_connections(t2, e3, o, Protocol::Udp, e3.len() as int);
    let t4 = spec_add_connections(t3, e4, o, Protocol::Udp, e4.len() as int);
    assert(t4 == spec_connection_table(m));
    lemma_add_connections_facts(t0, e1, o, Protocol::Tcp, e1.len() as int);
    lemma_add_connections_facts(t1, e2, o, Protocol::Tcp, e2.len() as int);
    lemma_add_connections_facts(t2, e3, o, Protocol::Udp, e3.len() as int);
    lemma_add_connections_facts(t3, e4, o, Protocol::Udp, e4.len() as int);
    // A key present in an earlier table stays present in every later one.
    assert forall|key: ConnectionKey| spec_has_key(t1, key) implies spec_has_key(t4, key) by {
        let a = choose|j: int| 0 <= j < t1.len() && (#[trigger] t1[j]).0 == key;
        assert(spec_has_key(t2, t1[a].0));
        let b = choose|j: int| 0 <= j < t2.len() && (#[trigger] t2[j]).0 == key;
        assert(spec_has_key(t3, t2[b].0));
        let c = choose|j: int| 0 <= j < t3.len() && (#[trigger] t3[j]).0 == key;
        assert(spec_has_key(t4, t3[c].0));
    }
    assert forall|key: ConnectionKey| spec_has_key(t2, key) implies spec_has_key(t4, key) by {
        let b = choose|j: int| 0 <= j < t2.len() && (#[trigger] t2[j]).0 == key;
        assert(spec_has_key(t3, t2[b].0));
        let c = choose|j: int| 0 <= j < t3.len() && (#[trigger] t3[j]).0 == key;
        assert(spec_has_key(t4, t3[c].0));
    }
    assert forall|key: ConnectionKey| spec_has_key(t3, key) implies spec_has_key(t4, key) by {
        let c = choose|j: int| 0 <= j < t3.len() && (#[trigger] t3[j]).0 == key;
        assert(spec_has_key(t4, t3[c].0));
    }
    assert forall|i: int| 0 <= i < e1.len() && spec_socket_pid(o, e1[i].inode) is Some implies spec_has_key(
        t4,
        spec_entry_key(#[trigger] e1[i], Protocol::Tcp),
    ) by {
        assert(spec_has_key(t1, spec_entry_key(e1[i], Protocol::Tcp)));
    }
    assert forall|i: int| 0 <= i < e2.len() && spec_socket_pid(o, e2[i].inode) is Some implies spec_has_key(
        t4,
        spec_entry_key(#[trigger] e2[i], Protocol::Tcp),
    ) by {
        assert(spec_has_key(t2, spec_entry_key(e2[i], Protocol::Tcp)));
    }
    assert forall|i: int| 0 <= i < e3.len() && spec_socket_pid(o, e3[i].inode) is Some implies spec_has_key(
        t4,
        spec_entry_key(#[trigger] e3[i], Protocol::Udp),
    ) by {
        assert(spec_has_key(t3, spec_entry_key(e3[i], Protocol::Udp)));
    }
    // Where each entry comes from.
    assert forall|j: int| 0 <= j < t4.len() implies {
        let x = #[trigger] t4[j];
        &&& x.0.protocol == Protocol::Udp ==> spec_listed(e3, o, Protocol::Udp, e3.len() as int, x)
            || spec_listed(e4, o, Protocol::Udp, e4.len() as int, x)
        &&& x.0.protocol == Protocol::Tcp ==> spec_listed(e1, o, Protocol::Tcp, e1.len() as int, x)
            || spec_listed(e2, o, Protocol::Tcp, e2.len() as int, x)
    } by {
        let x = t4[j];
        if spec_listed(e4, o, Protocol::Udp, e4.len() as int, x) {
            let i = choose|i: int|
                0 <= i < e4.len() && spec_entry_key(#[trigger] e4[i], Protocol::Udp) == x.0
                    && spec_socket_pid(o, e4[i].inode) == Some(x.1);
            assert(x.0.protocol == Protocol::Udp);
        } else {
            let k3 = choose|k: int| 0 <= k < t3.len() && #[trigger] t3[k] == x;
            if spec_listed(e3, o, Protocol::Udp, e3.len() as int, x) {
                let i = choose|i: int|
                    0 <= i < e3.len() && spec_entry_key(#[trigger] e3[i], Protocol::Udp) == x.0
                        && spec_socket_pid(o, e3[i].inode) == Some(x.1);
                assert(x.0.protocol == Protocol::Udp);
            } else {
                assert(spec_holds(t2, t3[k3]));
                let k2 = choose|k: int| 0 <= k < t2.len() && #[trigger] t2[k] == x;
                if spec_listed(e2, o, Protocol::Tcp, e2.len() as int, x) {
                    let i = choose|i: int|
                        0 <= i < e2.len() && spec_entry_key(#[trigger] e2[i], Protocol::Tcp) == x.0
                            && spec_socket_pid(o, e2[i].inode) == Some(x.1);
                    assert(x.0.protocol == Protocol::Tcp);
                } else {
                    assert(spec_holds(t1, t2[k2]));
                    let k1 = choose|k: int| 0 <= k < t1.len() && #[trigger] t1[k] == x;
                    if !spec_holds(t0, t1[k1]) {
                        assert(spec_listed(e1, o, Protocol::Tcp, e1.len() as int, x));
                        let i = choose|i: int|
                            0 <= i < e1.len() && spec_entry_key(#[trigger] e1[i], Protocol::Tcp)
                                == x.0 && spec_socket_pid(o, e1[i].inode) == Some(x.1);
                        assert(x.0.protocol == Protocol::Tcp);
                    }
                }
            }
        }
    }
}

} // verus!
