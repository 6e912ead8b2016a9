//! Polling monitor for hosts without packet capture: connections are listed
//! once a second and, with administrator rights, their byte counters are
//! read from the operating system and turned into per-process bandwidth.
use vstd::prelude::*;

use crate::backends::{BackendCapabilities, BackendPriority};
use crate::monitor::{spec_sat_sub, ConnectionEntry, ConnectionMap, SocketOwner};
use crate::text::{push_char, str_eq};
use crate::traffic_classifier::{categorize_traffic, spec_categorize, IpAddress, TrafficCategory};

verus! {

/// What the polling monitor can report.
#[derive(Clone, Copy, Debug, PartialEq, Eq, Structural)]
pub enum MonitoringTier {
    /// Connection list only (no administrator rights).
    Basic,
    /// Bandwidth per connection as well (administrator rights).
    Stats,
}

/// The tier reached with these privileges.
pub open spec fn spec_tier(elevated: bool, stats_enabled: bool) -> MonitoringTier {
    if elevated && stats_enabled {
        MonitoringTier::Stats
    } else {
        MonitoringTier::Basic
    }
}

/// The tier reached: bandwidth tracking needs administrator rights and
/// the extended TCP statistics.
pub fn detect_monitoring_tier(elevated: bool, stats_enabled: bool) -> (r: MonitoringTier)
    ensures
        r == spec_tier(elevated, stats_enabled),
{
    if elevated && stats_enabled {
        MonitoringTier::Stats
    } else {
        MonitoringTier::Basic
    }
}

/// The polling monitor's identity, fixed by its tier.
#[derive(Clone, Copy, Debug)]
pub struct WindowsPollingMonitor {
    pub tier: MonitoringTier,
}

impl WindowsPollingMonitor {
    /// A monitor in the tier that these privileges reach.
    pub fn new(elevated: bool, stats_enabled: bool) -> (r: Self)
        ensures
            r.tier == spec_tier(elevated, stats_enabled),
    {
        WindowsPollingMonitor { tier: detect_monitoring_tier(elevated, stats_enabled) }
    }

    /// The current tier.
    pub fn tier(&self) -> (r: MonitoringTier)
        ensures
            r == self.tier,
    {
        self.tier
    }

    /// Backend name, by tier.
    pub fn name(&self) -> (r: &'static str)
        ensures
            self.tier == MonitoringTier::Basic ==> r@ == "windows-poll-basic"@,
            self.tier == MonitoringTier::Stats ==> r@ == "windows-poll-stats"@,
    {
        match self.tier {
            MonitoringTier::Basic => "windows-poll-basic",
            MonitoringTier::Stats => "windows-poll-stats",
        }
    }

    /// Priority: a fallback without statistics, good with them.
    pub fn priority(&self) -> (r: BackendPriority)
        ensures
            self.tier == MonitoringTier::Basic ==> r == BackendPriority::Fallback,
            self.tier == MonitoringTier::Stats ==> r == BackendPriority::Good,
    {
        match self.tier {
            MonitoringTier::Basic => BackendPriority::Fallback,
            MonitoringTier::Stats => BackendPriority::Good,
        }
    }

    /// Both address families always; per-process and per-connection data
    /// only with statistics.
    pub fn capabilities(&self) -> (r: BackendCapabilities)
        ensures
            r.ipv4_support && r.ipv6_support,
            r.per_process == (self.tier == MonitoringTier::Stats),
            r.per_connection == (self.tier == MonitoringTier::Stats),
    {
        let stats = match self.tier {
            MonitoringTier::Basic => false,
            MonitoringTier::Stats => true,
        };
        BackendCapabilities {
            ipv4_support: true,
            ipv6_support: true,
            per_process: stats,
            per_connection: stats,
        }
    }
}

/// Byte order swapped in the low 16 bits.
pub open spec fn spec_port_field(port: u16) -> u32 {
    (((port & 0xFF) << 8u16) | (port >> 8u16)) as u32
}

/// Bytes of a 32-bit value in reverse order.
pub open spec fn spec_swap_bytes(a: u32) -> u32 {
    ((a & 0xFF) << 24u32) | (((a >> 8u32) & 0xFF) << 16u32) | (((a >> 16u32) & 0xFF) << 8u32) | (a
        >> 24u32)
}

/// The row that identifies a TCP connection to the statistics API:
/// addresses in the machine's (little-endian) order, ports byte-swapped.
#[derive(Clone, Copy, Debug, PartialEq, Eq, Structural)]
pub struct TcpRow {
    pub state: u32,
    pub local_addr: u32,
    pub local_port: u32,
    pub remote_addr: u32,
    pub remote_port: u32,
}

fn port_field(port: u16) -> (r: u32)
    ensures
        r == spec_port_field(port),
{
    (((port & 0xFF) << 8u16) | (port >> 8u16)) as u32
}

pub(crate) fn swap_bytes(a: u32) -> (r: u32)
    ensures
        r == spec_swap_bytes(a),
{
    ((a & 0xFF) << 24u32) | (((a >> 8u32) & 0xFF) << 16u32) | (((a >> 16u32) & 0xFF) << 8u32) | (a
        >> 24u32)
}

/// The statistics row of an IPv4 connection; none for IPv6, which that API
/// does not take.
pub fn build_mib_tcprow(
    local_addr: &IpAddress,
    local_port: u16,
    remote_addr: &IpAddress,
    remote_port: u16,
) -> (r: Option<TcpRow>)
    ensures
        match (*local_addr, *remote_addr) {
            (IpAddress::V4(l), IpAddress::V4(m)) => r == Some(
                TcpRow {
                    state: 0,
                    local_addr: spec_swap_bytes(l),
                    local_port: spec_port_field(local_port),
                    remote_addr: spec_swap_bytes(m),
                    remote_port: spec_port_field(remote_port),
                },
            ),
            _ => r is None,
        },
{
    match (local_addr, remote_addr) {
        (IpAddress::V4(l), IpAddress::V4(m)) => Some(
            TcpRow {
                state: 0,
                local_addr: swap_bytes(*l),
                local_port: port_field(local_port),
                remote_addr: swap_bytes(*m),
                remote_port: port_field(remote_port),
            },
        ),
        _ => None,
    }
}

/// A network interface as the adapter list describes it.
#[derive(Clone, Debug)]
pub struct WindowsNetworkInterface {
    pub name: String,
    pub friendly_name: String,
    pub mac_address: Option<String>,
    pub ip_addresses: Vec<IpAddress>,
    pub is_up: bool,
    pub is_loopback: bool,
}

/// Friendly name of the first of the first `n` interfaces holding `addr`.
pub open spec fn spec_interface_for_in(
    ifaces: Seq<WindowsNetworkInterface>,
    addr: IpAddress,
    n: int,
) -> Option<String>
    decreases n,
{
    if n <= 0 {
        None
    } else {
        match spec_interface_for_in(ifaces, addr, n - 1) {
            Some(f) => Some(f),
            None => if ifaces[n - 1].ip_addresses@.contains(addr) {
                Some(ifaces[n - 1].friendly_name)
            } else {
                None
            },
        }
    }
}

/// Friendly name of the first interface holding `addr`.
pub open spec fn spec_interface_for(ifaces: Seq<WindowsNetworkInterface>, addr: IpAddress) -> Option<
    String,
> {
    spec_interface_for_in(ifaces, addr, ifaces.len() as int)
}

proof fn lemma_interface_for_stable(
    ifaces: Seq<WindowsNetworkInterface>,
    addr: IpAddress,
    n: int,
    m: int,
)
    requires
        0 <= n <= m,
        spec_interface_for_in(ifaces, addr, n) is Some,
    ensures
        spec_interface_for_in(ifaces, addr, m) == spec_interface_for_in(ifaces, addr, n),
    decreases m - n,
{
    if m > n {
        lemma_interface_for_stable(ifaces, addr, n, m - 1);
    }
}

fn holds_address(v: &Vec<IpAddress>, addr: &IpAddress) -> (r: bool)
    ensures
        r == v@.contains(*addr),
{
    let mut i: usize = 0;
    while i < v.len()
        invariant
            i <= v@.len(),
            forall|j: int| 0 <= j < i ==> v@[j] != *addr,
        decreases v@.len() - i,
    {
        if v[i] == *addr {
            assert(v@[i as int] == *addr);
            return true;
        }
        i = i + 1;
    }
    false
}

/// The friendly name of the first interface that holds this local address.
pub fn get_interface_for_ip(local_addr: &IpAddress, interfaces: &Vec<WindowsNetworkInterface>) -> (r:
    Option<String>)
    ensures
        r == spec_interface_for(interfaces@, *local_addr),
{
    let mut i: usize = 0;
    while i < interfaces.len()
        invariant
            i <= interfaces@.len(),
            spec_interface_for_in(interfaces@, *local_addr, i as int) is None,
        decreases interfaces@.len() - i,
    {
        if holds_address(&interfaces[i].ip_addresses, local_addr) {
            proof {
                lemma_interface_for_stable(interfaces@, *local_addr, i + 1, interfaces@.len() as int);
            }
            return Some(interfaces[i].friendly_name.clone());
        }
        i = i + 1;
    }
    None
}

/// Transport and address family of a polled connection.
#[derive(Clone, Copy, Debug, PartialEq, Eq, Structural)]
pub enum PollProtocol {
    Tcp,
    TcpV6,
    Udp,
    UdpV6,
}

/// What identifies a polled connection.
#[derive(Clone, Copy, Debug, PartialEq, Eq, Structural)]
pub struct PollKey {
    pub local_addr: IpAddress,
    pub local_port: u16,
    pub remote_addr: IpAddress,
    pub remote_port: u16,
    pub protocol: PollProtocol,
}

/// A polled connection, its owner and its byte counters as last read.
#[derive(Clone, Debug)]
pub struct PolledConnection {
    pub key: PollKey,
    pub pid: i32,
    pub process_name: String,
    pub bytes_sent: u64,
    pub bytes_received: u64,
}

/// The key of a listed socket.
pub open spec fn spec_entry_key(e: ConnectionEntry, protocol: PollProtocol) -> PollKey {
    PollKey {
        local_addr: e.local_addr,
        local_port: e.local_port,
        remote_addr: e.remote_addr,
        remote_port: e.remote_port,
        protocol,
    }
}

/// Index of the first of the first `n` connections with this key.
pub open spec fn spec_find_key_in(s: Seq<PolledConnection>, key: PollKey, n: int) -> Option<int>
    decreases n,
{
    if n <= 0 {
        None
    } else {
        match spec_find_key_in(s, key, n - 1) {
            Some(i) => Some(i),
            None => if s[n - 1].key == key {
                Some(n - 1)
            } else {
                None
            },
        }
    }
}

/// Index of the first connection with this key.
pub open spec fn spec_find_key(s: Seq<PolledConnection>, key: PollKey) -> Option<int> {
    spec_find_key_in(s, key, s.len() as int)
}

proof fn lemma_find_key_stable(s: Seq<PolledConnection>, key: PollKey, n: int, m: int)
    requires
        0 <= n <= m,
        spec_find_key_in(s, key, n) is Some,
    ensures
        spec_find_key_in(s, key, m) == spec_find_key_in(s, key, n),
    decreases m - n,
{
    if m > n {
        lemma_find_key_stable(s, key, n, m - 1);
    }
}

proof fn lemma_find_key_bounds(s: Seq<PolledConnection>, key: PollKey, n: int)
    requires
        0 <= n <= s.len(),
    ensures
        spec_find_key_in(s, key, n) matches Some(i) ==> 0 <= i < n && s[i].key == key,
        spec_find_key_in(s, key, n) is None ==> forall|j: int| 0 <= j < n ==> s[j].key != key,
    decreases n,
{
    if n > 0 {
        lemma_find_key_bounds(s, key, n - 1);
    }
}

/// Index of the connection with this key.
pub fn find_connection(s: &Vec<PolledConnection>, key: &PollKey) -> (r: Option<usize>)
    ensures
        r matches Some(i) ==> spec_find_key(s@, *key) == Some(i as int) && i < s@.len()
            && s@[i as int].key == *key,
        r is None ==> spec_find_key(s@, *key) is None,
{
    let mut i: usize = 0;
    while i < s.len()
        invariant
            i <= s@.len(),
            spec_find_key_in(s@, *key, i as int) is None,
        decreases s@.len() - i,
    {
        if s[i].key == *key {
            proof {
                lemma_find_key_stable(s@, *key, i + 1, s@.len() as int);
            }
            return Some(i);
        }
        i = i + 1;
    }
    None
}

/// `s` with `c` in place of the connection with the same key, or with `c`
/// added at the end.
pub open spec fn spec_upsert(s: Seq<PolledConnection>, c: PolledConnection) -> Seq<PolledConnection> {
    match spec_find_key(s, c.key) {
        Some(i) => s.update(i, c),
        None => s.push(c),
    }
}

/// A fresh connection record for a listed socket and its owner.
pub open spec fn spec_fresh(owner: SocketOwner, e: ConnectionEntry, protocol: PollProtocol) -> PolledConnection {
    PolledConnection {
        key: spec_entry_key(e, protocol),
        pid: owner.pid,
        process_name: owner.name,
        bytes_sent: 0,
        bytes_received: 0,
    }
}

/// `acc` after the first `n` sockets of `entries` owned through `owner`.
pub open spec fn spec_collect_owner(
    acc: Seq<PolledConnection>,
    owner: SocketOwner,
    entries: Seq<ConnectionEntry>,
    protocol: PollProtocol,
    n: int,
) -> Seq<PolledConnection>
    decreases n,
{
    if n <= 0 {
        acc
    } else {
        let a = spec_collect_owner(acc, owner, entries, protocol, n - 1);
        if entries[n - 1].inode == owner.inode {
            spec_upsert(a, spec_fresh(owner, entries[n - 1], protocol))
        } else {
            a
        }
    }
}

/// The connections of the first `n` owners: for each owner in turn, each
/// listed socket with its inode, keyed, a later one replacing an earlier one
/// with the same key.
pub open spec fn spec_collect(
    owners: Seq<SocketOwner>,
    entries: Seq<ConnectionEntry>,
    protocol: PollProtocol,
    n: int,
) -> Seq<PolledConnection>
    decreases n,
{
    if n <= 0 {
        Seq::empty()
    } else {
        spec_collect_owner(
            spec_collect(owners, entries, protocol, n - 1),
            owners[n - 1],
            entries,
            protocol,
            entries.len() as int,
        )
    }
}

/// The connections of one protocol, each with the owner of its socket and
/// zeroed counters; one per key.
pub fn collect_connections(
    socket_to_pid: &Vec<SocketOwner>,
    entries: &Vec<ConnectionEntry>,
    protocol: PollProtocol,
) -> (r: Vec<PolledConnection>)
    ensures
        r@ == spec_collect(socket_to_pid@, entries@, protocol, socket_to_pid@.len() as int),
{
    let mut acc: Vec<PolledConnection> = Vec::new();
    let mut i: usize = 0;
    while i < socket_to_pid.len()
        invariant
            i <= socket_to_pid@.len(),
            acc@ == spec_collect(socket_to_pid@, entries@, protocol, i as int),
        decreases socket_to_pid@.len() - i,
    {
        let owner = &socket_to_pid[i];
        let ghost start = acc@;
        let mut j: usize = 0;
        while j < entries.len()
            invariant
                i < socket_to_pid@.len(),
                *owner == socket_to_pid@[i as int],
                j <= entries@.len(),
                start == spec_collect(socket_to_pid@, entries@, protocol, i as int),
                acc@ == spec_collect_owner(start, *owner, entries@, protocol, j as int),
            decreases entries@.len() - j,
        {
            let e = &entries[j];
            if e.inode == owner.inode {
                let c = PolledConnection {
                    key: PollKey {
                        local_addr: e.local_addr,
                        local_port: e.local_port,
                        remote_addr: e.remote_addr,
                        remote_port: e.remote_port,
                        protocol,
                    },
                    pid: owner.pid,
                    process_name: owner.name.clone(),
                    bytes_sent: 0,
                    bytes_received: 0,
                };
                assert(c == spec_fresh(*owner, entries@[j as int], protocol));
                match find_connection(&acc, &c.key) {
                    Some(k) => {
                        acc.set(k, c);
                    },
                    None => {
                        acc.push(c);
                    },
                }
            }
            j = j + 1;
        }
        i = i + 1;
    }
    acc
}

/// Byte totals, overall and by traffic category.
#[derive(Clone, Copy, Debug, PartialEq, Eq, Structural)]
pub struct ByteCounts {
    pub rx: u64,
    pub tx: u64,
    pub internet_rx: u64,
    pub internet_tx: u64,
    pub local_rx: u64,
    pub local_tx: u64,
}

/// All totals zero.
pub open spec fn spec_zero_bytes() -> ByteCounts {
    ByteCounts { rx: 0, tx: 0, internet_rx: 0, internet_tx: 0, local_rx: 0, local_tx: 0 }
}

/// `c` with `rx` and `tx` added to the overall totals; none on overflow.
pub open spec fn spec_add_totals(c: ByteCounts, rx: u64, tx: u64) -> Option<ByteCounts> {
    if c.rx + rx <= u64::MAX && c.tx + tx <= u64::MAX {
        Some(ByteCounts { rx: (c.rx + rx) as u64, tx: (c.tx + tx) as u64, ..c })
    } else {
        None
    }
}

/// `c` with `rx` and `tx` added to the totals of `category`; none on overflow.
pub open spec fn spec_add_category(c: ByteCounts, category: TrafficCategory, rx: u64, tx: u64) -> Option<
    ByteCounts,
> {
    match category {
        TrafficCategory::Internet => if c.internet_rx + rx <= u64::MAX && c.internet_tx + tx
            <= u64::MAX {
            Some(
                ByteCounts {
                    internet_rx: (c.internet_rx + rx) as u64,
                    internet_tx: (c.internet_tx + tx) as u64,
                    ..c
                },
            )
        } else {
            None
        },
        TrafficCategory::Local => if c.local_rx + rx <= u64::MAX && c.local_tx + tx <= u64::MAX {
            Some(ByteCounts { local_rx: (c.local_rx + rx) as u64, local_tx: (c.local_tx + tx) as u64, ..c })
        } else {
            None
        },
    }
}

/// `c` with `rx` and `tx` added to the overall totals and those of
/// `category`; none on overflow.
pub open spec fn spec_add_both(c: ByteCounts, category: TrafficCategory, rx: u64, tx: u64) -> Option<
    ByteCounts,
> {
    match spec_add_totals(c, rx, tx) {
        Some(t) => spec_add_category(t, category, rx, tx),
        None => None,
    }
}

/// Field by field, how far `a` has gone past `b` (never below zero).
pub open spec fn spec_bytes_since(a: ByteCounts, b: ByteCounts) -> ByteCounts {
    ByteCounts {
        rx: spec_sat_sub(a.rx, b.rx),
        tx: spec_sat_sub(a.tx, b.tx),
        internet_rx: spec_sat_sub(a.internet_rx, b.internet_rx),
        internet_tx: spec_sat_sub(a.internet_tx, b.internet_tx),
        local_rx: spec_sat_sub(a.local_rx, b.local_rx),
        local_tx: spec_sat_sub(a.local_tx, b.local_tx),
    }
}

impl ByteCounts {
    /// All totals zero.
    pub fn zero() -> (r: Self)
        ensures
            r == spec_zero_bytes(),
    {
        ByteCounts { rx: 0, tx: 0, internet_rx: 0, internet_tx: 0, local_rx: 0, local_tx: 0 }
    }

    /// These totals with `rx` and `tx` added overall; none on overflow.
    pub fn add_totals(&self, rx: u64, tx: u64) -> (r: Option<Self>)
        ensures
            r == spec_add_totals(*self, rx, tx),
    {
        match (self.rx.checked_add(rx), self.tx.checked_add(tx)) {
            (Some(a), Some(b)) => Some(ByteCounts { rx: a, tx: b, ..*self }),
            _ => None,
        }
    }

    /// These totals with `rx` and `tx` added to a category; none on overflow.
    pub fn add_category(&self, category: TrafficCategory, rx: u64, tx: u64) -> (r: Option<Self>)
        ensures
            r == spec_add_category(*self, category, rx, tx),
    {
        match category {
            TrafficCategory::Internet => match (
                self.internet_rx.checked_add(rx),
                self.internet_tx.checked_add(tx),
            ) {
                (Some(a), Some(b)) => Some(ByteCounts { internet_rx: a, internet_tx: b, ..*self }),
                _ => None,
            },
            TrafficCategory::Local => match (
                self.local_rx.checked_add(rx),
                self.local_tx.checked_add(tx),
            ) {
                (Some(a), Some(b)) => Some(ByteCounts { local_rx: a, local_tx: b, ..*self }),
                _ => None,
            },
        }
    }

    /// These totals with `rx` and `tx` added overall and to a category.
    pub fn add_both(&self, category: TrafficCategory, rx: u64, tx: u64) -> (r: Option<Self>)
        ensures
            r == spec_add_both(*self, category, rx, tx),
    {
        match self.add_totals(rx, tx) {
            Some(t) => t.add_category(category, rx, tx),
            None => None,
        }
    }

    /// How far these totals have gone past `b`, field by field.
    pub fn since(&self, b: &Self) -> (r: Self)
        ensures
            r == spec_bytes_since(*self, *b),
    {
        ByteCounts {
            rx: self.rx.saturating_sub(b.rx),
            tx: self.tx.saturating_sub(b.tx),
            internet_rx: self.internet_rx.saturating_sub(b.internet_rx),
            internet_tx: self.internet_tx.saturating_sub(b.internet_tx),
            local_rx: self.local_rx.saturating_sub(b.local_rx),
            local_tx: self.local_tx.saturating_sub(b.local_tx),
        }
    }
}

/// Bandwidth of one process, aggregated from its polled connections.
#[derive(Clone, Debug)]
pub struct PollProcessBandwidth {
    pub pid: i32,
    pub name: String,
    /// Sums of the cumulative totals read from the connections this round
    /// (by category only for connections seen in the previous round).
    pub sums: ByteCounts,
    /// Bytes moved over the process's lifetime.
    pub lifetime: ByteCounts,
    /// The lifetime totals when rates were last computed.
    pub last_lifetime: ByteCounts,
    /// Bytes moved between the last two rate computations; a rate divides
    /// them by the time that passed.
    pub deltas: ByteCounts,
    pub connection_count: u64,
}

/// A queued change to the interface counters.
#[derive(Clone, Debug)]
pub struct InterfaceUpdate {
    pub interface: String,
    pub delta_rx: u64,
    pub delta_tx: u64,
    pub pid: i32,
    pub category: TrafficCategory,
}

/// Index of the first of the first `n` process entries with this pid.
pub open spec fn spec_find_pid_in(s: Seq<PollProcessBandwidth>, pid: i32, n: int) -> Option<int>
    decreases n,
{
    if n <= 0 {
        None
    } else {
        match spec_find_pid_in(s, pid, n - 1) {
            Some(i) => Some(i),
            None => if s[n - 1].pid == pid {
                Some(n - 1)
            } else {
                None
            },
        }
    }
}

/// Index of the first process entry with this pid.
pub open spec fn spec_find_pid(s: Seq<PollProcessBandwidth>, pid: i32) -> Option<int> {
    spec_find_pid_in(s, pid, s.len() as int)
}

proof fn lemma_find_pid_stable(s: Seq<PollProcessBandwidth>, pid: i32, n: int, m: int)
    requires
        0 <= n <= m,
        spec_find_pid_in(s, pid, n) is Some,
    ensures
        spec_find_pid_in(s, pid, m) == spec_find_pid_in(s, pid, n),
    decreases m - n,
{
    if m > n {
        lemma_find_pid_stable(s, pid, n, m - 1);
    }
}

proof fn lemma_find_pid_bounds(s: Seq<PollProcessBandwidth>, pid: i32, n: int)
    requires
        0 <= n <= s.len(),
    ensures
        spec_find_pid_in(s, pid, n) matches Some(i) ==> 0 <= i < n && s[i].pid == pid,
        spec_find_pid_in(s, pid, n) is None ==> forall|j: int| 0 <= j < n ==> s[j].pid != pid,
    decreases n,
{
    if n > 0 {
        lemma_find_pid_bounds(s, pid, n - 1);
    }
}

/// Index of the process entry with this pid.
pub fn find_process_bandwidth(s: &Vec<PollProcessBandwidth>, pid: i32) -> (r: Option<usize>)
    ensures
        r matches Some(i) ==> spec_find_pid(s@, pid) == Some(i as int) && i < s@.len()
            && s@[i as int].pid == pid,
        r is None ==> spec_find_pid(s@, pid) is None,
{
    let mut i: usize = 0;
    while i < s.len()
        invariant
            i <= s@.len(),
            spec_find_pid_in(s@, pid, i as int) is None,
        decreases s@.len() - i,
    {
        if s[i].pid == pid {
            proof {
                lemma_find_pid_stable(s@, pid, i + 1, s@.len() as int);
            }
            return Some(i);
        }
        i = i + 1;
    }
    None
}

/// A process's entry at the start of a round: lifetime totals carried over
/// from its previous entry, everything else zero.
pub open spec fn spec_fresh_bandwidth(pid: i32, name: String, prev: Option<PollProcessBandwidth>) -> PollProcessBandwidth {
    let l = match prev {
        Some(p) => p.lifetime,
        None => spec_zero_bytes(),
    };
    PollProcessBandwidth {
        pid,
        name,
        sums: spec_zero_bytes(),
        lifetime: l,
        last_lifetime: l,
        deltas: spec_zero_bytes(),
        connection_count: 0,
    }
}

/// The entry of `pid` in `prev`, if any.
pub open spec fn spec_prev_entry(prev: Seq<PollProcessBandwidth>, pid: i32) -> Option<PollProcessBandwidth> {
    match spec_find_pid(prev, pid) {
        Some(j) => Some(prev[j]),
        None => None,
    }
}

/// `procs` with an entry for the connection's process.
pub open spec fn spec_with_entry(
    procs: Seq<PollProcessBandwidth>,
    c: PolledConnection,
    prev: Seq<PollProcessBandwidth>,
) -> Seq<PollProcessBandwidth> {
    if spec_find_pid(procs, c.pid) is Some {
        procs
    } else {
        procs.push(spec_fresh_bandwidth(c.pid, c.process_name, spec_prev_entry(prev, c.pid)))
    }
}

/// Where the connection's process entry stands in `spec_with_entry`.
pub open spec fn spec_slot(procs: Seq<PollProcessBandwidth>, pid: i32) -> int {
    match spec_find_pid(procs, pid) {
        Some(i) => i,
        None => procs.len() as int,
    }
}

/// A process entry after one of its connections was read with `rx`
/// received and `tx` sent in total, `prev` being what the same connection
/// showed in the previous round, if it was there.
pub open spec fn spec_read_entry(
    e: PollProcessBandwidth,
    rx: u64,
    tx: u64,
    prev: Option<(u64, u64)>,
    category: TrafficCategory,
) -> Option<PollProcessBandwidth> {
    match spec_add_totals(e.sums, rx, tx) {
        None => None,
        Some(sums) => match prev {
            None => Some(PollProcessBandwidth { sums, ..e }),
            Some((prx, ptx)) => match (
                spec_add_category(sums, category, rx, tx),
                spec_add_both(e.lifetime, category, spec_sat_sub(rx, prx), spec_sat_sub(tx, ptx)),
            ) {
                (Some(s2), Some(l2)) => Some(PollProcessBandwidth { sums: s2, lifetime: l2, ..e }),
                _ => None,
            },
        },
    }
}

/// What the connection showed in `earlier`, received then sent, if it was there.
pub open spec fn spec_old_reading(earlier: Seq<PolledConnection>, key: PollKey) -> Option<(u64, u64)> {
    match spec_find_key(earlier, key) {
        Some(j) => Some((earlier[j].bytes_received, earlier[j].bytes_sent)),
        None => None,
    }
}

/// The aggregation after one connection: its process's entry (created
/// when missing) counts it and, when it was read, adds its totals; a
/// connection seen in the previous round also adds what it moved since,
/// and queues that for its interface. None on overflow.
pub open spec fn spec_poll_step(
    acc: (Seq<PollProcessBandwidth>, Seq<InterfaceUpdate>),
    c: PolledConnection,
    sample: Option<(u64, u64)>,
    earlier: Seq<PolledConnection>,
    prev: Seq<PollProcessBandwidth>,
    ifaces: Seq<WindowsNetworkInterface>,
) -> Option<(Seq<PollProcessBandwidth>, Seq<InterfaceUpdate>)> {
    let procs = spec_with_entry(acc.0, c, prev);
    let i = spec_slot(acc.0, c.pid);
    let e = procs[i];
    if e.connection_count == u64::MAX {
        None
    } else {
        let e1 = PollProcessBandwidth { connection_count: (e.connection_count + 1) as u64, ..e };
        match sample {
            None => Some((procs.update(i, e1), acc.1)),
            Some((rx, tx)) => {
                let before = spec_old_reading(earlier, c.key);
                let category = spec_categorize(c.key.remote_addr);
                match spec_read_entry(e1, rx, tx, before, category) {
                    None => None,
                    Some(e2) => {
                        let updates = match (before, spec_interface_for(ifaces, c.key.local_addr)) {
                            (Some((prx, ptx)), Some(name)) => acc.1.push(
                                InterfaceUpdate {
                                    interface: name,
                                    delta_rx: spec_sat_sub(rx, prx),
                                    delta_tx: spec_sat_sub(tx, ptx),
                                    pid: c.pid,
                                    category,
                                },
                            ),
                            _ => acc.1,
                        };
                        Some((procs.update(i, e2), updates))
                    },
                }
            },
        }
    }
}

fn fresh_bandwidth(pid: i32, name: String, lifetime: ByteCounts) -> (r: PollProcessBandwidth)
    ensures
        r == (PollProcessBandwidth {
            pid,
            name,
            sums: spec_zero_bytes(),
            lifetime,
            last_lifetime: lifetime,
            deltas: spec_zero_bytes(),
            connection_count: 0,
        }),
{
    PollProcessBandwidth {
        pid,
        name,
        sums: ByteCounts::zero(),
        lifetime,
        last_lifetime: lifetime,
        deltas: ByteCounts::zero(),
        connection_count: 0,
    }
}

fn read_entry(
    e: &PollProcessBandwidth,
    rx: u64,
    tx: u64,
    prev: Option<(u64, u64)>,
    category: TrafficCategory,
) -> (r: Option<PollProcessBandwidth>)
    ensures
        r == spec_read_entry(*e, rx, tx, prev, category),
{
    let sums = match e.sums.add_totals(rx, tx) {
        Some(t) => t,
        None => return None,
    };
    match prev {
        None => Some(
            PollProcessBandwidth {
                pid: e.pid,
                name: e.name.clone(),
                sums,
                lifetime: e.lifetime,
                last_lifetime: e.last_lifetime,
                deltas: e.deltas,
                connection_count: e.connection_count,
            },
        ),
        Some((prx, ptx)) => {
            let s2 = sums.add_category(category, rx, tx);
            let l2 = e.lifetime.add_both(category, rx.saturating_sub(prx), tx.saturating_sub(ptx));
            match (s2, l2) {
                (Some(s2), Some(l2)) => Some(
                    PollProcessBandwidth {
                        pid: e.pid,
                        name: e.name.clone(),
                        sums: s2,
                        lifetime: l2,
                        last_lifetime: e.last_lifetime,
                        deltas: e.deltas,
                        connection_count: e.connection_count,
                    },
                ),
                _ => None,
            }
        },
    }
}

/// One aggregation step in place; false on overflow.
fn poll_step(
    procs: &mut Vec<PollProcessBandwidth>,
    updates: &mut Vec<InterfaceUpdate>,
    c: &PolledConnection,
    sample: Option<(u64, u64)>,
    earlier: &Vec<PolledConnection>,
    prev: &Vec<PollProcessBandwidth>,
    ifaces: &Vec<WindowsNetworkInterface>,
) -> (ok: bool)
    ensures
        ok == spec_poll_step((old(procs)@, old(updates)@), *c, sample, earlier@, prev@, ifaces@) is Some,
        ok ==> spec_poll_step((old(procs)@, old(updates)@), *c, sample, earlier@, prev@, ifaces@) == Some(
            (final(procs)@, final(updates)@),
        ),
{
    let ghost procs0 = procs@;
    let slot = match find_process_bandwidth(procs, c.pid) {
        Some(i) => i,
        None => {
            let l = match find_process_bandwidth(prev, c.pid) {
                Some(j) => prev[j].lifetime,
                None => ByteCounts::zero(),
            };
            let fresh = fresh_bandwidth(c.pid, c.process_name.clone(), l);
            assert(fresh == spec_fresh_bandwidth(c.pid, c.process_name, spec_prev_entry(prev@, c.pid)));
            procs.push(fresh);
            procs.len() - 1
        },
    };
    assert(procs@ == spec_with_entry(procs0, *c, prev@));
    assert(slot == spec_slot(procs0, c.pid));
    if procs[slot].connection_count == u64::MAX {
        return false;
    }
    let e = &procs[slot];
    let e1 = PollProcessBandwidth {
        pid: e.pid,
        name: e.name.clone(),
        sums: e.sums,
        lifetime: e.lifetime,
        last_lifetime: e.last_lifetime,
        deltas: e.deltas,
        connection_count: e.connection_count + 1,
    };
    match sample {
        None => {
            procs.set(slot, e1);
            true
        },
        Some((rx, tx)) => {
            let before = match find_connection(earlier, &c.key) {
                Some(j) => Some((earlier[j].bytes_received, earlier[j].bytes_sent)),
                None => None,
            };
            assert(before == spec_old_reading(earlier@, c.key));
            let category = categorize_traffic(&c.key.remote_addr);
            match read_entry(&e1, rx, tx, before, category) {
                None => false,
                Some(e2) => {
                    match before {
                        Some((prx, ptx)) => {
                            match get_interface_for_ip(&c.key.local_addr, ifaces) {
                                Some(name) => {
                                    updates.push(
                                        InterfaceUpdate {
                                            interface: name,
                                            delta_rx: rx.saturating_sub(prx),
                                            delta_tx: tx.saturating_sub(ptx),
                                            pid: c.pid,
                                            category,
                                        },
                                    );
                                },
                                None => {},
                            }
                        },
                        None => {},
                    }
                    procs.set(slot, e2);
                    true
                },
            }
        },
    }
}

/// The sample of connection `i`, none past the end of `samples`.
pub open spec fn spec_sample_at(samples: Seq<Option<(u64, u64)>>, i: int) -> Option<(u64, u64)> {
    if 0 <= i < samples.len() {
        samples[i]
    } else {
        None
    }
}

/// The aggregation after the first `n` connections, starting from `acc`;
/// none once a step overflows.
pub open spec fn spec_poll_fold(
    acc: Option<(Seq<PollProcessBandwidth>, Seq<InterfaceUpdate>)>,
    conns: Seq<PolledConnection>,
    samples: Seq<Option<(u64, u64)>>,
    earlier: Seq<PolledConnection>,
    prev: Seq<PollProcessBandwidth>,
    ifaces: Seq<WindowsNetworkInterface>,
    n: int,
) -> Option<(Seq<PollProcessBandwidth>, Seq<InterfaceUpdate>)>
    decreases n,
{
    if n <= 0 {
        acc
    } else {
        match spec_poll_fold(acc, conns, samples, earlier, prev, ifaces, n - 1) {
            Some(a) => spec_poll_step(a, conns[n - 1], spec_sample_at(samples, n - 1), earlier, prev, ifaces),
            None => None,
        }
    }
}

proof fn lemma_poll_fold_none(
    acc: Option<(Seq<PollProcessBandwidth>, Seq<InterfaceUpdate>)>,
    conns: Seq<PolledConnection>,
    samples: Seq<Option<(u64, u64)>>,
    earlier: Seq<PolledConnection>,
    prev: Seq<PollProcessBandwidth>,
    ifaces: Seq<WindowsNetworkInterface>,
    n: int,
    m: int,
)
    requires
        0 <= n <= m,
        spec_poll_fold(acc, conns, samples, earlier, prev, ifaces, n) is None,
    ensures
        spec_poll_fold(acc, conns, samples, earlier, prev, ifaces, m) is None,
    decreases m - n,
{
    if m > n {
        lemma_poll_fold_none(acc, conns, samples, earlier, prev, ifaces, n, m - 1);
    }
}

/// All connections of one list aggregated in place; false on overflow.
fn poll_fold(
    procs: &mut Vec<PollProcessBandwidth>,
    updates: &mut Vec<InterfaceUpdate>,
    conns: &Vec<PolledConnection>,
    samples: &Vec<Option<(u64, u64)>>,
    earlier: &Vec<PolledConnection>,
    prev: &Vec<PollProcessBandwidth>,
    ifaces: &Vec<WindowsNetworkInterface>,
) -> (ok: bool)
    ensures
        ok == spec_poll_fold(
            Some((old(procs)@, old(updates)@)),
            conns@,
            samples@,
            earlier@,
            prev@,
            ifaces@,
            conns@.len() as int,
        ) is Some,
        ok ==> spec_poll_fold(
            Some((old(procs)@, old(updates)@)),
            conns@,
            samples@,
            earlier@,
            prev@,
            ifaces@,
            conns@.len() as int,
        ) == Some((final(procs)@, final(updates)@)),
{
    let ghost init = Some((procs@, updates@));
    let mut i: usize = 0;
    while i < conns.len()
        invariant
            i <= conns@.len(),
            init == Some((old(procs)@, old(updates)@)),
            spec_poll_fold(init, conns@, samples@, earlier@, prev@, ifaces@, i as int) == Some(
                (procs@, updates@),
            ),
        decreases conns@.len() - i,
    {
        let sample = if i < samples.len() {
            samples[i]
        } else {
            None
        };
        assert(sample == spec_sample_at(samples@, i as int));
        let ok = poll_step(procs, updates, &conns[i], sample, earlier, prev, ifaces);
        if !ok {
            proof {
                assert(spec_poll_fold(init, conns@, samples@, earlier@, prev@, ifaces@, i + 1) is None);
                lemma_poll_fold_none(init, conns@, samples@, earlier@, prev@, ifaces@, i + 1, conns@.len() as int);
            }
            return false;
        }
        i = i + 1;
    }
    true
}

/// Bandwidth of one interface, from the connections whose local address it
/// holds.
#[derive(Clone, Debug)]
pub struct PollInterfaceBandwidth {
    pub name: String,
    pub lifetime_rx_bytes: u64,
    pub lifetime_tx_bytes: u64,
    pub last_lifetime_rx_bytes: u64,
    pub last_lifetime_tx_bytes: u64,
    /// Bytes moved between the last two rate computations.
    pub rx_delta: u64,
    pub tx_delta: u64,
}

/// Bandwidth of one process on one interface.
#[derive(Clone, Debug)]
pub struct PollPairBandwidth {
    pub pid: i32,
    pub interface: String,
    pub bytes: ByteCounts,
    /// The totals when rates were last computed.
    pub last: ByteCounts,
}

impl PollInterfaceBandwidth {
    /// A copy of this entry.
    pub fn duplicate(&self) -> (r: Self)
        ensures
            r == *self,
    {
        PollInterfaceBandwidth {
            name: self.name.clone(),
            lifetime_rx_bytes: self.lifetime_rx_bytes,
            lifetime_tx_bytes: self.lifetime_tx_bytes,
            last_lifetime_rx_bytes: self.last_lifetime_rx_bytes,
            last_lifetime_tx_bytes: self.last_lifetime_tx_bytes,
            rx_delta: self.rx_delta,
            tx_delta: self.tx_delta,
        }
    }
}

impl PollPairBandwidth {
    /// A copy of this entry.
    pub fn duplicate(&self) -> (r: Self)
        ensures
            r == *self,
    {
        PollPairBandwidth {
            pid: self.pid,
            interface: self.interface.clone(),
            bytes: self.bytes,
            last: self.last,
        }
    }
}

fn copy_interfaces(v: &Vec<PollInterfaceBandwidth>) -> (r: Vec<PollInterfaceBandwidth>)
    ensures
        r@ == v@,
{
    let mut r: Vec<PollInterfaceBandwidth> = Vec::new();
    let mut i: usize = 0;
    while i < v.len()
        invariant
            i <= v@.len(),
            r@ == v@.take(i as int),
        decreases v@.len() - i,
    {
        r.push(v[i].duplicate());
        i = i + 1;
        assert(r@ =~= v@.take(i as int));
    }
    assert(v@.take(v@.len() as int) =~= v@);
    r
}

fn copy_pairs(v: &Vec<PollPairBandwidth>) -> (r: Vec<PollPairBandwidth>)
    ensures
        r@ == v@,
{
    let mut r: Vec<PollPairBandwidth> = Vec::new();
    let mut i: usize = 0;
    while i < v.len()
        invariant
            i <= v@.len(),
            r@ == v@.take(i as int),
        decreases v@.len() - i,
    {
        r.push(v[i].duplicate());
        i = i + 1;
        assert(r@ =~= v@.take(i as int));
    }
    assert(v@.take(v@.len() as int) =~= v@);
    r
}

/// Index of the first of the first `n` interface entries with this name.
pub open spec fn spec_find_iface_in(s: Seq<PollInterfaceBandwidth>, name: Seq<char>, n: int) -> Option<int>
    decreases n,
{
    if n <= 0 {
        None
    } else {
        match spec_find_iface_in(s, name, n - 1) {
            Some(i) => Some(i),
            None => if s[n - 1].name@ == name {
                Some(n - 1)
            } else {
                None
            },
        }
    }
}

/// Index of the first interface entry with this name.
pub open spec fn spec_find_iface(s: Seq<PollInterfaceBandwidth>, name: Seq<char>) -> Option<int> {
    spec_find_iface_in(s, name, s.len() as int)
}

proof fn lemma_find_iface_stable(s: Seq<PollInterfaceBandwidth>, name: Seq<char>, n: int, m: int)
    requires
        0 <= n <= m,
        spec_find_iface_in(s, name, n) is Some,
    ensures
        spec_find_iface_in(s, name, m) == spec_find_iface_in(s, name, n),
    decreases m - n,
{
    if m > n {
        lemma_find_iface_stable(s, name, n, m - 1);
    }
}

fn find_iface(s: &Vec<PollInterfaceBandwidth>, name: &String) -> (r: Option<usize>)
    ensures
        r matches Some(i) ==> spec_find_iface(s@, name@) == Some(i as int) && i < s@.len(),
        r is None ==> spec_find_iface(s@, name@) is None,
{
    let mut i: usize = 0;
    while i < s.len()
        invariant
            i <= s@.len(),
            spec_find_iface_in(s@, name@, i as int) is None,
        decreases s@.len() - i,
    {
        if str_eq(s[i].name.as_str(), name.as_str()) {
            proof {
                lemma_find_iface_stable(s@, name@, i + 1, s@.len() as int);
            }
            return Some(i);
        }
        i = i + 1;
    }
    None
}

/// Index of the first of the first `n` pair entries for this process and
/// interface.
pub open spec fn spec_find_pair_in(s: Seq<PollPairBandwidth>, pid: i32, name: Seq<char>, n: int) -> Option<int>
    decreases n,
{
    if n <= 0 {
        None
    } else {
        match spec_find_pair_in(s, pid, name, n - 1) {
            Some(i) => Some(i),
            None => if s[n - 1].pid == pid && s[n - 1].interface@ == name {
                Some(n - 1)
            } else {
                None
            },
        }
    }
}

/// Index of the first pair entry for this process and interface.
pub open spec fn spec_find_pair(s: Seq<PollPairBandwidth>, pid: i32, name: Seq<char>) -> Option<int> {
    spec_find_pair_in(s, pid, name, s.len() as int)
}

proof fn lemma_find_pair_stable(s: Seq<PollPairBandwidth>, pid: i32, name: Seq<char>, n: int, m: int)
    requires
        0 <= n <= m,
        spec_find_pair_in(s, pid, name, n) is Some,
    ensures
        spec_find_pair_in(s, pid, name, m) == spec_find_pair_in(s, pid, name, n),
    decreases m - n,
{
    if m > n {
        lemma_find_pair_stable(s, pid, name, n, m - 1);
    }
}

fn find_pair(s: &Vec<PollPairBandwidth>, pid: i32, name: &String) -> (r: Option<usize>)
    ensures
        r matches Some(i) ==> spec_find_pair(s@, pid, name@) == Some(i as int) && i < s@.len(),
        r is None ==> spec_find_pair(s@, pid, name@) is None,
{
    let mut i: usize = 0;
    while i < s.len()
        invariant
            i <= s@.len(),
            spec_find_pair_in(s@, pid, name@, i as int) is None,
        decreases s@.len() - i,
    {
        if s[i].pid == pid && str_eq(s[i].interface.as_str(), name.as_str()) {
            proof {
                lemma_find_pair_stable(s@, pid, name@, i + 1, s@.len() as int);
            }
            return Some(i);
        }
        i = i + 1;
    }
    None
}

/// The interface and pair entries after one queued update: both entries are
/// created when missing and take the update's bytes. None on overflow.
pub open spec fn spec_apply_update(
    st: (Seq<PollInterfaceBandwidth>, Seq<PollPairBandwidth>),
    u: InterfaceUpdate,
) -> Option<(Seq<PollInterfaceBandwidth>, Seq<PollPairBandwidth>)> {
    let ifs = match spec_find_iface(st.0, u.interface@) {
        Some(_) => st.0,
        None => st.0.push(
            PollInterfaceBandwidth {
                name: u.interface,
                lifetime_rx_bytes: 0,
                lifetime_tx_bytes: 0,
                last_lifetime_rx_bytes: 0,
                last_lifetime_tx_bytes: 0,
                rx_delta: 0,
                tx_delta: 0,
            },
        ),
    };
    let i = match spec_find_iface(st.0, u.interface@) {
        Some(i) => i,
        None => st.0.len() as int,
    };
    let pairs = match spec_find_pair(st.1, u.pid, u.interface@) {
        Some(_) => st.1,
        None => st.1.push(
            PollPairBandwidth {
                pid: u.pid,
                interface: u.interface,
                bytes: spec_zero_bytes(),
                last: spec_zero_bytes(),
            },
        ),
    };
    let j = match spec_find_pair(st.1, u.pid, u.interface@) {
        Some(j) => j,
        None => st.1.len() as int,
    };
    let f = ifs[i];
    if f.lifetime_rx_bytes + u.delta_rx <= u64::MAX && f.lifetime_tx_bytes + u.delta_tx <= u64::MAX {
        match spec_add_both(pairs[j].bytes, u.category, u.delta_rx, u.delta_tx) {
            Some(b) => Some(
                (
                    ifs.update(
                        i,
                        PollInterfaceBandwidth {
                            lifetime_rx_bytes: (f.lifetime_rx_bytes + u.delta_rx) as u64,
                            lifetime_tx_bytes: (f.lifetime_tx_bytes + u.delta_tx) as u64,
                            ..f
                        },
                    ),
                    pairs.update(j, PollPairBandwidth { bytes: b, ..pairs[j] }),
                ),
            ),
            None => None,
        }
    } else {
        None
    }
}

/// The entries after the first `n` queued updates; none once one overflows.
pub open spec fn spec_apply_updates(
    st: Option<(Seq<PollInterfaceBandwidth>, Seq<PollPairBandwidth>)>,
    us: Seq<InterfaceUpdate>,
    n: int,
) -> Option<(Seq<PollInterfaceBandwidth>, Seq<PollPairBandwidth>)>
    decreases n,
{
    if n <= 0 {
        st
    } else {
        match spec_apply_updates(st, us, n - 1) {
            Some(a) => spec_apply_update(a, us[n - 1]),
            None => None,
        }
    }
}

proof fn lemma_apply_updates_none(
    st: Option<(Seq<PollInterfaceBandwidth>, Seq<PollPairBandwidth>)>,
    us: Seq<InterfaceUpdate>,
    n: int,
    m: int,
)
    requires
        0 <= n <= m,
        spec_apply_updates(st, us, n) is None,
    ensures
        spec_apply_updates(st, us, m) is None,
    decreases m - n,
{
    if m > n {
        lemma_apply_updates_none(st, us, n, m - 1);
    }
}

fn apply_update(
    ifs: &mut Vec<PollInterfaceBandwidth>,
    pairs: &mut Vec<PollPairBandwidth>,
    u: &InterfaceUpdate,
) -> (ok: bool)
    ensures
        ok == spec_apply_update((old(ifs)@, old(pairs)@), *u) is Some,
        ok ==> spec_apply_update((old(ifs)@, old(pairs)@), *u) == Some((final(ifs)@, final(pairs)@)),
{
    let ghost st = (ifs@, pairs@);
    let i = match find_iface(ifs, &u.interface) {
        Some(i) => i,
        None => {
            ifs.push(
                PollInterfaceBandwidth {
                    name: u.interface.clone(),
                    lifetime_rx_bytes: 0,
                    lifetime_tx_bytes: 0,
                    last_lifetime_rx_bytes: 0,
                    last_lifetime_tx_bytes: 0,
                    rx_delta: 0,
                    tx_delta: 0,
                },
            );
            ifs.len() - 1
        },
    };
    let j = match find_pair(pairs, u.pid, &u.interface) {
        Some(j) => j,
        None => {
            pairs.push(
                PollPairBandwidth {
                    pid: u.pid,
                    interface: u.interface.clone(),
                    bytes: ByteCounts::zero(),
                    last: ByteCounts::zero(),
                },
            );
            pairs.len() - 1
        },
    };
    let rx = match ifs[i].lifetime_rx_bytes.checked_add(u.delta_rx) {
        Some(v) => v,
        None => return false,
    };
    let tx = match ifs[i].lifetime_tx_bytes.checked_add(u.delta_tx) {
        Some(v) => v,
        None => return false,
    };
    let b = match pairs[j].bytes.add_both(u.category, u.delta_rx, u.delta_tx) {
        Some(b) => b,
        None => return false,
    };
    let f = &ifs[i];
    let nf = PollInterfaceBandwidth {
        name: f.name.clone(),
        lifetime_rx_bytes: rx,
        lifetime_tx_bytes: tx,
        last_lifetime_rx_bytes: f.last_lifetime_rx_bytes,
        last_lifetime_tx_bytes: f.last_lifetime_tx_bytes,
        rx_delta: f.rx_delta,
        tx_delta: f.tx_delta,
    };
    let np = PollPairBandwidth {
        pid: pairs[j].pid,
        interface: pairs[j].interface.clone(),
        bytes: b,
        last: pairs[j].last,
    };
    ifs.set(i, nf);
    pairs.set(j, np);
    true
}

fn apply_updates(
    ifs: &mut Vec<PollInterfaceBandwidth>,
    pairs: &mut Vec<PollPairBandwidth>,
    us: &Vec<InterfaceUpdate>,
) -> (ok: bool)
    ensures
        ok == spec_apply_updates(Some((old(ifs)@, old(pairs)@)), us@, us@.len() as int) is Some,
        ok ==> spec_apply_updates(Some((old(ifs)@, old(pairs)@)), us@, us@.len() as int) == Some(
            (final(ifs)@, final(pairs)@),
        ),
{
    let ghost init = Some((ifs@, pairs@));
    let mut i: usize = 0;
    while i < us.len()
        invariant
            i <= us@.len(),
            init == Some((old(ifs)@, old(pairs)@)),
            spec_apply_updates(init, us@, i as int) == Some((ifs@, pairs@)),
        decreases us@.len() - i,
    {
        if !apply_update(ifs, pairs, &us[i]) {
            proof {
                assert(spec_apply_updates(init, us@, i + 1) is None);
                lemma_apply_updates_none(init, us@, i + 1, us@.len() as int);
            }
            return false;
        }
        i = i + 1;
    }
    true
}

/// A process entry after a rate computation: the bytes moved since the last
/// one become its deltas, and its lifetime totals the new reference.
pub open spec fn spec_rate_process(p: PollProcessBandwidth) -> PollProcessBandwidth {
    PollProcessBandwidth {
        deltas: spec_bytes_since(p.lifetime, p.last_lifetime),
        last_lifetime: p.lifetime,
        ..p
    }
}

/// An interface entry after a rate computation.
pub open spec fn spec_rate_interface(f: PollInterfaceBandwidth) -> PollInterfaceBandwidth {
    PollInterfaceBandwidth {
        rx_delta: spec_sat_sub(f.lifetime_rx_bytes, f.last_lifetime_rx_bytes),
        tx_delta: spec_sat_sub(f.lifetime_tx_bytes, f.last_lifetime_tx_bytes),
        last_lifetime_rx_bytes: f.lifetime_rx_bytes,
        last_lifetime_tx_bytes: f.lifetime_tx_bytes,
        ..f
    }
}

/// A pair entry after a rate computation: its totals become the reference.
pub open spec fn spec_rate_pair(p: PollPairBandwidth) -> PollPairBandwidth {
    PollPairBandwidth { last: p.bytes, ..p }
}

fn rate_processes(v: Vec<PollProcessBandwidth>) -> (r: Vec<PollProcessBandwidth>)
    ensures
        r@ == v@.map_values(|p: PollProcessBandwidth| spec_rate_process(p)),
{
    let mut r: Vec<PollProcessBandwidth> = Vec::new();
    let mut i: usize = 0;
    while i < v.len()
        invariant
            i <= v@.len(),
            r@ == v@.take(i as int).map_values(|p: PollProcessBandwidth| spec_rate_process(p)),
        decreases v@.len() - i,
    {
        let p = &v[i];
        r.push(
            PollProcessBandwidth {
                pid: p.pid,
                name: p.name.clone(),
                sums: p.sums,
                lifetime: p.lifetime,
                last_lifetime: p.lifetime,
                deltas: p.lifetime.since(&p.last_lifetime),
                connection_count: p.connection_count,
            },
        );
        i = i + 1;
        assert(r@ =~= v@.take(i as int).map_values(|p: PollProcessBandwidth| spec_rate_process(p)));
    }
    assert(v@.take(v@.len() as int) =~= v@);
    r
}

fn rate_interfaces(v: Vec<PollInterfaceBandwidth>) -> (r: Vec<PollInterfaceBandwidth>)
    ensures
        r@ == v@.map_values(|f: PollInterfaceBandwidth| spec_rate_interface(f)),
{
    let mut r: Vec<PollInterfaceBandwidth> = Vec::new();
    let mut i: usize = 0;
    while i < v.len()
        invariant
            i <= v@.len(),
            r@ == v@.take(i as int).map_values(|f: PollInterfaceBandwidth| spec_rate_interface(f)),
        decreases v@.len() - i,
    {
        let f = &v[i];
        r.push(
            PollInterfaceBandwidth {
                name: f.name.clone(),
                lifetime_rx_bytes: f.lifetime_rx_bytes,
                lifetime_tx_bytes: f.lifetime_tx_bytes,
                last_lifetime_rx_bytes: f.lifetime_rx_bytes,
                last_lifetime_tx_bytes: f.lifetime_tx_bytes,
                rx_delta: f.lifetime_rx_bytes.saturating_sub(f.last_lifetime_rx_bytes),
                tx_delta: f.lifetime_tx_bytes.saturating_sub(f.last_lifetime_tx_bytes),
            },
        );
        i = i + 1;
        assert(r@ =~= v@.take(i as int).map_values(|f: PollInterfaceBandwidth| spec_rate_interface(f)));
    }
    assert(v@.take(v@.len() as int) =~= v@);
    r
}

fn rate_pairs(v: Vec<PollPairBandwidth>) -> (r: Vec<PollPairBandwidth>)
    ensures
        r@ == v@.map_values(|p: PollPairBandwidth| spec_rate_pair(p)),
{
    let mut r: Vec<PollPairBandwidth> = Vec::new();
    let mut i: usize = 0;
    while i < v.len()
        invariant
            i <= v@.len(),
            r@ == v@.take(i as int).map_values(|p: PollPairBandwidth| spec_rate_pair(p)),
        decreases v@.len() - i,
    {
        let p = &v[i];
        r.push(
            PollPairBandwidth {
                pid: p.pid,
                interface: p.interface.clone(),
                bytes: p.bytes,
                last: p.bytes,
            },
        );
        i = i + 1;
        assert(r@ =~= v@.take(i as int).map_values(|p: PollPairBandwidth| spec_rate_pair(p)));
    }
    assert(v@.take(v@.len() as int) =~= v@);
    r
}

/// The connections with the counters read this round: connection `i`
/// takes sample `i` when there is one.
pub open spec fn spec_apply_readings(
    conns: Seq<PolledConnection>,
    samples: Seq<Option<(u64, u64)>>,
) -> Seq<PolledConnection> {
    Seq::new(
        conns.len(),
        |i: int|
            match spec_sample_at(samples, i) {
                Some((rx, tx)) => PolledConnection { bytes_received: rx, bytes_sent: tx, ..conns[i] },
                None => conns[i],
            },
    )
}

fn apply_readings(conns: &mut Vec<PolledConnection>, samples: &Vec<Option<(u64, u64)>>)
    ensures
        final(conns)@ == spec_apply_readings(old(conns)@, samples@),
{
    let ghost start = conns@;
    let mut i: usize = 0;
    while i < conns.len()
        invariant
            i <= conns@.len(),
            conns@.len() == start.len(),
            forall|j: int| 0 <= j < i ==> conns@[j] == spec_apply_readings(start, samples@)[j],
            forall|j: int| i <= j < conns@.len() ==> conns@[j] == start[j],
        decreases conns@.len() - i,
    {
        if i < samples.len() {
            match samples[i] {
                Some((rx, tx)) => {
                    let c = &conns[i];
                    let nc = PolledConnection {
                        key: c.key,
                        pid: c.pid,
                        process_name: c.process_name.clone(),
                        bytes_sent: tx,
                        bytes_received: rx,
                    };
                    conns.set(i, nc);
                },
                None => {},
            }
        }
        i = i + 1;
    }
    assert(conns@ =~= spec_apply_readings(start, samples@));
}

/// Why a polling round was dropped.
#[derive(Clone, Copy, Debug, PartialEq, Eq, Structural)]
pub enum PollError {
    /// A byte counter would have passed `u64::MAX`.
    CounterOverflow,
}

/// The connections, counters and interface cache behind the polling
/// monitor.
pub struct ConnectionTracker {
    pub tier: MonitoringTier,
    /// One entry per connection key in each list.
    pub tcp_connections: Vec<PolledConnection>,
    pub tcp6_connections: Vec<PolledConnection>,
    pub udp_connections: Vec<PolledConnection>,
    pub udp6_connections: Vec<PolledConnection>,
    pub process_bandwidth: Vec<PollProcessBandwidth>,
    pub interface_bandwidth: Vec<PollInterfaceBandwidth>,
    pub process_interface_bandwidth: Vec<PollPairBandwidth>,
    pub cached_interfaces: Vec<WindowsNetworkInterface>,
    pub connection_map: ConnectionMap,
}

/// Process entries and queued interface updates from one round's
/// connections: TCP with their samples, then TCP over IPv6 with theirs,
/// then UDP and UDP over IPv6, which are only counted.
pub open spec fn spec_round_aggregate(
    t: ConnectionTracker,
    earlier_tcp: Seq<PolledConnection>,
    earlier_tcp6: Seq<PolledConnection>,
    tcp_samples: Seq<Option<(u64, u64)>>,
    tcp6_samples: Seq<Option<(u64, u64)>>,
) -> Option<(Seq<PollProcessBandwidth>, Seq<InterfaceUpdate>)> {
    let prev = t.process_bandwidth@;
    let ifaces = t.cached_interfaces@;
    let a = spec_poll_fold(
        Some((Seq::empty(), Seq::empty())),
        t.tcp_connections@,
        tcp_samples,
        earlier_tcp,
        prev,
        ifaces,
        t.tcp_connections@.len() as int,
    );
    let b = spec_poll_fold(
        a,
        t.tcp6_connections@,
        tcp6_samples,
        earlier_tcp6,
        prev,
        ifaces,
        t.tcp6_connections@.len() as int,
    );
    let c = spec_poll_fold(
        b,
        t.udp_connections@,
        Seq::empty(),
        Seq::empty(),
        prev,
        ifaces,
        t.udp_connections@.len() as int,
    );
    spec_poll_fold(
        c,
        t.udp6_connections@,
        Seq::empty(),
        Seq::empty(),
        prev,
        ifaces,
        t.udp6_connections@.len() as int,
    )
}

proof fn lemma_poll_fold_from_none(
    conns: Seq<PolledConnection>,
    samples: Seq<Option<(u64, u64)>>,
    earlier: Seq<PolledConnection>,
    prev: Seq<PollProcessBandwidth>,
    ifaces: Seq<WindowsNetworkInterface>,
    n: int,
)
    requires
        0 <= n,
    ensures
        spec_poll_fold(None, conns, samples, earlier, prev, ifaces, n) is None,
    decreases n,
{
    if n > 0 {
        lemma_poll_fold_from_none(conns, samples, earlier, prev, ifaces, n - 1);
    }
}

impl ConnectionTracker {
    /// A tracker with nothing recorded.
    pub fn new(tier: MonitoringTier) -> (r: Self)
        ensures
            r.tier == tier,
            r.tcp_connections@.len() == 0,
            r.tcp6_connections@.len() == 0,
            r.udp_connections@.len() == 0,
            r.udp6_connections@.len() == 0,
            r.process_bandwidth@.len() == 0,
            r.interface_bandwidth@.len() == 0,
            r.process_interface_bandwidth@.len() == 0,
            r.cached_interfaces@.len() == 0,
            r.connection_map.socket_to_pid@.len() == 0,
            r.connection_map.tcp_connections@.len() == 0,
            r.connection_map.tcp6_connections@.len() == 0,
            r.connection_map.udp_connections@.len() == 0,
            r.connection_map.udp6_connections@.len() == 0,
    {
        ConnectionTracker {
            tier,
            tcp_connections: Vec::new(),
            tcp6_connections: Vec::new(),
            udp_connections: Vec::new(),
            udp6_connections: Vec::new(),
            process_bandwidth: Vec::new(),
            interface_bandwidth: Vec::new(),
            process_interface_bandwidth: Vec::new(),
            cached_interfaces: Vec::new(),
            connection_map: ConnectionMap::new(),
        }
    }

    /// Replace the connection lists with those of a fresh connection map
    /// (zeroed counters, one entry per key) and keep the map; gives back the
    /// previous TCP lists, IPv4 then IPv6.
    pub fn update_connection_list(&mut self, conn_map: ConnectionMap) -> (r: (
        Vec<PolledConnection>,
        Vec<PolledConnection>,
    ))
        ensures
            r.0@ == old(self).tcp_connections@,
            r.1@ == old(self).tcp6_connections@,
            final(self).tcp_connections@ == spec_collect(
                conn_map.socket_to_pid@,
                conn_map.tcp_connections@,
                PollProtocol::Tcp,
                conn_map.socket_to_pid@.len() as int,
            ),
            final(self).tcp6_connections@ == spec_collect(
                conn_map.socket_to_pid@,
                conn_map.tcp6_connections@,
                PollProtocol::TcpV6,
                conn_map.socket_to_pid@.len() as int,
            ),
            final(self).udp_connections@ == spec_collect(
                conn_map.socket_to_pid@,
                conn_map.udp_connections@,
                PollProtocol::Udp,
                conn_map.socket_to_pid@.len() as int,
            ),
            final(self).udp6_connections@ == spec_collect(
                conn_map.socket_to_pid@,
                conn_map.udp6_connections@,
                PollProtocol::UdpV6,
                conn_map.socket_to_pid@.len() as int,
            ),
            final(self).connection_map == conn_map,
            final(self).tier == old(self).tier,
            final(self).process_bandwidth == old(self).process_bandwidth,
            final(self).interface_bandwidth == old(self).interface_bandwidth,
            final(self).process_interface_bandwidth == old(self).process_interface_bandwidth,
            final(self).cached_interfaces == old(self).cached_interfaces,
    {
        let tcp = collect_connections(&conn_map.socket_to_pid, &conn_map.tcp_connections, PollProtocol::Tcp);
        let tcp6 = collect_connections(
            &conn_map.socket_to_pid,
            &conn_map.tcp6_connections,
            PollProtocol::TcpV6,
        );
        let udp = collect_connections(&conn_map.socket_to_pid, &conn_map.udp_connections, PollProtocol::Udp);
        let udp6 = collect_connections(
            &conn_map.socket_to_pid,
            &conn_map.udp6_connections,
            PollProtocol::UdpV6,
        );
        let mut earlier_tcp = tcp;
        std::mem::swap(&mut earlier_tcp, &mut self.tcp_connections);
        let mut earlier_tcp6 = tcp6;
        std::mem::swap(&mut earlier_tcp6, &mut self.tcp6_connections);
        self.udp_connections = udp;
        self.udp6_connections = udp6;
        self.connection_map = conn_map;
        (earlier_tcp, earlier_tcp6)
    }

    /// One statistics round, after `update_connection_list`: per-process
    /// bandwidth is rebuilt from the connections (TCP connection `i` read
    /// as its sample `i`, a connection seen in `earlier_*` adding what it
    /// moved since), queued interface updates are applied, the samples are
    /// stored on the connections and, when time has passed, the rates'
    /// deltas are computed. A round that would overflow a counter changes
    /// nothing and gives an error.
    pub fn update_connection_stats(
        &mut self,
        earlier_tcp: &Vec<PolledConnection>,
        earlier_tcp6: &Vec<PolledConnection>,
        tcp_samples: &Vec<Option<(u64, u64)>>,
        tcp6_samples: &Vec<Option<(u64, u64)>>,
        elapsed_positive: bool,
    ) -> (r: Result<(), PollError>)
        ensures
            match spec_round_aggregate(
                *old(self),
                earlier_tcp@,
                earlier_tcp6@,
                tcp_samples@,
                tcp6_samples@,
            ) {
                None => r == Err::<(), PollError>(PollError::CounterOverflow) && *final(self) == *old(self),
                Some((procs, ups)) => match spec_apply_updates(
                    Some((old(self).interface_bandwidth@, old(self).process_interface_bandwidth@)),
                    ups,
                    ups.len() as int,
                ) {
                    None => r == Err::<(), PollError>(PollError::CounterOverflow) && *final(self) == *old(self),
                    Some((ifs, pairs)) => {
                        &&& r is Ok
                        &&& final(self).process_bandwidth@ == if elapsed_positive {
                            procs.map_values(|p: PollProcessBandwidth| spec_rate_process(p))
                        } else {
                            procs
                        }
                        &&& final(self).interface_bandwidth@ == if elapsed_positive {
                            ifs.map_values(|f: PollInterfaceBandwidth| spec_rate_interface(f))
                        } else {
                            ifs
                        }
                        &&& final(self).process_interface_bandwidth@ == if elapsed_positive {
                            pairs.map_values(|p: PollPairBandwidth| spec_rate_pair(p))
                        } else {
                            pairs
                        }
                        &&& final(self).tcp_connections@ == spec_apply_readings(
                            old(self).tcp_connections@,
                            tcp_samples@,
                        )
                        &&& final(self).tcp6_connections@ == spec_apply_readings(
                            old(self).tcp6_connections@,
                            tcp6_samples@,
                        )
                        &&& final(self).udp_connections == old(self).udp_connections
                        &&& final(self).udp6_connections == old(self).udp6_connections
                        &&& final(self).tier == old(self).tier
                        &&& final(self).cached_interfaces == old(self).cached_interfaces
                        &&& final(self).connection_map == old(self).connection_map
                    },
                },
            },
    {
        let ghost t = *self;
        let mut procs: Vec<PollProcessBandwidth> = Vec::new();
        let mut ups: Vec<InterfaceUpdate> = Vec::new();
        let none: Vec<Option<(u64, u64)>> = Vec::new();
        let nobody: Vec<PolledConnection> = Vec::new();
        let ghost prev = self.process_bandwidth@;
        let ghost ifaces = self.cached_interfaces@;
        let ok1 = poll_fold(
            &mut procs,
            &mut ups,
            &self.tcp_connections,
            tcp_samples,
            earlier_tcp,
            &self.process_bandwidth,
            &self.cached_interfaces,
        );
        if !ok1 {
            proof {
                lemma_poll_fold_from_none(t.tcp6_connections@, tcp6_samples@, earlier_tcp6@, prev, ifaces, t.tcp6_connections@.len() as int);
                lemma_poll_fold_from_none(t.udp_connections@, Seq::empty(), Seq::empty(), prev, ifaces, t.udp_connections@.len() as int);
                lemma_poll_fold_from_none(t.udp6_connections@, Seq::empty(), Seq::empty(), prev, ifaces, t.udp6_connections@.len() as int);
            }
            return Err(PollError::CounterOverflow);
        }
        let ok2 = poll_fold(
            &mut procs,
            &mut ups,
            &self.tcp6_connections,
            tcp6_samples,
            earlier_tcp6,
            &self.process_bandwidth,
            &self.cached_interfaces,
        );
        if !ok2 {
            proof {
                lemma_poll_fold_from_none(t.udp_connections@, Seq::empty(), Seq::empty(), prev, ifaces, t.udp_connections@.len() as int);
                lemma_poll_fold_from_none(t.udp6_connections@, Seq::empty(), Seq::empty(), prev, ifaces, t.udp6_connections@.len() as int);
            }
            return Err(PollError::CounterOverflow);
        }
        assert(none@ =~= Seq::<Option<(u64, u64)>>::empty());
        assert(nobody@ =~= Seq::<PolledConnection>::empty());
        let ok3 = poll_fold(
            &mut procs,
            &mut ups,
            &self.udp_connections,
            &none,
            &nobody,
            &self.process_bandwidth,
            &self.cached_interfaces,
        );
        if !ok3 {
            proof {
                lemma_poll_fold_from_none(t.udp6_connections@, Seq::empty(), Seq::empty(), prev, ifaces, t.udp6_connections@.len() as int);
            }
            return Err(PollError::CounterOverflow);
        }
        let ok4 = poll_fold(
            &mut procs,
            &mut ups,
            &self.udp6_connections,
            &none,
            &nobody,
            &self.process_bandwidth,
            &self.cached_interfaces,
        );
        if !ok4 {
            return Err(PollError::CounterOverflow);
        }
        let mut ifs = copy_interfaces(&self.interface_bandwidth);
        let mut pairs = copy_pairs(&self.process_interface_bandwidth);
        if !apply_updates(&mut ifs, &mut pairs, &ups) {
            return Err(PollError::CounterOverflow);
        }
        apply_readings(&mut self.tcp_connections, tcp_samples);
        apply_readings(&mut self.tcp6_connections, tcp6_samples);
        if elapsed_positive {
            self.process_bandwidth = rate_processes(procs);
            self.interface_bandwidth = rate_interfaces(ifs);
            self.process_interface_bandwidth = rate_pairs(pairs);
        } else {
            self.process_bandwidth = procs;
            self.interface_bandwidth = ifs;
            self.process_interface_bandwidth = pairs;
        }
        Ok(())
    }
}

/// One interface of a process in a report.
#[derive(Clone, Debug)]
pub struct PollPairReport {
    pub interface: String,
    /// Bytes moved since the last rate computation.
    pub since_last: ByteCounts,
    pub total_download: u64,
    pub total_upload: u64,
}

/// One process in a report; all counters zero in the basic tier.
#[derive(Clone, Debug)]
pub struct PollProcessReport {
    pub pid: i32,
    pub name: String,
    /// Bytes moved between the last two rate computations.
    pub deltas: ByteCounts,
    /// Lifetime totals.
    pub lifetime: ByteCounts,
    pub interfaces: Vec<PollPairReport>,
}

/// One interface in a report.
#[derive(Clone, Debug)]
pub struct PollInterfaceReport {
    pub name: String,
    pub mac_address: Option<String>,
    pub ip_addresses: Vec<IpAddress>,
    pub is_up: bool,
    pub is_loopback: bool,
    /// Bytes moved between the last two rate computations.
    pub rx_delta: u64,
    pub tx_delta: u64,
    /// Processes with a TCP connection whose local address is on it.
    pub process_count: u64,
}

/// What the polling monitor shows.
pub struct PollReport {
    pub processes: Vec<PollProcessReport>,
    pub interfaces: Vec<PollInterfaceReport>,
}

/// The report of a pair entry.
pub open spec fn spec_pair_report(p: PollPairBandwidth) -> PollPairReport {
    PollPairReport {
        interface: p.interface,
        since_last: spec_bytes_since(p.bytes, p.last),
        total_download: p.bytes.rx,
        total_upload: p.bytes.tx,
    }
}

/// Reports of the first `n` pair entries of `pid`, in order.
pub open spec fn spec_pair_reports(pairs: Seq<PollPairBandwidth>, pid: i32, n: int) -> Seq<PollPairReport>
    decreases n,
{
    if n <= 0 {
        Seq::empty()
    } else {
        let r = spec_pair_reports(pairs, pid, n - 1);
        if pairs[n - 1].pid == pid {
            r.push(spec_pair_report(pairs[n - 1]))
        } else {
            r
        }
    }
}

fn pair_reports(pairs: &Vec<PollPairBandwidth>, pid: i32) -> (r: Vec<PollPairReport>)
    ensures
        r@ == spec_pair_reports(pairs@, pid, pairs@.len() as int),
{
    let mut r: Vec<PollPairReport> = Vec::new();
    let mut i: usize = 0;
    while i < pairs.len()
        invariant
            i <= pairs@.len(),
            r@ == spec_pair_reports(pairs@, pid, i as int),
        decreases pairs@.len() - i,
    {
        let p = &pairs[i];
        if p.pid == pid {
            r.push(
                PollPairReport {
                    interface: p.interface.clone(),
                    since_last: p.bytes.since(&p.last),
                    total_download: p.bytes.rx,
                    total_upload: p.bytes.tx,
                },
            );
        }
        i = i + 1;
    }
    r
}

fn add_first_names(r: &mut Vec<(i32, String)>, conns: &Vec<PolledConnection>)
    ensures
        final(r)@ == spec_first_names_from(old(r)@, conns@, conns@.len() as int),
{
    let ghost start = r@;
    let mut i: usize = 0;
    while i < conns.len()
        invariant
            i <= conns@.len(),
            r@ == spec_first_names_from(start, conns@, i as int),
        decreases conns@.len() - i,
    {
        let pid = conns[i].pid;
        let mut k: usize = 0;
        let mut seen = false;
        while k < r.len()
            invariant
                k <= r@.len(),
                seen == exists|j: int| 0 <= j < k && r@[j].0 == pid,
            decreases r@.len() - k,
        {
            if r[k].0 == pid {
                seen = true;
            }
            k = k + 1;
        }
        if !seen {
            r.push((pid, conns[i].process_name.clone()));
        }
        i = i + 1;
    }
}

/// `start` followed by the first name of each new process among the first
/// `n` connections.
pub open spec fn spec_first_names_from(start: Seq<(i32, String)>, conns: Seq<PolledConnection>, n: int) -> Seq<
    (i32, String),
>
    decreases n,
{
    if n <= 0 {
        start
    } else {
        let r = spec_first_names_from(start, conns, n - 1);
        if exists|j: int| 0 <= j < r.len() && r[j].0 == conns[n - 1].pid {
            r
        } else {
            r.push((conns[n - 1].pid, conns[n - 1].process_name))
        }
    }
}

/// The processes of the basic tier: those owning a connection, TCP, TCP
/// over IPv6, UDP, UDP over IPv6, each named after its first connection.
pub open spec fn spec_basic_names(t: ConnectionTracker) -> Seq<(i32, String)> {
    let a = spec_first_names_from(Seq::empty(), t.tcp_connections@, t.tcp_connections@.len() as int);
    let b = spec_first_names_from(a, t.tcp6_connections@, t.tcp6_connections@.len() as int);
    let c = spec_first_names_from(b, t.udp_connections@, t.udp_connections@.len() as int);
    spec_first_names_from(c, t.udp6_connections@, t.udp6_connections@.len() as int)
}

/// Pids among the first `n` connections whose local address is on the
/// interface named `name`, each once, in order of first appearance.
pub open spec fn spec_pids_on(
    conns: Seq<PolledConnection>,
    ifaces: Seq<WindowsNetworkInterface>,
    name: Seq<char>,
    start: Seq<i32>,
    n: int,
) -> Seq<i32>
    decreases n,
{
    if n <= 0 {
        start
    } else {
        let r = spec_pids_on(conns, ifaces, name, start, n - 1);
        if (spec_interface_for(ifaces, conns[n - 1].key.local_addr) matches Some(f) && f@ == name)
            && !r.contains(conns[n - 1].pid) {
            r.push(conns[n - 1].pid)
        } else {
            r
        }
    }
}

fn add_pids_on(
    r: &mut Vec<i32>,
    conns: &Vec<PolledConnection>,
    ifaces: &Vec<WindowsNetworkInterface>,
    name: &String,
)
    ensures
        final(r)@ == spec_pids_on(conns@, ifaces@, name@, old(r)@, conns@.len() as int),
{
    let ghost start = r@;
    let mut i: usize = 0;
    while i < conns.len()
        invariant
            i <= conns@.len(),
            r@ == spec_pids_on(conns@, ifaces@, name@, start, i as int),
        decreases conns@.len() - i,
    {
        let on = match get_interface_for_ip(&conns[i].key.local_addr, ifaces) {
            Some(f) => str_eq(f.as_str(), name.as_str()),
            None => false,
        };
        if on {
            let pid = conns[i].pid;
            let mut k: usize = 0;
            let mut seen = false;
            while k < r.len()
                invariant
                    k <= r@.len(),
                    seen == exists|j: int| 0 <= j < k && r@[j] == pid,
                decreases r@.len() - k,
            {
                if r[k] == pid {
                    seen = true;
                }
                k = k + 1;
            }
            if !seen {
                r.push(pid);
            }
        }
        i = i + 1;
    }
}

/// Whether an interface appears in reports: up, with an address.
pub open spec fn spec_listed(f: WindowsNetworkInterface) -> bool {
    f.is_up && f.ip_addresses@.len() > 0
}

/// Indices of the listed interfaces among the first `n`, in order.
pub open spec fn spec_listed_indices(ifaces: Seq<WindowsNetworkInterface>, n: int) -> Seq<int>
    decreases n,
{
    if n <= 0 {
        Seq::empty()
    } else {
        let r = spec_listed_indices(ifaces, n - 1);
        if spec_listed(ifaces[n - 1]) {
            r.push(n - 1)
        } else {
            r
        }
    }
}

/// The deltas recorded for an interface name, zero when it has no entry.
pub open spec fn spec_interface_deltas(bw: Seq<PollInterfaceBandwidth>, name: Seq<char>) -> (u64, u64) {
    match spec_find_iface(bw, name) {
        Some(j) => (bw[j].rx_delta, bw[j].tx_delta),
        None => (0, 0),
    }
}

/// Processes whose TCP connections (IPv4, then IPv6) have their local
/// address on the interface named `name`.
pub open spec fn spec_interface_pids(t: ConnectionTracker, name: Seq<char>) -> Seq<i32> {
    let ifaces = t.cached_interfaces@;
    let a = spec_pids_on(t.tcp_connections@, ifaces, name, Seq::empty(), t.tcp_connections@.len() as int);
    spec_pids_on(t.tcp6_connections@, ifaces, name, a, t.tcp6_connections@.len() as int)
}

fn copy_addresses(v: &Vec<IpAddress>) -> (r: Vec<IpAddress>)
    ensures
        r@ == v@,
{
    let mut r: Vec<IpAddress> = Vec::new();
    let mut i: usize = 0;
    while i < v.len()
        invariant
            i <= v@.len(),
            r@ == v@.take(i as int),
        decreases v@.len() - i,
    {
        r.push(v[i]);
        i = i + 1;
        assert(r@ =~= v@.take(i as int));
    }
    assert(v@.take(v@.len() as int) =~= v@);
    r
}

fn copy_text(o: &Option<String>) -> (r: Option<String>)
    ensures
        r == *o,
{
    match o {
        Some(t) => Some(t.clone()),
        None => None,
    }
}

impl ConnectionTracker {
    /// What the monitor shows. In the basic tier, each process owning a
    /// connection with its first connection's name and no counters; with
    /// statistics, each aggregated process with its deltas, lifetime totals
    /// and interfaces. Then each listed interface with its deltas and the
    /// number of processes with a TCP connection on it.
    pub fn report(&self) -> (r: PollReport)
        ensures
            self.tier == MonitoringTier::Basic ==> {
                let names = spec_basic_names(*self);
                &&& r.processes@.len() == names.len()
                &&& forall|k: int|
                    #![trigger r.processes@[k]]
                    0 <= k < names.len() ==> {
                        &&& r.processes@[k].pid == names[k].0
                        &&& r.processes@[k].name == names[k].1
                        &&& r.processes@[k].deltas == spec_zero_bytes()
                        &&& r.processes@[k].lifetime == spec_zero_bytes()
                        &&& r.processes@[k].interfaces@.len() == 0
                    }
            },
            self.tier == MonitoringTier::Stats ==> {
                let pb = self.process_bandwidth@;
                &&& r.processes@.len() == pb.len()
                &&& forall|k: int|
                    #![trigger r.processes@[k]]
                    0 <= k < pb.len() ==> {
                        &&& r.processes@[k].pid == pb[k].pid
                        &&& r.processes@[k].name == pb[k].name
                        &&& r.processes@[k].deltas == pb[k].deltas
                        &&& r.processes@[k].lifetime == pb[k].lifetime
                        &&& r.processes@[k].interfaces@ == spec_pair_reports(
                            self.process_interface_bandwidth@,
                            pb[k].pid,
                            self.process_interface_bandwidth@.len() as int,
                        )
                    }
            },
            ({
                let ifaces = self.cached_interfaces@;
                let idx = spec_listed_indices(ifaces, ifaces.len() as int);
                &&& r.interfaces@.len() == idx.len()
                &&& forall|k: int|
                    #![trigger r.interfaces@[k]]
                    0 <= k < idx.len() ==> {
                        let f = ifaces[idx[k]];
                        let d = spec_interface_deltas(self.interface_bandwidth@, f.friendly_name@);
                        &&& r.interfaces@[k].name == f.friendly_name
                        &&& r.interfaces@[k].mac_address == f.mac_address
                        &&& r.interfaces@[k].ip_addresses@ == f.ip_addresses@
                        &&& r.interfaces@[k].is_up == f.is_up
                        &&& r.interfaces@[k].is_loopback == f.is_loopback
                        &&& r.interfaces@[k].rx_delta == d.0
                        &&& r.interfaces@[k].tx_delta == d.1
                        &&& r.interfaces@[k].process_count == spec_interface_pids(
                            *self,
                            f.friendly_name@,
                        ).len()
                    }
            }),
    {
        let mut processes: Vec<PollProcessReport> = Vec::new();
        match self.tier {
            MonitoringTier::Basic => {
                let mut names: Vec<(i32, String)> = Vec::new();
                add_first_names(&mut names, &self.tcp_connections);
                add_first_names(&mut names, &self.tcp6_connections);
                add_first_names(&mut names, &self.udp_connections);
                add_first_names(&mut names, &self.udp6_connections);
                assert(names@ == spec_basic_names(*self));
                let mut k: usize = 0;
                while k < names.len()
                    invariant
                        k <= names@.len(),
                        processes@.len() == k,
                        forall|m: int|
                            #![trigger processes@[m]]
                            0 <= m < k ==> {
                                &&& processes@[m].pid == names@[m].0
                                &&& processes@[m].name == names@[m].1
                                &&& processes@[m].deltas == spec_zero_bytes()
                                &&& processes@[m].lifetime == spec_zero_bytes()
                                &&& processes@[m].interfaces@.len() == 0
                            },
                    decreases names@.len() - k,
                {
                    processes.push(
                        PollProcessReport {
                            pid: names[k].0,
                            name: names[k].1.clone(),
                            deltas: ByteCounts::zero(),
                            lifetime: ByteCounts::zero(),
                            interfaces: Vec::new(),
                        },
                    );
                    k = k + 1;
                }
            },
            MonitoringTier::Stats => {
                let pb = &self.process_bandwidth;
                let mut k: usize = 0;
                while k < pb.len()
                    invariant
                        k <= pb@.len(),
                        processes@.len() == k,
                        forall|m: int|
                            #![trigger processes@[m]]
                            0 <= m < k ==> {
                                &&& processes@[m].pid == pb@[m].pid
                                &&& processes@[m].name == pb@[m].name
                                &&& processes@[m].deltas == pb@[m].deltas
                                &&& processes@[m].lifetime == pb@[m].lifetime
                                &&& processes@[m].interfaces@ == spec_pair_reports(
                                    self.process_interface_bandwidth@,
                                    pb@[m].pid,
                                    self.process_interface_bandwidth@.len() as int,
                                )
                            },
                    decreases pb@.len() - k,
                {
                    let e = &pb[k];
                    processes.push(
                        PollProcessReport {
                            pid: e.pid,
                            name: e.name.clone(),
                            deltas: e.deltas,
                            lifetime: e.lifetime,
                            interfaces: pair_reports(&self.process_interface_bandwidth, e.pid),
                        },
                    );
                    k = k + 1;
                }
            },
        }
        let ifaces = &self.cached_interfaces;
        let mut interfaces: Vec<PollInterfaceReport> = Vec::new();
        let ghost idx: Seq<int> = Seq::empty();
        let mut i: usize = 0;
        while i < ifaces.len()
            invariant
                *ifaces == self.cached_interfaces,
                i <= ifaces@.len(),
                idx == spec_listed_indices(ifaces@, i as int),
                interfaces@.len() == idx.len(),
                forall|k: int|
                    #![trigger interfaces@[k]]
                    0 <= k < idx.len() ==> {
                        let f = ifaces@[idx[k]];
                        let d = spec_interface_deltas(self.interface_bandwidth@, f.friendly_name@);
                        &&& interfaces@[k].name == f.friendly_name
                        &&& interfaces@[k].mac_address == f.mac_address
                        &&& interfaces@[k].ip_addresses@ == f.ip_addresses@
                        &&& interfaces@[k].is_up == f.is_up
                        &&& interfaces@[k].is_loopback == f.is_loopback
                        &&& interfaces@[k].rx_delta == d.0
                        &&& interfaces@[k].tx_delta == d.1
                        &&& interfaces@[k].process_count == spec_interface_pids(
                            *self,
                            f.friendly_name@,
                        ).len()
                    },
            decreases ifaces@.len() - i,
        {
            let f = &ifaces[i];
            if f.is_up && f.ip_addresses.len() > 0 {
                let (rx_delta, tx_delta) = match find_iface(&self.interface_bandwidth, &f.friendly_name) {
                    Some(j) => (self.interface_bandwidth[j].rx_delta, self.interface_bandwidth[j].tx_delta),
                    None => (0, 0),
                };
                let mut pids: Vec<i32> = Vec::new();
                add_pids_on(&mut pids, &self.tcp_connections, ifaces, &f.friendly_name);
                add_pids_on(&mut pids, &self.tcp6_connections, ifaces, &f.friendly_name);
                assert(pids@ == spec_interface_pids(*self, f.friendly_name@));
                let count = pids.len() as u64;
                interfaces.push(
                    PollInterfaceReport {
                        name: f.friendly_name.clone(),
                        mac_address: copy_text(&f.mac_address),
                        ip_addresses: copy_addresses(&f.ip_addresses),
                        is_up: f.is_up,
                        is_loopback: f.is_loopback,
                        rx_delta,
                        tx_delta,
                        process_count: count,
                    },
                );
                proof {
                    idx = idx.push(i as int);
                }
            }
            i = i + 1;
        }
        PollReport { processes, interfaces }
    }
}

/// The lower-case hexadecimal digit of `d`.
pub open spec fn spec_hex_digit(d: int) -> char {
    if d < 10 {
        (d + 48) as char
    } else {
        (d + 87) as char
    }
}

/// A byte as two lower-case hexadecimal digits.
pub open spec fn spec_byte_hex(b: u8) -> Seq<char> {
    seq![spec_hex_digit(b as int / 16), spec_hex_digit(b as int % 16)]
}

/// The first six bytes as a MAC address: two digits each, `:` between.
pub open spec fn spec_mac_text(b: Seq<u8>) -> Seq<char> {
    spec_byte_hex(b[0]) + seq![':'] + spec_byte_hex(b[1]) + seq![':'] + spec_byte_hex(b[2]) + seq![
        ':',
    ] + spec_byte_hex(b[3]) + seq![':'] + spec_byte_hex(b[4]) + seq![':'] + spec_byte_hex(b[5])
}

fn hex_digit(d: u8) -> (c: char)
    requires
        d < 16,
    ensures
        c == spec_hex_digit(d as int),
{
    match d {
        0u8 => '0',
        1u8 => '1',
        2u8 => '2',
        3u8 => '3',
        4u8 => '4',
        5u8 => '5',
        6u8 => '6',
        7u8 => '7',
        8u8 => '8',
        9u8 => '9',
        10u8 => 'a',
        11u8 => 'b',
        12u8 => 'c',
        13u8 => 'd',
        14u8 => 'e',
        _ => 'f',
    }
}

fn push_byte_hex(s: &mut String, b: u8)
    ensures
        final(s)@ == old(s)@ + spec_byte_hex(b),
{
    push_char(s, hex_digit(b / 16));
    push_char(s, hex_digit(b % 16));
    assert(final(s)@ =~= old(s)@ + spec_byte_hex(b));
}

/// The MAC address text of an adapter's first six physical address bytes.
pub fn mac_text(b: &[u8; 8]) -> (r: String)
    ensures
        r@ == spec_mac_text(b@),
{
    let mut s = String::new();
    push_byte_hex(&mut s, b[0]);
    push_char(&mut s, ':');
    push_byte_hex(&mut s, b[1]);
    push_char(&mut s, ':');
    push_byte_hex(&mut s, b[2]);
    push_char(&mut s, ':');
    push_byte_hex(&mut s, b[3]);
    push_char(&mut s, ':');
    push_byte_hex(&mut s, b[4]);
    push_char(&mut s, ':');
    push_byte_hex(&mut s, b[5]);
    assert(s@ =~= spec_mac_text(b@));
    s
}

/// An interface from the fields of an adapter entry: the name `Unknown`
/// when the adapter has none, the friendly name falling back to the name,
/// a MAC address when at least six physical bytes are given, up when the
/// operational status is 1, loopback when the interface type is 24.
pub fn adapter_interface(
    adapter_name: Option<String>,
    friendly_name: Option<String>,
    physical: &[u8; 8],
    physical_len: u32,
    ip_addresses: Vec<IpAddress>,
    oper_status: i32,
    if_type: u32,
) -> (r: WindowsNetworkInterface)
    ensures
        r.name@ == match adapter_name {
            Some(n) => n@,
            None => "Unknown"@,
        },
        r.friendly_name@ == match friendly_name {
            Some(f) => f@,
            None => r.name@,
        },
        physical_len >= 6 ==> (r.mac_address matches Some(m) && m@ == spec_mac_text(physical@)),
        physical_len < 6 ==> r.mac_address is None,
        r.ip_addresses@ == ip_addresses@,
        r.is_up == (oper_status == 1),
        r.is_loopback == (if_type == 24),
{
    let name = match adapter_name {
        Some(n) => n,
        None => String::from_str("Unknown"),
    };
    let friendly = match friendly_name {
        Some(f) => f,
        None => name.clone(),
    };
    let mac = if physical_len >= 6 {
        Some(mac_text(physical))
    } else {
        None
    };
    WindowsNetworkInterface {
        name,
        friendly_name: friendly,
        mac_address: mac,
        ip_addresses,
        is_up: oper_status == 1,
        is_loopback: if_type == 24,
    }
}

/// What to do after a call that fills the adapter list.
#[derive(Clone, Copy, Debug, PartialEq, Eq, Structural)]
pub enum AdapterBufferStep {
    /// The list is complete.
    Done,
    /// The buffer was too small: grow it and call again.
    Grow,
    /// Give up with this error code.
    Fail(u32),
}

/// Success ends the calls; a too-small buffer (code 111) is retried up to
/// three times; anything else fails.
pub fn adapter_buffer_step(result: u32, attempts: u32) -> (r: AdapterBufferStep)
    ensures
        result == 0 ==> r == AdapterBufferStep::Done,
        result != 0 && result == 111 && attempts < 3 ==> r == AdapterBufferStep::Grow,
        result != 0 && !(result == 111 && attempts < 3) ==> r == AdapterBufferStep::Fail(result),
{
    if result == 0 {
        AdapterBufferStep::Done
    } else if result == 111 && attempts < 3 {
        AdapterBufferStep::Grow
    } else {
        AdapterBufferStep::Fail(result)
    }
}

/// Field by field, `a` is at most `b`.
pub open spec fn spec_bytes_le(a: ByteCounts, b: ByteCounts) -> bool {
    &&& a.rx <= b.rx
    &&& a.tx <= b.tx
    &&& a.internet_rx <= b.internet_rx
    &&& a.internet_tx <= b.internet_tx
    &&& a.local_rx <= b.local_rx
    &&& a.local_tx <= b.local_tx
}

/// The lifetime totals a process had in `prev`, zero when it had no entry.
pub open spec fn spec_prev_lifetime(prev: Seq<PollProcessBandwidth>, pid: i32) -> ByteCounts {
    match spec_prev_entry(prev, pid) {
        Some(p) => p.lifetime,
        None => spec_zero_bytes(),
    }
}

/// Every entry's lifetime totals are at least what its process had in `prev`.
pub open spec fn spec_keeps_lifetimes(procs: Seq<PollProcessBandwidth>, prev: Seq<PollProcessBandwidth>) -> bool {
    forall|k: int|
        0 <= k < procs.len() ==> spec_bytes_le(
            spec_prev_lifetime(prev, (#[trigger] procs[k]).pid),
            procs[k].lifetime,
        )
}

proof fn lemma_add_both_grows(c: ByteCounts, category: TrafficCategory, rx: u64, tx: u64)
    requires
        spec_add_both(c, category, rx, tx) is Some,
    ensures
        spec_bytes_le(c, spec_add_both(c, category, rx, tx)->0),
{
}

proof fn lemma_step_keeps_lifetimes(
    acc: (Seq<PollProcessBandwidth>, Seq<InterfaceUpdate>),
    c: PolledConnection,
    sample: Option<(u64, u64)>,
    earlier: Seq<PolledConnection>,
    prev: Seq<PollProcessBandwidth>,
    ifaces: Seq<WindowsNetworkInterface>,
)
    requires
        spec_keeps_lifetimes(acc.0, prev),
        spec_poll_step(acc, c, sample, earlier, prev, ifaces) is Some,
    ensures
        spec_keeps_lifetimes(spec_poll_step(acc, c, sample, earlier, prev, ifaces).unwrap().0, prev),
{
    let procs = spec_with_entry(acc.0, c, prev);
    let i = spec_slot(acc.0, c.pid);
    lemma_find_pid_bounds(acc.0, c.pid, acc.0.len() as int);
    assert(0 <= i < procs.len());
    assert(procs[i].pid == c.pid);
    assert(spec_keeps_lifetimes(procs, prev));
    let e = procs[i];
    let e1 = PollProcessBandwidth { connection_count: (e.connection_count + 1) as u64, ..e };
    let out = spec_poll_step(acc, c, sample, earlier, prev, ifaces).unwrap().0;
    match sample {
        None => {
            assert(out == procs.update(i, e1));
        },
        Some((rx, tx)) => {
            let before = spec_old_reading(earlier, c.key);
            let category = spec_categorize(c.key.remote_addr);
            let e2 = spec_read_entry(e1, rx, tx, before, category)->0;
            assert(out == procs.update(i, e2));
            match before {
                None => {},
                Some((prx, ptx)) => {
                    lemma_add_both_grows(e1.lifetime, category, spec_sat_sub(rx, prx), spec_sat_sub(tx, ptx));
                },
            }
            assert(spec_bytes_le(e.lifetime, e2.lifetime));
        },
    }
    assert forall|k: int| 0 <= k < out.len() implies spec_bytes_le(
        spec_prev_lifetime(prev, (#[trigger] out[k]).pid),
        out[k].lifetime,
    ) by {
        if k != i {
            assert(out[k] == procs[k]);
        }
    }
}

proof fn lemma_fold_keeps_lifetimes(
    acc: Option<(Seq<PollProcessBandwidth>, Seq<InterfaceUpdate>)>,
    conns: Seq<PolledConnection>,
    samples: Seq<Option<(u64, u64)>>,
    earlier: Seq<PolledConnection>,
    prev: Seq<PollProcessBandwidth>,
    ifaces: Seq<WindowsNetworkInterface>,
    n: int,
)
    requires
        acc matches Some(a) ==> spec_keeps_lifetimes(a.0, prev),
    ensures
        spec_poll_fold(acc, conns, samples, earlier, prev, ifaces, n) matches Some(a)
            ==> spec_keeps_lifetimes(a.0, prev),
    decreases n,
{
    if n > 0 {
        lemma_fold_keeps_lifetimes(acc, conns, samples, earlier, prev, ifaces, n - 1);
        match spec_poll_fold(acc, conns, samples, earlier, prev, ifaces, n - 1) {
            Some(a) => {
                if spec_poll_step(a, conns[n - 1], spec_sample_at(samples, n - 1), earlier, prev, ifaces)
                    is Some {
                    lemma_step_keeps_lifetimes(
                        a,
                        conns[n - 1],
                        spec_sample_at(samples, n - 1),
                        earlier,
                        prev,
                        ifaces,
                    );
                }
            },
            None => {},
        }
    }
}

/// A statistics round never lowers a process's lifetime totals: each
/// process entry it builds holds at least the totals the process had
/// before, and computing rates leaves them as they are.
pub proof fn lemma_lifetimes_never_decrease(
    t: ConnectionTracker,
    earlier_tcp: Seq<PolledConnection>,
    earlier_tcp6: Seq<PolledConnection>,
    tcp_samples: Seq<Option<(u64, u64)>>,
    tcp6_samples: Seq<Option<(u64, u64)>>,
)
    requires
        spec_round_aggregate(t, earlier_tcp, earlier_tcp6, tcp_samples, tcp6_samples) is Some,
    ensures
        ({
            let procs = spec_round_aggregate(t, earlier_tcp, earlier_tcp6, tcp_samples, tcp6_samples).unwrap().0;
            &&& spec_keeps_lifetimes(procs, t.process_bandwidth@)
            &&& spec_keeps_lifetimes(
                procs.map_values(|p: PollProcessBandwidth| spec_rate_process(p)),
                t.process_bandwidth@,
            )
        }),
{
    let prev = t.process_bandwidth@;
    let ifaces = t.cached_interfaces@;
    let init: Option<(Seq<PollProcessBandwidth>, Seq<InterfaceUpdate>)> = Some((Seq::empty(), Seq::empty()));
    lemma_fold_keeps_lifetimes(init, t.tcp_connections@, tcp_samples, earlier_tcp, prev, ifaces, t.tcp_connections@.len() as int);
    let a = spec_poll_fold(init, t.tcp_connections@, tcp_samples, earlier_tcp, prev, ifaces, t.tcp_connections@.len() as int);
    lemma_fold_keeps_lifetimes(a, t.tcp6_connections@, tcp6_samples, earlier_tcp6, prev, ifaces, t.tcp6_connections@.len() as int);
    let b = spec_poll_fold(a, t.tcp6_connections@, tcp6_samples, earlier_tcp6, prev, ifaces, t.tcp6_connections@.len() as int);
    lemma_fold_keeps_lifetimes(b, t.udp_connections@, Seq::empty(), Seq::empty(), prev, ifaces, t.udp_connections@.len() as int);
    let c = spec_poll_fold(b, t.udp_connections@, Seq::empty(), Seq::empty(), prev, ifaces, t.udp_connections@.len() as int);
    lemma_fold_keeps_lifetimes(c, t.udp6_connections@, Seq::empty(), Seq::empty(), prev, ifaces, t.udp6_connections@.len() as int);
    let procs = spec_round_aggregate(t, earlier_tcp, earlier_tcp6, tcp_samples, tcp6_samples).unwrap().0;
    let rated = procs.map_values(|p: PollProcessBandwidth| spec_rate_process(p));
    assert forall|k: int| 0 <= k < rated.len() implies spec_bytes_le(
        spec_prev_lifetime(prev, (#[trigger] rated[k]).pid),
        rated[k].lifetime,
    ) by {
        assert(rated[k] == spec_rate_process(procs[k]));
    }
}

} // verus!
