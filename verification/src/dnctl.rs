//! Upload throttling with dummynet pipes and packet filter rules: each
//! throttled process gets a pipe with its bandwidth, and one rule per TCP
//! connection sends that connection's outgoing traffic through the pipe.
use vstd::prelude::*;

use crate::backends::{BackendCapabilities, BackendPriority};
use crate::ip_text::{push_ip, spec_ip_text};
use crate::monitor::{ConnectionEntry, ConnectionMap, SocketOwner};
use crate::process::TrafficType;
use crate::text::{push_char, push_u64, spec_decimal, u64_text};
use crate::throttle::{is_all_traffic, UploadThrottleBackend};
use crate::traffic_classifier::IpAddress;

verus! {

/// The first pipe number handed out, clear of pipes set up by hand.
pub const FIRST_PIPE: u32 = 100;

/// The transport a rule matches.
#[derive(Clone, Copy, Debug, PartialEq, Eq, Structural)]
pub enum PfProtocol {
    Tcp,
}

/// A throttled connection.
#[derive(Clone, Copy, Debug, PartialEq, Eq, Structural)]
pub struct ConnectionInfo {
    pub local_addr: IpAddress,
    pub local_port: u16,
    pub remote_addr: IpAddress,
    pub remote_port: u16,
    pub protocol: PfProtocol,
}

/// The connection of a listed TCP socket.
pub open spec fn spec_info(e: ConnectionEntry) -> ConnectionInfo {
    ConnectionInfo {
        local_addr: e.local_addr,
        local_port: e.local_port,
        remote_addr: e.remote_addr,
        remote_port: e.remote_port,
        protocol: PfProtocol::Tcp,
    }
}

/// Whether `pid` owns a socket with this inode.
pub open spec fn spec_owns_inode(owners: Seq<SocketOwner>, pid: i32, inode: u64) -> bool {
    exists|j: int| 0 <= j < owners.len() && owners[j].pid == pid && owners[j].inode == inode
}

/// The connections among the first `n` listed sockets that `pid` owns.
pub open spec fn spec_pid_conns(
    owners: Seq<SocketOwner>,
    entries: Seq<ConnectionEntry>,
    pid: i32,
    n: int,
) -> Seq<ConnectionInfo>
    decreases n,
{
    if n <= 0 {
        Seq::empty()
    } else {
        let r = spec_pid_conns(owners, entries, pid, n - 1);
        if spec_owns_inode(owners, pid, entries[n - 1].inode) {
            r.push(spec_info(entries[n - 1]))
        } else {
            r
        }
    }
}

/// The TCP connections of `pid`, IPv4 then IPv6.
pub open spec fn spec_connections_for_pid(cm: ConnectionMap, pid: i32) -> Seq<ConnectionInfo> {
    spec_pid_conns(cm.socket_to_pid@, cm.tcp_connections@, pid, cm.tcp_connections@.len() as int)
        + spec_pid_conns(
        cm.socket_to_pid@,
        cm.tcp6_connections@,
        pid,
        cm.tcp6_connections@.len() as int,
    )
}

fn owns_inode(owners: &Vec<SocketOwner>, pid: i32, inode: u64) -> (r: bool)
    ensures
        r == spec_owns_inode(owners@, pid, inode),
{
    let mut i: usize = 0;
    while i < owners.len()
        invariant
            i <= owners@.len(),
            forall|j: int| 0 <= j < i ==> !(owners@[j].pid == pid && owners@[j].inode == inode),
        decreases owners@.len() - i,
    {
        if owners[i].pid == pid && owners[i].inode == inode {
            return true;
        }
        i = i + 1;
    }
    false
}

fn push_pid_conns(
    r: &mut Vec<ConnectionInfo>,
    owners: &Vec<SocketOwner>,
    entries: &Vec<ConnectionEntry>,
    pid: i32,
)
    ensures
        final(r)@ == old(r)@ + spec_pid_conns(owners@, entries@, pid, entries@.len() as int),
{
    let ghost start = r@;
    let mut i: usize = 0;
    while i < entries.len()
        invariant
            i <= entries@.len(),
            r@ == start + spec_pid_conns(owners@, entries@, pid, i as int),
        decreases entries@.len() - i,
    {
        let e = &entries[i];
        if owns_inode(owners, pid, e.inode) {
            r.push(
                ConnectionInfo {
                    local_addr: e.local_addr,
                    local_port: e.local_port,
                    remote_addr: e.remote_addr,
                    remote_port: e.remote_port,
                    protocol: PfProtocol::Tcp,
                },
            );
        }
        i = i + 1;
        assert(r@ =~= start + spec_pid_conns(owners@, entries@, pid, i as int));
    }
}

/// The TCP connections (IPv4, then IPv6) on sockets that `pid` owns.
pub fn get_connections_for_pid_from_map(conn_map: &ConnectionMap, pid: i32) -> (r: Vec<ConnectionInfo>)
    ensures
        r@ == spec_connections_for_pid(*conn_map, pid),
{
    let mut r: Vec<ConnectionInfo> = Vec::new();
    push_pid_conns(&mut r, &conn_map.socket_to_pid, &conn_map.tcp_connections, pid);
    push_pid_conns(&mut r, &conn_map.socket_to_pid, &conn_map.tcp6_connections, pid);
    assert(r@ =~= spec_connections_for_pid(*conn_map, pid));
    r
}

/// The rule that sends a connection's outgoing traffic through a pipe.
pub open spec fn spec_pf_rule(conn: ConnectionInfo, pipe_num: u32, interface: Seq<char>) -> Seq<char> {
    "dummynet out on "@ + interface + " proto tcp from "@ + spec_ip_text(conn.local_addr) + " port "@
        + spec_decimal(conn.local_port as nat) + " to "@ + spec_ip_text(conn.remote_addr)
        + " port "@ + spec_decimal(conn.remote_port as nat) + " pipe "@ + spec_decimal(
        pipe_num as nat,
    )
}

/// The rule that sends a connection's outgoing traffic through a pipe.
pub fn generate_pf_rule(conn: &ConnectionInfo, pipe_num: u32, interface: &str) -> (r: String)
    ensures
        r@ == spec_pf_rule(*conn, pipe_num, interface@),
{
    let mut s = String::from_str("dummynet out on ");
    s.append(interface);
    s.append(" proto tcp from ");
    push_ip(&mut s, &conn.local_addr);
    s.append(" port ");
    push_u64(&mut s, conn.local_port as u64);
    s.append(" to ");
    push_ip(&mut s, &conn.remote_addr);
    s.append(" port ");
    push_u64(&mut s, conn.remote_port as u64);
    s.append(" pipe ");
    push_u64(&mut s, pipe_num as u64);
    assert(s@ =~= spec_pf_rule(*conn, pipe_num, interface@));
    s
}

/// The rules of the first `n` connections, in order.
pub open spec fn spec_rules(conns: Seq<ConnectionInfo>, pipe_num: u32, interface: Seq<char>, n: int) -> Seq<
    Seq<char>,
>
    decreases n,
{
    if n <= 0 {
        Seq::empty()
    } else {
        spec_rules(conns, pipe_num, interface, n - 1).push(spec_pf_rule(conns[n - 1], pipe_num, interface))
    }
}

/// One rule per connection, in order.
pub fn generate_pf_rules(conns: &Vec<ConnectionInfo>, pipe_num: u32, interface: &str) -> (r: Vec<String>)
    ensures
        r@.len() == conns@.len(),
        forall|k: int|
            0 <= k < conns@.len() ==> (#[trigger] r@[k])@ == spec_pf_rule(conns@[k], pipe_num, interface@),
{
    let mut r: Vec<String> = Vec::new();
    let mut i: usize = 0;
    while i < conns.len()
        invariant
            i <= conns@.len(),
            r@.len() == i,
            forall|k: int|
                0 <= k < i ==> (#[trigger] r@[k])@ == spec_pf_rule(conns@[k], pipe_num, interface@),
        decreases conns@.len() - i,
    {
        r.push(generate_pf_rule(&conns[i], pipe_num, interface));
        i = i + 1;
    }
    r
}

/// The text handed to the packet filter: each rule on a line of its own.
pub open spec fn spec_rules_text(rules: Seq<String>, n: int) -> Seq<char>
    decreases n,
{
    if n <= 0 {
        Seq::empty()
    } else {
        spec_rules_text(rules, n - 1) + rules[n - 1]@ + seq!['\n']
    }
}

/// The text handed to the packet filter: the rules joined by newlines,
/// with a final newline.
pub fn rules_text(rules: &Vec<String>) -> (r: String)
    ensures
        r@ == spec_rules_text(rules@, rules@.len() as int),
{
    let mut s = String::new();
    let mut i: usize = 0;
    while i < rules.len()
        invariant
            i <= rules@.len(),
            s@ == spec_rules_text(rules@, i as int),
        decreases rules@.len() - i,
    {
        s.append(rules[i].as_str());
        push_char(&mut s, '\n');
        i = i + 1;
        assert(s@ =~= spec_rules_text(rules@, i as int));
    }
    s
}

/// The arguments that create a pipe with the limit in kilobits per second.
pub fn pipe_config_args(pipe_num: u32, limit_bytes_per_sec: u64) -> (r: Vec<String>)
    requires
        limit_bytes_per_sec * 8 <= u64::MAX,
    ensures
        r@.len() == 5,
        r@[0]@ == "pipe"@,
        r@[1]@ == spec_decimal(pipe_num as nat),
        r@[2]@ == "config"@,
        r@[3]@ == "bw"@,
        r@[4]@ == spec_decimal((limit_bytes_per_sec * 8 / 1000) as nat) + "Kbit/s"@,
{
    let kbps = limit_bytes_per_sec * 8 / 1000;
    let mut bw = u64_text(kbps);
    bw.append("Kbit/s");
    let mut r: Vec<String> = Vec::new();
    r.push(String::from_str("pipe"));
    r.push(u64_text(pipe_num as u64));
    r.push(String::from_str("config"));
    r.push(String::from_str("bw"));
    r.push(bw);
    r
}

/// The arguments that delete a pipe.
pub fn pipe_delete_args(pipe_num: u32) -> (r: Vec<String>)
    ensures
        r@.len() == 3,
        r@[0]@ == "pipe"@,
        r@[1]@ == spec_decimal(pipe_num as nat),
        r@[2]@ == "delete"@,
{
    let mut r: Vec<String> = Vec::new();
    r.push(String::from_str("pipe"));
    r.push(u64_text(pipe_num as u64));
    r.push(String::from_str("delete"));
    r
}

/// The interface throttled on: the first Ethernet port.
pub fn detect_interface() -> (r: String)
    ensures
        r@ == "en0"@,
{
    String::from_str("en0")
}

/// One throttled process.
#[derive(Debug)]
pub struct DnctlThrottle {
    pub pid: i32,
    pub pipe_num: u32,
    pub process_name: String,
    pub limit_bytes_per_sec: u64,
    /// Rules loaded for this process.
    pub pf_rules: Vec<String>,
    /// Connections that have a rule.
    pub connections: Vec<ConnectionInfo>,
}

/// Why a dummynet request failed.
#[derive(Clone, Copy, Debug, PartialEq, Eq, Structural)]
pub enum DnctlError {
    /// `dnctl` or `pfctl` is missing.
    Unavailable,
    AlreadyThrottled(i32),
    NotThrottled(i32),
}

/// New connections of a throttled process and their rules, to be loaded.
#[derive(Debug)]
pub struct PendingRules {
    pub pid: i32,
    pub connections: Vec<ConnectionInfo>,
    pub rules: Vec<String>,
}

/// The dummynet upload backend's bookkeeping.
#[derive(Debug)]
pub struct DnctlUpload {
    pub interface: String,
    /// Throttled processes, no process twice.
    pub active_throttles: Vec<DnctlThrottle>,
    pub next_pipe: u32,
    pub initialized: bool,
}

/// Index of the first of the first `n` throttles of `pid`.
pub open spec fn spec_throttle_in(s: Seq<DnctlThrottle>, pid: i32, n: int) -> Option<int>
    decreases n,
{
    if n <= 0 {
        None
    } else {
        match spec_throttle_in(s, pid, n - 1) {
            Some(i) => Some(i),
            None => if s[n - 1].pid == pid {
                Some(n - 1)
            } else {
                None
            },
        }
    }
}

/// Index of the throttle of `pid`.
pub open spec fn spec_throttle_index(s: Seq<DnctlThrottle>, pid: i32) -> Option<int> {
    spec_throttle_in(s, pid, s.len() as int)
}

proof fn lemma_throttle_in_stable(s: Seq<DnctlThrottle>, pid: i32, n: int, m: int)
    requires
        0 <= n <= m,
        spec_throttle_in(s, pid, n) is Some,
    ensures
        spec_throttle_in(s, pid, m) == spec_throttle_in(s, pid, n),
    decreases m - n,
{
    if m > n {
        lemma_throttle_in_stable(s, pid, n, m - 1);
    }
}

proof fn lemma_throttle_in_bounds(s: Seq<DnctlThrottle>, pid: i32, n: int)
    requires
        0 <= n <= s.len(),
    ensures
        spec_throttle_in(s, pid, n) matches Some(i) ==> 0 <= i < n && s[i].pid == pid,
        spec_throttle_in(s, pid, n) is None ==> forall|j: int| 0 <= j < n ==> s[j].pid != pid,
    decreases n,
{
    if n > 0 {
        lemma_throttle_in_bounds(s, pid, n - 1);
    }
}

/// The limit of `pid`'s throttle.
pub open spec fn spec_dnctl_limit(s: Seq<DnctlThrottle>, pid: i32) -> Option<u64> {
    match spec_throttle_index(s, pid) {
        Some(i) => Some(s[i].limit_bytes_per_sec),
        None => None,
    }
}

/// No process is throttled twice.
pub open spec fn spec_distinct(s: Seq<DnctlThrottle>) -> bool {
    forall|i: int, j: int| 0 <= i < j < s.len() ==> s[i].pid != s[j].pid
}

fn find_throttle(s: &Vec<DnctlThrottle>, pid: i32) -> (r: Option<usize>)
    ensures
        r matches Some(i) ==> spec_throttle_index(s@, pid) == Some(i as int) && i < s@.len()
            && s@[i as int].pid == pid,
        r is None ==> spec_throttle_index(s@, pid) is None,
        r is None ==> forall|j: int| 0 <= j < s@.len() ==> s@[j].pid != pid,
{
    let mut i: usize = 0;
    while i < s.len()
        invariant
            i <= s@.len(),
            spec_throttle_in(s@, pid, i as int) is None,
            forall|j: int| 0 <= j < i ==> s@[j].pid != pid,
        decreases s@.len() - i,
    {
        if s[i].pid == pid {
            proof {
                lemma_throttle_in_stable(s@, pid, i + 1, s@.len() as int);
            }
            return Some(i);
        }
        i = i + 1;
    }
    None
}

proof fn lemma_distinct_index(s: Seq<DnctlThrottle>, pid: i32, i: int)
    requires
        spec_distinct(s),
        0 <= i < s.len(),
        s[i].pid == pid,
    ensures
        spec_throttle_index(s, pid) == Some(i),
{
    lemma_throttle_in_bounds(s, pid, i);
    assert(spec_throttle_in(s, pid, i + 1) == Some(i));
    lemma_throttle_in_stable(s, pid, i + 1, s.len() as int);
}

proof fn lemma_absent_index(s: Seq<DnctlThrottle>, pid: i32)
    requires
        forall|j: int| 0 <= j < s.len() ==> s[j].pid != pid,
    ensures
        spec_throttle_index(s, pid) is None,
{
    lemma_throttle_in_bounds(s, pid, s.len() as int);
}

impl DnctlUpload {
    /// Bookkeeping for an interface, with no throttle and pipes from
    /// `FIRST_PIPE` on.
    pub fn new(interface: String) -> (r: Self)
        ensures
            r.interface == interface,
            r.active_throttles@.len() == 0,
            r.next_pipe == FIRST_PIPE,
            !r.initialized,
    {
        DnctlUpload { interface, active_throttles: Vec::new(), next_pipe: FIRST_PIPE, initialized: false }
    }

    /// Backend name.
    pub fn name(&self) -> (r: &'static str)
        ensures
            r@ == "dnctl"@,
    {
        "dnctl"
    }

    /// The preferred upload backend where it runs.
    pub fn priority(&self) -> (r: BackendPriority)
        ensures
            r == BackendPriority::Best,
    {
        BackendPriority::Best
    }

    /// Both address families, per process, matched per connection.
    pub fn capabilities(&self) -> (r: BackendCapabilities)
        ensures
            r.ipv4_support && r.ipv6_support && r.per_process && r.per_connection,
    {
        BackendCapabilities { ipv4_support: true, ipv6_support: true, per_process: true, per_connection: true }
    }

    /// Marks the backend ready when both tools are there.
    pub fn init(&mut self, available: bool) -> (r: Result<(), DnctlError>)
        ensures
            old(self).initialized ==> r is Ok && *final(self) == *old(self),
            !old(self).initialized && !available ==> r == Err::<(), DnctlError>(DnctlError::Unavailable)
                && *final(self) == *old(self),
            !old(self).initialized && available ==> r is Ok && final(self).initialized
                && final(self).active_throttles == old(self).active_throttles && final(self).next_pipe
                == old(self).next_pipe && final(self).interface == old(self).interface,
    {
        if self.initialized {
            return Ok(());
        }
        if !available {
            return Err(DnctlError::Unavailable);
        }
        self.initialized = true;
        Ok(())
    }

    /// The next pipe number.
    pub fn allocate_pipe(&mut self) -> (r: u32)
        requires
            old(self).next_pipe < u32::MAX,
        ensures
            r == old(self).next_pipe,
            final(self).next_pipe == old(self).next_pipe + 1,
            final(self).active_throttles == old(self).active_throttles,
            final(self).interface == old(self).interface,
            final(self).initialized == old(self).initialized,
    {
        let pipe = self.next_pipe;
        self.next_pipe = self.next_pipe + 1;
        pipe
    }

    /// First part of throttling a process: the backend is made ready, a
    /// process already throttled is refused, and a pipe number is handed out.
    pub fn begin_throttle(&mut self, pid: i32, available: bool) -> (r: Result<u32, DnctlError>)
        requires
            old(self).next_pipe < u32::MAX,
        ensures
            !old(self).initialized && !available ==> r == Err::<u32, DnctlError>(DnctlError::Unavailable)
                && *final(self) == *old(self),
            (old(self).initialized || available) && spec_dnctl_limit(old(self).active_throttles@, pid)
                is Some ==> r == Err::<u32, DnctlError>(DnctlError::AlreadyThrottled(pid))
                && final(self).active_throttles == old(self).active_throttles && final(self).next_pipe
                == old(self).next_pipe,
            (old(self).initialized || available) && spec_dnctl_limit(old(self).active_throttles@, pid)
                is None ==> r == Ok::<u32, DnctlError>(old(self).next_pipe) && final(self).next_pipe
                == old(self).next_pipe + 1 && final(self).active_throttles
                == old(self).active_throttles,
            r is Ok ==> final(self).initialized,
    {
        match self.init(available) {
            Err(e) => return Err(e),
            Ok(()) => {},
        }
        if find_throttle(&self.active_throttles, pid).is_some() {
            return Err(DnctlError::AlreadyThrottled(pid));
        }
        Ok(self.allocate_pipe())
    }

    /// The rules for a process's connections and pipe on this interface.
    pub fn throttle_rules(&self, pipe_num: u32, connections: &Vec<ConnectionInfo>) -> (r: Vec<String>)
        ensures
            r@.len() == connections@.len(),
            forall|k: int|
                0 <= k < connections@.len() ==> (#[trigger] r@[k])@ == spec_pf_rule(
                    connections@[k],
                    pipe_num,
                    self.interface@,
                ),
    {
        generate_pf_rules(connections, pipe_num, self.interface.as_str())
    }

    /// Last part of throttling a process: its pipe, limit, loaded rules and
    /// connections are recorded (replacing an earlier entry of the process).
    pub fn record_throttle(
        &mut self,
        pid: i32,
        process_name: String,
        limit_bytes_per_sec: u64,
        pipe_num: u32,
        pf_rules: Vec<String>,
        connections: Vec<ConnectionInfo>,
    )
        requires
            spec_distinct(old(self).active_throttles@),
        ensures
            spec_distinct(final(self).active_throttles@),
            spec_dnctl_limit(final(self).active_throttles@, pid) == Some(limit_bytes_per_sec),
            forall|q: i32|
                q != pid ==> spec_dnctl_limit(final(self).active_throttles@, q) == spec_dnctl_limit(
                    old(self).active_throttles@,
                    q,
                ),
            match spec_throttle_index(final(self).active_throttles@, pid) {
                Some(i) => final(self).active_throttles@[i].pipe_num == pipe_num
                    && final(self).active_throttles@[i].process_name == process_name
                    && final(self).active_throttles@[i].pf_rules@ == pf_rules@
                    && final(self).active_throttles@[i].connections@ == connections@,
                None => false,
            },
            final(self).next_pipe == old(self).next_pipe,
            final(self).interface == old(self).interface,
            final(self).initialized == old(self).initialized,
    {
        let ghost s0 = self.active_throttles@;
        let entry = DnctlThrottle {
            pid,
            pipe_num,
            process_name,
            limit_bytes_per_sec,
            pf_rules,
            connections,
        };
        match find_throttle(&self.active_throttles, pid) {
            Some(i) => {
                self.active_throttles.set(i, entry);
                proof {
                    let s1 = self.active_throttles@;
                    assert(spec_distinct(s1));
                    lemma_distinct_index(s1, pid, i as int);
                    assert forall|q: i32| q != pid implies spec_dnctl_limit(s1, q) == spec_dnctl_limit(
                        s0,
                        q,
                    ) by {
                        lemma_throttle_in_bounds(s0, q, s0.len() as int);
                        match spec_throttle_index(s0, q) {
                            Some(j) => {
                                lemma_distinct_index(s1, q, j);
                            },
                            None => {
                                lemma_absent_index(s1, q);
                            },
                        }
                    }
                }
            },
            None => {
                self.active_throttles.push(entry);
                proof {
                    let s1 = self.active_throttles@;
                    assert(spec_distinct(s1));
                    lemma_distinct_index(s1, pid, s0.len() as int);
                    assert forall|q: i32| q != pid implies spec_dnctl_limit(s1, q) == spec_dnctl_limit(
                        s0,
                        q,
                    ) by {
                        lemma_throttle_in_bounds(s0, q, s0.len() as int);
                        match spec_throttle_index(s0, q) {
                            Some(j) => {
                                lemma_distinct_index(s1, q, j);
                            },
                            None => {
                                lemma_absent_index(s1, q);
                            },
                        }
                    }
                }
            },
        }
    }

    /// Forgets a process's throttle and gives back its pipe number, to be
    /// deleted; an error when it is not throttled.
    pub fn remove_upload_throttle(&mut self, pid: i32) -> (r: Result<u32, DnctlError>)
        requires
            spec_distinct(old(self).active_throttles@),
        ensures
            spec_distinct(final(self).active_throttles@),
            match spec_throttle_index(old(self).active_throttles@, pid) {
                Some(i) => r == Ok::<u32, DnctlError>(old(self).active_throttles@[i].pipe_num),
                None => r == Err::<u32, DnctlError>(DnctlError::NotThrottled(pid)),
            },
            spec_dnctl_limit(final(self).active_throttles@, pid) is None,
            forall|q: i32|
                q != pid ==> spec_dnctl_limit(final(self).active_throttles@, q) == spec_dnctl_limit(
                    old(self).active_throttles@,
                    q,
                ),
            final(self).next_pipe == old(self).next_pipe,
            final(self).interface == old(self).interface,
            final(self).initialized == old(self).initialized,
    {
        let ghost s0 = self.active_throttles@;
        match find_throttle(&self.active_throttles, pid) {
            Some(i) => {
                let e = self.active_throttles.remove(i);
                proof {
                    let s1 = self.active_throttles@;
                    assert(s1 =~= s0.remove(i as int));
                    assert(spec_distinct(s1));
                    assert forall|j: int| 0 <= j < s1.len() implies s1[j].pid != pid by {
                        if j < i {
                            assert(s1[j] == s0[j]);
                        } else {
                            assert(s1[j] == s0[j + 1]);
                        }
                    }
                    lemma_absent_index(s1, pid);
                    assert forall|q: i32| q != pid implies spec_dnctl_limit(s1, q) == spec_dnctl_limit(
                        s0,
                        q,
                    ) by {
                        lemma_throttle_in_bounds(s0, q, s0.len() as int);
                        match spec_throttle_index(s0, q) {
                            Some(j) => {
                                if j < i {
                                    assert(s1[j] == s0[j]);
                                    lemma_distinct_index(s1, q, j);
                                } else {
                                    assert(j != i);
                                    assert(s1[j - 1] == s0[j]);
                                    lemma_distinct_index(s1, q, j - 1);
                                }
                            },
                            None => {
                                assert forall|k: int| 0 <= k < s1.len() implies s1[k].pid != q by {
                                    if k < i {
                                        assert(s1[k] == s0[k]);
                                    } else {
                                        assert(s1[k] == s0[k + 1]);
                                    }
                                }
                                lemma_absent_index(s1, q);
                            },
                        }
                    }
                }
                Ok(e.pipe_num)
            },
            None => {
                proof {
                    lemma_absent_index(s0, pid);
                }
                Err(DnctlError::NotThrottled(pid))
            },
        }
    }

    /// The limit of a process's throttle.
    pub fn get_upload_throttle(&self, pid: i32) -> (r: Option<u64>)
        ensures
            r == spec_dnctl_limit(self.active_throttles@, pid),
    {
        match find_throttle(&self.active_throttles, pid) {
            Some(i) => Some(self.active_throttles[i].limit_bytes_per_sec),
            None => None,
        }
    }

    /// Every throttled process with its limit, in table order.
    pub fn get_all_throttles(&self) -> (r: Vec<(i32, u64)>)
        ensures
            r@.len() == self.active_throttles@.len(),
            forall|k: int|
                0 <= k < r@.len() ==> (#[trigger] r@[k]) == (
                    self.active_throttles@[k].pid,
                    self.active_throttles@[k].limit_bytes_per_sec,
                ),
    {
        let mut r: Vec<(i32, u64)> = Vec::new();
        let mut i: usize = 0;
        while i < self.active_throttles.len()
            invariant
                i <= self.active_throttles@.len(),
                r@.len() == i,
                forall|k: int|
                    0 <= k < i ==> (#[trigger] r@[k]) == (
                        self.active_throttles@[k].pid,
                        self.active_throttles@[k].limit_bytes_per_sec,
                    ),
            decreases self.active_throttles@.len() - i,
        {
            r.push((self.active_throttles[i].pid, self.active_throttles[i].limit_bytes_per_sec));
            i = i + 1;
        }
        r
    }

    /// Every throttled process with its pipe, in table order, and no
    /// throttle afterwards; the pipes are then deleted.
    pub fn cleanup(&mut self) -> (r: Vec<(i32, u32)>)
        ensures
            r@.len() == old(self).active_throttles@.len(),
            forall|k: int|
                0 <= k < r@.len() ==> (#[trigger] r@[k]) == (
                    old(self).active_throttles@[k].pid,
                    old(self).active_throttles@[k].pipe_num,
                ),
            final(self).active_throttles@.len() == 0,
            final(self).next_pipe == old(self).next_pipe,
            final(self).interface == old(self).interface,
            final(self).initialized == old(self).initialized,
    {
        let mut r: Vec<(i32, u32)> = Vec::new();
        let mut i: usize = 0;
        while i < self.active_throttles.len()
            invariant
                i <= self.active_throttles@.len(),
                self.active_throttles == old(self).active_throttles,
                r@.len() == i,
                forall|k: int|
                    0 <= k < i ==> (#[trigger] r@[k]) == (
                        self.active_throttles@[k].pid,
                        self.active_throttles@[k].pipe_num,
                    ),
            decreases self.active_throttles@.len() - i,
        {
            r.push((self.active_throttles[i].pid, self.active_throttles[i].pipe_num));
            i = i + 1;
        }
        self.active_throttles.clear();
        r
    }
}

/// The first `n` connections of `current` that are not in `existing`.
pub open spec fn spec_new_conns(current: Seq<ConnectionInfo>, existing: Seq<ConnectionInfo>, n: int) -> Seq<
    ConnectionInfo,
>
    decreases n,
{
    if n <= 0 {
        Seq::empty()
    } else {
        let r = spec_new_conns(current, existing, n - 1);
        if existing.contains(current[n - 1]) {
            r
        } else {
            r.push(current[n - 1])
        }
    }
}

/// The connections of a throttled process that have no rule yet.
pub open spec fn spec_unruled(t: DnctlThrottle, cm: ConnectionMap) -> Seq<ConnectionInfo> {
    let current = spec_connections_for_pid(cm, t.pid);
    spec_new_conns(current, t.connections@, current.len() as int)
}

/// Indices of the first `n` throttles that have connections without rules.
pub open spec fn spec_pending_indices(s: Seq<DnctlThrottle>, cm: ConnectionMap, n: int) -> Seq<int>
    decreases n,
{
    if n <= 0 {
        Seq::empty()
    } else {
        let r = spec_pending_indices(s, cm, n - 1);
        if spec_unruled(s[n - 1], cm).len() > 0 {
            r.push(n - 1)
        } else {
            r
        }
    }
}

fn has_connection(v: &Vec<ConnectionInfo>, c: &ConnectionInfo) -> (r: bool)
    ensures
        r == v@.contains(*c),
{
    let mut i: usize = 0;
    while i < v.len()
        invariant
            i <= v@.len(),
            forall|j: int| 0 <= j < i ==> v@[j] != *c,
        decreases v@.len() - i,
    {
        if v[i] == *c {
            assert(v@[i as int] == *c);
            return true;
        }
        i = i + 1;
    }
    false
}

fn new_connections(current: &Vec<ConnectionInfo>, existing: &Vec<ConnectionInfo>) -> (r: Vec<
    ConnectionInfo,
>)
    ensures
        r@ == spec_new_conns(current@, existing@, current@.len() as int),
{
    let mut r: Vec<ConnectionInfo> = Vec::new();
    let mut i: usize = 0;
    while i < current.len()
        invariant
            i <= current@.len(),
            r@ == spec_new_conns(current@, existing@, i as int),
        decreases current@.len() - i,
    {
        if !has_connection(existing, &current[i]) {
            r.push(current[i]);
        }
        i = i + 1;
    }
    r
}

impl DnctlUpload {
    /// For each throttled process (in table order) with connections that
    /// have no rule yet: those connections and their rules, to be loaded.
    pub fn pending_rules(&self, conn_map: &ConnectionMap) -> (r: Vec<PendingRules>)
        ensures
            ({
                let s = self.active_throttles@;
                let idx = spec_pending_indices(s, *conn_map, s.len() as int);
                &&& r@.len() == idx.len()
                &&& forall|m: int|
                    #![trigger r@[m]]
                    0 <= m < idx.len() ==> {
                        let t = s[idx[m]];
                        &&& r@[m].pid == t.pid
                        &&& r@[m].connections@ == spec_unruled(t, *conn_map)
                        &&& r@[m].rules@.len() == r@[m].connections@.len()
                        &&& forall|k: int|
                            0 <= k < r@[m].rules@.len() ==> (#[trigger] r@[m].rules@[k])@ == spec_pf_rule(
                                r@[m].connections@[k],
                                t.pipe_num,
                                self.interface@,
                            )
                    }
            }),
    {
        let s = &self.active_throttles;
        let mut r: Vec<PendingRules> = Vec::new();
        let ghost idx: Seq<int> = Seq::empty();
        let mut i: usize = 0;
        while i < s.len()
            invariant
                *s == self.active_throttles,
                i <= s@.len(),
                idx == spec_pending_indices(s@, *conn_map, i as int),
                r@.len() == idx.len(),
                forall|m: int|
                    #![trigger r@[m]]
                    0 <= m < idx.len() ==> {
                        let t = s@[idx[m]];
                        &&& r@[m].pid == t.pid
                        &&& r@[m].connections@ == spec_unruled(t, *conn_map)
                        &&& r@[m].rules@.len() == r@[m].connections@.len()
                        &&& forall|k: int|
                            0 <= k < r@[m].rules@.len() ==> (#[trigger] r@[m].rules@[k])@ == spec_pf_rule(
                                r@[m].connections@[k],
                                t.pipe_num,
                                self.interface@,
                            )
                    },
            decreases s@.len() - i,
        {
            let t = &s[i];
            let current = get_connections_for_pid_from_map(conn_map, t.pid);
            let fresh = new_connections(&current, &t.connections);
            if fresh.len() > 0 {
                let rules = generate_pf_rules(&fresh, t.pipe_num, self.interface.as_str());
                r.push(PendingRules { pid: t.pid, connections: fresh, rules });
                proof {
                    idx = idx.push(i as int);
                }
            }
            i = i + 1;
        }
        r
    }

    /// After the rules of new connections were loaded: they and their
    /// connections are added to the process's throttle, if it still has one.
    pub fn apply_new_connections(&mut self, pid: i32, connections: Vec<ConnectionInfo>, rules: Vec<String>)
        requires
            spec_distinct(old(self).active_throttles@),
        ensures
            spec_distinct(final(self).active_throttles@),
            final(self).active_throttles@.len() == old(self).active_throttles@.len(),
            forall|k: int|
                0 <= k < old(self).active_throttles@.len() && old(self).active_throttles@[k].pid != pid
                    ==> final(self).active_throttles@[k] == old(self).active_throttles@[k],
            forall|k: int|
                #![trigger final(self).active_throttles@[k]]
                0 <= k < old(self).active_throttles@.len() && old(self).active_throttles@[k].pid == pid
                    ==> {
                    let a = old(self).active_throttles@[k];
                    let b = final(self).active_throttles@[k];
                    &&& b.pid == a.pid
                    &&& b.pipe_num == a.pipe_num
                    &&& b.process_name == a.process_name
                    &&& b.limit_bytes_per_sec == a.limit_bytes_per_sec
                    &&& b.pf_rules@ == a.pf_rules@ + rules@
                    &&& b.connections@ == a.connections@ + connections@
                },
            final(self).next_pipe == old(self).next_pipe,
            final(self).interface == old(self).interface,
            final(self).initialized == old(self).initialized,
    {
        let ghost s0 = self.active_throttles@;
        match find_throttle(&self.active_throttles, pid) {
            Some(i) => {
                let mut e = self.active_throttles.remove(i);
                let ghost e0 = e;
                let mut rules = rules;
                let mut connections = connections;
                e.pf_rules.append(&mut rules);
                e.connections.append(&mut connections);
                self.active_throttles.insert(i, e);
                proof {
                    let s1 = self.active_throttles@;
                    assert(e0 == s0[i as int]);
                    assert(s1 =~= s0.update(i as int, e));
                    assert forall|k: int| 0 <= k < s0.len() && s0[k].pid == pid implies k == i by {
                        if k != i {
                            assert(s0[k].pid != s0[i as int].pid);
                        }
                    }
                }
            },
            None => {},
        }
    }
}

impl UploadThrottleBackend for DnctlUpload {
    fn name(&self) -> (r: &'static str)
        ensures
            r@ == "dnctl"@,
    {
        DnctlUpload::name(self)
    }

    fn priority(&self) -> (r: BackendPriority)
        ensures
            r == BackendPriority::Best,
    {
        DnctlUpload::priority(self)
    }

    fn capabilities(&self) -> (r: BackendCapabilities)
        ensures
            r.ipv4_support && r.ipv6_support && r.per_process && r.per_connection,
    {
        DnctlUpload::capabilities(self)
    }

    fn get_upload_throttle(&self, pid: i32) -> (r: Option<u64>)
        ensures
            r == spec_dnctl_limit(self.active_throttles@, pid),
    {
        DnctlUpload::get_upload_throttle(self, pid)
    }

    fn supports_traffic_type(&self, traffic_type: TrafficType) -> (r: bool) {
        is_all_traffic(traffic_type)
    }
}

} // verus!
