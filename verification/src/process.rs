//! Processes as shown to the user: their traffic, their throttle, their
//! connections and details.
use crate::monitor::{spec_socket_pid, socket_pid, ConnectionEntry, ConnectionMap, SocketOwner};
use crate::bpf::{spec_words, split_whitespace};
use crate::parse::{parse_i32, parse_u32, parse_u64, parse_usize, spec_signed, spec_unsigned};
use crate::text::{lines, spec_lines, str_eq};
use crate::traffic_classifier::IpAddress;
use vstd::prelude::*;

verus! {

/// Which traffic a throttle applies to.
#[derive(Clone, Copy, Debug, PartialEq, Eq, Hash, Structural)]
pub enum TrafficType {
    /// All traffic.
    All,
    /// Only traffic with internet peers.
    Internet,
    /// Only traffic with local peers.
    Local,
}

impl Default for TrafficType {
    fn default() -> (r: Self)
        ensures
            r == TrafficType::All,
    {
        TrafficType::All
    }
}

/// Limits of a throttle, in bytes per second.
#[derive(Clone, Copy, Debug, PartialEq, Eq, Structural)]
pub struct ThrottleLimit {
    pub download_limit: Option<u64>,
    pub upload_limit: Option<u64>,
    pub traffic_type: TrafficType,
}

/// Rates and totals of one process on one interface.
#[derive(Clone, Copy, Debug, PartialEq, Eq, Structural)]
pub struct InterfaceStats {
    pub download_rate: u64,
    pub upload_rate: u64,
    pub total_download: u64,
    pub total_upload: u64,
    pub internet_download_rate: u64,
    pub internet_upload_rate: u64,
    pub local_download_rate: u64,
    pub local_upload_rate: u64,
}

/// One network connection of a process.
#[derive(Clone, Debug)]
pub struct ConnectionDetail {
    /// "TCP", "TCP6", "UDP" or "UDP6".
    pub protocol: String,
    pub local_addr: IpAddress,
    pub local_port: u16,
    pub remote_addr: IpAddress,
    pub remote_port: u16,
    pub state: String,
}

/// A process with its traffic and throttle.
#[derive(Clone, Debug)]
pub struct ProcessInfo {
    pub pid: i32,
    pub name: String,
    pub download_rate: u64,
    pub upload_rate: u64,
    pub total_download: u64,
    pub total_upload: u64,
    pub internet_download_rate: u64,
    pub internet_upload_rate: u64,
    pub internet_total_download: u64,
    pub internet_total_upload: u64,
    pub local_download_rate: u64,
    pub local_upload_rate: u64,
    pub local_total_download: u64,
    pub local_total_upload: u64,
    pub throttle_limit: Option<ThrottleLimit>,
    pub is_terminated: bool,
    /// Per-interface statistics, by interface name.
    pub interface_stats: Vec<(String, InterfaceStats)>,
    pub connections: Vec<ConnectionDetail>,
}

/// The first `n` listed sockets owned by `pid`, in order.
pub open spec fn spec_owned_in(
    entries: Seq<ConnectionEntry>,
    owners: Seq<SocketOwner>,
    pid: i32,
    n: int,
) -> Seq<ConnectionEntry>
    decreases n,
{
    if n <= 0 {
        Seq::empty()
    } else {
        let prev = spec_owned_in(entries, owners, pid, n - 1);
        if spec_socket_pid(owners, entries[n - 1].inode) == Some(pid) {
            prev.push(entries[n - 1])
        } else {
            prev
        }
    }
}

/// The sockets of a list owned by `pid`.
pub open spec fn spec_owned(entries: Seq<ConnectionEntry>, owners: Seq<SocketOwner>, pid: i32) -> Seq<
    ConnectionEntry,
> {
    spec_owned_in(entries, owners, pid, entries.len() as int)
}

/// A connection detail describes a listed socket under a protocol name.
pub open spec fn spec_detail_of(d: ConnectionDetail, e: ConnectionEntry, protocol: Seq<char>) -> bool {
    &&& d.protocol@ == protocol
    &&& d.local_addr == e.local_addr
    &&& d.local_port == e.local_port
    &&& d.remote_addr == e.remote_addr
    &&& d.remote_port == e.remote_port
    &&& d.state == e.state
}

/// Details `from..from+len` describe the sockets `s` under `protocol`.
pub open spec fn spec_details_from(
    d: Seq<ConnectionDetail>,
    from: int,
    s: Seq<ConnectionEntry>,
    protocol: Seq<char>,
) -> bool {
    forall|j: int| 0 <= j < s.len() ==> spec_detail_of(#[trigger] d[from + j], s[j], protocol)
}

fn add_owned(
    out: &mut Vec<ConnectionDetail>,
    entries: &Vec<ConnectionEntry>,
    owners: &Vec<SocketOwner>,
    pid: i32,
    protocol: &str,
)
    ensures
        final(out)@.len() == old(out)@.len() + spec_owned(entries@, owners@, pid).len(),
        final(out)@.take(old(out)@.len() as int) == old(out)@,
        spec_details_from(
            final(out)@,
            old(out)@.len() as int,
            spec_owned(entries@, owners@, pid),
            protocol@,
        ),
{
    let mut i: usize = 0;
    while i < entries.len()
        invariant
            i <= entries@.len(),
            out@.len() == old(out)@.len() + spec_owned_in(entries@, owners@, pid, i as int).len(),
            out@.take(old(out)@.len() as int) == old(out)@,
            spec_details_from(
                out@,
                old(out)@.len() as int,
                spec_owned_in(entries@, owners@, pid, i as int),
                protocol@,
            ),
        decreases entries@.len() - i,
    {
        let e = &entries[i];
        let owner = socket_pid(owners, e.inode);
        if owner == Some(pid) {
            out.push(
                ConnectionDetail {
                    protocol: String::from_str(protocol),
                    local_addr: e.local_addr,
                    local_port: e.local_port,
                    remote_addr: e.remote_addr,
                    remote_port: e.remote_port,
                    state: e.state.clone(),
                },
            );
        }
        i = i + 1;
    }
}

impl ProcessInfo {
    /// A process with no traffic, no throttle, no interfaces and no connections.
    pub fn new(pid: i32, name: String) -> (r: Self)
        ensures
            r.pid == pid,
            r.name == name,
            r.download_rate == 0 && r.upload_rate == 0,
            r.total_download == 0 && r.total_upload == 0,
            r.internet_download_rate == 0 && r.internet_upload_rate == 0,
            r.internet_total_download == 0 && r.internet_total_upload == 0,
            r.local_download_rate == 0 && r.local_upload_rate == 0,
            r.local_total_download == 0 && r.local_total_upload == 0,
            r.throttle_limit is None,
            !r.is_terminated,
            r.interface_stats@.len() == 0,
            r.connections@.len() == 0,
    {
        ProcessInfo {
            pid,
            name,
            download_rate: 0,
            upload_rate: 0,
            total_download: 0,
            total_upload: 0,
            internet_download_rate: 0,
            internet_upload_rate: 0,
            internet_total_download: 0,
            internet_total_upload: 0,
            local_download_rate: 0,
            local_upload_rate: 0,
            local_total_download: 0,
            local_total_upload: 0,
            throttle_limit: None,
            is_terminated: false,
            interface_stats: Vec::new(),
            connections: Vec::new(),
        }
    }

    /// Whether a throttle is set on the process.
    pub fn is_throttled(&self) -> (r: bool)
        ensures
            r == self.throttle_limit is Some,
    {
        self.throttle_limit.is_some()
    }

    /// Replace the process's connections by the listed sockets it owns:
    /// TCP, TCP6, UDP and UDP6 sockets in that order.
    pub fn populate_connections(&mut self, connection_map: &ConnectionMap, socket_to_pid: &Vec<SocketOwner>)
        ensures
            ({
                let pid = old(self).pid;
                let tcp = spec_owned(connection_map.tcp_connections@, socket_to_pid@, pid);
                let tcp6 = spec_owned(connection_map.tcp6_connections@, socket_to_pid@, pid);
                let udp = spec_owned(connection_map.udp_connections@, socket_to_pid@, pid);
                let udp6 = spec_owned(connection_map.udp6_connections@, socket_to_pid@, pid);
                let c = final(self).connections@;
                &&& c.len() == tcp.len() + tcp6.len() + udp.len() + udp6.len()
                &&& spec_details_from(c, 0, tcp, "TCP"@)
                &&& spec_details_from(c, tcp.len() as int, tcp6, "TCP6"@)
                &&& spec_details_from(c, (tcp.len() + tcp6.len()) as int, udp, "UDP"@)
                &&& spec_details_from(c, (tcp.len() + tcp6.len() + udp.len()) as int, udp6, "UDP6"@)
            }),
            final(self).pid == old(self).pid,
            final(self).name == old(self).name,
            final(self).throttle_limit == old(self).throttle_limit,
            final(self).is_terminated == old(self).is_terminated,
    {
        let pid = self.pid;
        let mut out: Vec<ConnectionDetail> = Vec::new();
        add_owned(&mut out, &connection_map.tcp_connections, socket_to_pid, pid, "TCP");
        let ghost a = out@;
        add_owned(&mut out, &connection_map.tcp6_connections, socket_to_pid, pid, "TCP6");
        let ghost b = out@;
        add_owned(&mut out, &connection_map.udp_connections, socket_to_pid, pid, "UDP");
        let ghost c = out@;
        add_owned(&mut out, &connection_map.udp6_connections, socket_to_pid, pid, "UDP6");
        proof {
            let tcp = spec_owned(connection_map.tcp_connections@, socket_to_pid@, pid);
            let tcp6 = spec_owned(connection_map.tcp6_connections@, socket_to_pid@, pid);
            let udp = spec_owned(connection_map.udp_connections@, socket_to_pid@, pid);
            assert forall|j: int| 0 <= j < tcp.len() implies spec_detail_of(
                #[trigger] out@[0 + j],
                tcp[j],
                "TCP"@,
            ) by {
                assert(out@[0 + j] == c[0 + j]);
                assert(c[0 + j] == b[0 + j]);
                assert(b[0 + j] == a[0 + j]);
            }
            assert forall|j: int| 0 <= j < tcp6.len() implies spec_detail_of(
                #[trigger] out@[tcp.len() + j],
                tcp6[j],
                "TCP6"@,
            ) by {
                assert(out@[tcp.len() + j] == c[tcp.len() + j]);
                assert(c[tcp.len() + j] == b[tcp.len() + j]);
            }
            assert forall|j: int| 0 <= j < udp.len() implies spec_detail_of(
                #[trigger] out@[tcp.len() + tcp6.len() + j],
                udp[j],
                "UDP"@,
            ) by {
                assert(out@[tcp.len() + tcp6.len() + j] == c[tcp.len() + tcp6.len() + j]);
            }
        }
        self.connections = out;
    }
}

/// Unit for showing a byte count or rate: bytes below 1024, KiB below 1024
/// KiB, MiB below 1024 MiB, GiB from there on.
#[derive(Clone, Copy, Debug, PartialEq, Eq, Structural)]
pub enum ByteUnit {
    Bytes,
    Kilo,
    Mega,
    Giga,
}

/// The unit used to show `bytes`.
pub open spec fn spec_byte_unit(bytes: u64) -> ByteUnit {
    if bytes < 1024 {
        ByteUnit::Bytes
    } else if bytes < 1024 * 1024 {
        ByteUnit::Kilo
    } else if bytes < 1024 * 1024 * 1024 {
        ByteUnit::Mega
    } else {
        ByteUnit::Giga
    }
}

/// The unit used to show a byte count or rate.
pub fn byte_unit(bytes: u64) -> (r: ByteUnit)
    ensures
        r == spec_byte_unit(bytes),
{
    if bytes < 1024 {
        ByteUnit::Bytes
    } else if bytes < 1024 * 1024 {
        ByteUnit::Kilo
    } else if bytes < 1024 * 1024 * 1024 {
        ByteUnit::Mega
    } else {
        ByteUnit::Giga
    }
}

/// The unit used to show a memory size given in KiB: KiB below 1024, MiB
/// below 1024 MiB, GiB from there on.
pub fn memory_unit(kb: u64) -> (r: ByteUnit)
    ensures
        r == (if kb < 1024 {
            ByteUnit::Kilo
        } else if kb < 1024 * 1024 {
            ByteUnit::Mega
        } else {
            ByteUnit::Giga
        }),
{
    if kb < 1024 {
        ByteUnit::Kilo
    } else if kb < 1024 * 1024 {
        ByteUnit::Mega
    } else {
        ByteUnit::Giga
    }
}

/// Details of a process read from the operating system.
#[derive(Clone, Debug)]
pub struct ProcessDetails {
    pub pid: i32,
    pub name: String,
    pub cmdline: Option<Vec<String>>,
    pub exe_path: Option<String>,
    pub cwd: Option<String>,
    pub state: Option<String>,
    pub ppid: Option<i32>,
    pub threads: Option<usize>,
    /// Resident set size in KiB.
    pub memory_rss: Option<u64>,
    /// Virtual memory size in KiB.
    pub memory_vms: Option<u64>,
    pub uid: Option<u32>,
    pub gid: Option<u32>,
    pub connections: Vec<ConnectionDetail>,
}

/// The description of a process state code.
pub open spec fn spec_state_description(state: Option<Seq<char>>) -> Seq<char> {
    match state {
        Some(s) => if s == "R"@ {
            "Running"@
        } else if s == "S"@ {
            "Sleeping"@
        } else if s == "D"@ {
            "Disk Sleep"@
        } else if s == "Z"@ {
            "Zombie"@
        } else if s == "T"@ {
            "Stopped"@
        } else if s == "t"@ {
            "Tracing Stop"@
        } else if s == "W"@ {
            "Paging"@
        } else if s == "X"@ || s == "x"@ {
            "Dead"@
        } else if s == "K"@ {
            "Wakekill"@
        } else if s == "P"@ {
            "Parked"@
        } else if s == "I"@ {
            "Idle"@
        } else {
            s
        },
        None => "Unknown"@,
    }
}

impl ProcessDetails {
    /// Human-readable state: the name of a known state code, the code itself
    /// otherwise, `Unknown` without one.
    pub fn state_description(&self) -> (r: String)
        ensures
            r@ == spec_state_description(
                match self.state {
                    Some(s) => Some(s@),
                    None => None,
                },
            ),
    {
        match &self.state {
            Some(s) => {
                let t = s.as_str();
                if crate::text::str_eq(t, "R") {
                    String::from_str("Running")
                } else if crate::text::str_eq(t, "S") {
                    String::from_str("Sleeping")
                } else if crate::text::str_eq(t, "D") {
                    String::from_str("Disk Sleep")
                } else if crate::text::str_eq(t, "Z") {
                    String::from_str("Zombie")
                } else if crate::text::str_eq(t, "T") {
                    String::from_str("Stopped")
                } else if crate::text::str_eq(t, "t") {
                    String::from_str("Tracing Stop")
                } else if crate::text::str_eq(t, "W") {
                    String::from_str("Paging")
                } else if crate::text::str_eq(t, "X") || crate::text::str_eq(t, "x") {
                    String::from_str("Dead")
                } else if crate::text::str_eq(t, "K") {
                    String::from_str("Wakekill")
                } else if crate::text::str_eq(t, "P") {
                    String::from_str("Parked")
                } else if crate::text::str_eq(t, "I") {
                    String::from_str("Idle")
                } else {
                    String::from_str(t)
                }
            },
            None => String::from_str("Unknown"),
        }
    }
}

/// `s` read as an unsigned number that fits below `max`.
pub open spec fn spec_read_unsigned(s: Seq<char>, max: nat) -> Option<nat> {
    match spec_unsigned(s) {
        Some(v) => if v <= max {
            Some(v)
        } else {
            None
        },
        None => None,
    }
}

/// `s` read as an `i32`.
pub open spec fn spec_read_i32(s: Seq<char>) -> Option<i32> {
    match spec_signed(s) {
        Some(v) => if i32::MIN <= v <= i32::MAX {
            Some(v as i32)
        } else {
            None
        },
        None => None,
    }
}

/// The fields of a status file: state code, parent, threads, resident and
/// virtual memory (KiB), real user and group.
pub struct StatusFields {
    pub state: Option<String>,
    pub ppid: Option<i32>,
    pub threads: Option<usize>,
    pub memory_rss: Option<u64>,
    pub memory_vms: Option<u64>,
    pub uid: Option<u32>,
    pub gid: Option<u32>,
}

/// What the status lines say so far: state, parent, threads, resident
/// and virtual memory, user, group.
pub open spec fn spec_status_line(
    acc: (Option<Seq<char>>, Option<i32>, Option<nat>, Option<nat>, Option<nat>, Option<nat>, Option<nat>),
    w: Seq<Seq<char>>,
) -> (Option<Seq<char>>, Option<i32>, Option<nat>, Option<nat>, Option<nat>, Option<nat>, Option<nat>) {
    if w.len() < 2 {
        acc
    } else if w[0] == "State:"@ {
        (Some(w[1]), acc.1, acc.2, acc.3, acc.4, acc.5, acc.6)
    } else if w[0] == "PPid:"@ {
        (acc.0, spec_read_i32(w[1]), acc.2, acc.3, acc.4, acc.5, acc.6)
    } else if w[0] == "Threads:"@ {
        (acc.0, acc.1, spec_read_unsigned(w[1], usize::MAX as nat), acc.3, acc.4, acc.5, acc.6)
    } else if w[0] == "VmRSS:"@ {
        (acc.0, acc.1, acc.2, spec_read_unsigned(w[1], u64::MAX as nat), acc.4, acc.5, acc.6)
    } else if w[0] == "VmSize:"@ {
        (acc.0, acc.1, acc.2, acc.3, spec_read_unsigned(w[1], u64::MAX as nat), acc.5, acc.6)
    } else if w[0] == "Uid:"@ {
        (acc.0, acc.1, acc.2, acc.3, acc.4, spec_read_unsigned(w[1], u32::MAX as nat), acc.6)
    } else if w[0] == "Gid:"@ {
        (acc.0, acc.1, acc.2, acc.3, acc.4, acc.5, spec_read_unsigned(w[1], u32::MAX as nat))
    } else {
        acc
    }
}

/// The fields after the first `n` lines: each recognized key with a value
/// sets its field, a later line overriding an earlier one.
pub open spec fn spec_status(ls: Seq<Seq<char>>, n: int) -> (
    Option<Seq<char>>,
    Option<i32>,
    Option<nat>,
    Option<nat>,
    Option<nat>,
    Option<nat>,
    Option<nat>,
)
    decreases n,
{
    if n <= 0 {
        (None, None, None, None, None, None, None)
    } else {
        spec_status_line(spec_status(ls, n - 1), spec_words(ls[n - 1]))
    }
}

/// The view of parsed status fields.
pub open spec fn spec_fields_view(f: StatusFields) -> (
    Option<Seq<char>>,
    Option<i32>,
    Option<nat>,
    Option<nat>,
    Option<nat>,
    Option<nat>,
    Option<nat>,
) {
    (
        match f.state {
            Some(s) => Some(s@),
            None => None,
        },
        f.ppid,
        match f.threads {
            Some(v) => Some(v as nat),
            None => None,
        },
        match f.memory_rss {
            Some(v) => Some(v as nat),
            None => None,
        },
        match f.memory_vms {
            Some(v) => Some(v as nat),
            None => None,
        },
        match f.uid {
            Some(v) => Some(v as nat),
            None => None,
        },
        match f.gid {
            Some(v) => Some(v as nat),
            None => None,
        },
    )
}

impl ProcessDetails {
    /// The fields of a process status file.
    pub fn parse_status(content: &str) -> (r: StatusFields)
        ensures
            spec_fields_view(r) == spec_status(spec_lines(content@), spec_lines(content@).len() as int),
    {
        let ls = lines(content);
        let ghost views = spec_lines(content@);
        let mut f = StatusFields {
            state: None,
            ppid: None,
            threads: None,
            memory_rss: None,
            memory_vms: None,
            uid: None,
            gid: None,
        };
        let mut i: usize = 0;
        while i < ls.len()
            invariant
                i <= ls@.len(),
                ls@.len() == views.len(),
                forall|j: int| 0 <= j < ls@.len() ==> (#[trigger] ls@[j])@ == views[j],
                spec_fields_view(f) == spec_status(views, i as int),
            decreases ls@.len() - i,
        {
            let parts = split_whitespace(ls[i].as_str());
            let ghost w = spec_words(views[i as int]);
            assert(ls@[i as int]@ == views[i as int]);
            assert(parts@.len() == w.len());
            if parts.len() >= 2 {
                assert(parts@[0]@ == w[0] && parts@[1]@ == w[1]);
                let key = parts[0].as_str();
                let value = parts[1].as_str();
                if str_eq(key, "State:") {
                    f.state = Some(String::from_str(value));
                } else if str_eq(key, "PPid:") {
                    f.ppid = parse_i32(value);
                } else if str_eq(key, "Threads:") {
                    f.threads = parse_usize(value);
                } else if str_eq(key, "VmRSS:") {
                    f.memory_rss = parse_u64(value);
                } else if str_eq(key, "VmSize:") {
                    f.memory_vms = parse_u64(value);
                } else if str_eq(key, "Uid:") {
                    f.uid = parse_u32(value);
                } else if str_eq(key, "Gid:") {
                    f.gid = parse_u32(value);
                }
            }
            i = i + 1;
        }
        f
    }
}

} // verus!
