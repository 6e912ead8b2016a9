//! Naming processes and recording socket owners the way each platform's
//! process listing does, and the packet-capture monitor's identity.
use vstd::prelude::*;

use crate::backends::{BackendCapabilities, BackendPriority};
use crate::monitor::{spec_socket_pid, spec_socket_pid_in, BandwidthTracker, ConnectionMap, SocketOwner};
use crate::parse::{spec_trim, trim};
use crate::text::{push_i64, spec_int_text};

verus! {

/// A running process.
#[derive(Clone, Debug)]
pub struct ProcessEntry {
    pub pid: i32,
    pub name: String,
}

/// `PID <pid>`, the name of a process whose own name cannot be read.
pub open spec fn spec_pid_label(pid: i32) -> Seq<char> {
    "PID "@ + spec_int_text(pid as int)
}

/// `PID <pid>`.
pub fn pid_label(pid: i32) -> (r: String)
    ensures
        r@ == spec_pid_label(pid),
{
    let mut s = String::from_str("PID ");
    push_i64(&mut s, pid as i64);
    s
}

/// Process listing through the proc file system.
#[derive(Clone, Copy, Debug)]
pub struct LinuxProcessUtils;

impl LinuxProcessUtils {
    pub fn new() -> (r: Self) {
        LinuxProcessUtils
    }

    /// A process's name from its `comm` file, trimmed, or `PID <pid>` when
    /// the file cannot be read.
    pub fn process_name(&self, pid: i32, comm: Option<String>) -> (r: String)
        ensures
            r@ == match comm {
                Some(c) => spec_trim(c@),
                None => spec_pid_label(pid),
            },
    {
        match comm {
            Some(c) => String::from_str(trim(c.as_str())),
            None => pid_label(pid),
        }
    }

    /// A listed process: named by its status line's command, or `PID <pid>`
    /// when that cannot be read.
    pub fn process_entry(&self, pid: i32, stat_comm: Option<String>) -> (r: ProcessEntry)
        ensures
            r.pid == pid,
            r.name@ == match stat_comm {
                Some(c) => c@,
                None => spec_pid_label(pid),
            },
    {
        let name = match stat_comm {
            Some(c) => c,
            None => pid_label(pid),
        };
        ProcessEntry { pid, name }
    }
}

/// Process listing through the system information library.
#[derive(Clone, Copy, Debug)]
pub struct MacOSProcessUtils;

impl MacOSProcessUtils {
    pub fn new() -> (r: Self) {
        MacOSProcessUtils
    }

    /// A process's name, `unknown` when it is not valid text; none when the
    /// process is not listed.
    pub fn process_name(&self, listed: bool, name: Option<String>) -> (r: Option<String>)
        ensures
            !listed ==> r is None,
            listed ==> (r matches Some(n) && n@ == match name {
                Some(t) => t@,
                None => "unknown"@,
            }),
    {
        if !listed {
            return None;
        }
        match name {
            Some(t) => Some(t),
            None => Some(String::from_str("unknown")),
        }
    }
}

proof fn lemma_pid_in_push(s: Seq<SocketOwner>, x: SocketOwner, inode: u64, n: int)
    requires
        0 <= n <= s.len(),
    ensures
        spec_socket_pid_in(s.push(x), inode, n) == spec_socket_pid_in(s, inode, n),
    decreases n,
{
    if n > 0 {
        lemma_pid_in_push(s, x, inode, n - 1);
        assert(s.push(x)[n - 1] == s[n - 1]);
    }
}

proof fn lemma_pid_in_absent(s: Seq<SocketOwner>, inode: u64, n: int)
    requires
        0 <= n <= s.len(),
        forall|j: int| 0 <= j < n ==> s[j].inode != inode,
    ensures
        spec_socket_pid_in(s, inode, n) is None,
    decreases n,
{
    if n > 0 {
        lemma_pid_in_absent(s, inode, n - 1);
    }
}

impl ConnectionMap {
    /// Records that the socket with this inode belongs to a process,
    /// replacing what was recorded for the inode before.
    pub fn record_socket(&mut self, inode: u64, pid: i32, name: String)
        ensures
            spec_socket_pid(final(self).socket_to_pid@, inode) == Some(pid),
            forall|j: int|
                0 <= j < final(self).socket_to_pid@.len() && final(self).socket_to_pid@[j].inode
                    == inode ==> final(self).socket_to_pid@[j].pid == pid
                    && final(self).socket_to_pid@[j].name == name,
            forall|other: u64|
                other != inode ==> spec_socket_pid(final(self).socket_to_pid@, other) == spec_socket_pid(
                    old(self).socket_to_pid@,
                    other,
                ),
            final(self).tcp_connections == old(self).tcp_connections,
            final(self).tcp6_connections == old(self).tcp6_connections,
            final(self).udp_connections == old(self).udp_connections,
            final(self).udp6_connections == old(self).udp6_connections,
    {
        let ghost s0 = self.socket_to_pid@;
        let mut kept: Vec<SocketOwner> = Vec::new();
        let mut i: usize = 0;
        while i < self.socket_to_pid.len()
            invariant
                self.socket_to_pid@ == s0,
                i <= s0.len(),
                forall|j: int| 0 <= j < kept@.len() ==> (#[trigger] kept@[j]).inode != inode,
                forall|other: u64|
                    other != inode ==> spec_socket_pid(kept@, other) == spec_socket_pid_in(s0, other, i as int),
            decreases s0.len() - i,
        {
            let o = &self.socket_to_pid[i];
            let ghost k0 = kept@;
            if o.inode != inode {
                let d = o.duplicate();
                kept.push(d);
                proof {
                    assert forall|other: u64| other != inode implies spec_socket_pid(kept@, other)
                        == spec_socket_pid_in(s0, other, i + 1) by {
                        lemma_pid_in_push(k0, d, other, k0.len() as int);
                        assert(kept@[k0.len() as int] == s0[i as int]);
                        assert(spec_socket_pid(k0, other) == spec_socket_pid_in(s0, other, i as int));
                    }
                }
            }
            i = i + 1;
        }
        let ghost k0 = kept@;
        let entry = SocketOwner { inode, pid, name };
        kept.push(entry);
        proof {
            lemma_pid_in_absent(k0, inode, k0.len() as int);
            lemma_pid_in_push(k0, entry, inode, k0.len() as int);
            assert forall|other: u64| other != inode implies spec_socket_pid(kept@, other) == spec_socket_pid(
                s0,
                other,
            ) by {
                lemma_pid_in_push(k0, entry, other, k0.len() as int);
            }
        }
        self.socket_to_pid = kept;
    }
}

/// Packet capture on every interface, with per-process accounting.
pub struct PnetMonitor {
    pub inner: BandwidthTracker,
}

impl PnetMonitor {
    /// A monitor with nothing recorded.
    pub fn new() -> (r: Self)
        ensures
            r.inner.connection_map@.len() == 0,
            r.inner.socket_map@.len() == 0,
            r.inner.process_bandwidth@.len() == 0,
    {
        PnetMonitor { inner: BandwidthTracker::new() }
    }

    /// Backend name.
    pub fn name(&self) -> (r: &'static str)
        ensures
            r@ == "pnet"@,
    {
        "pnet"
    }

    /// Priority for automatic selection.
    pub fn priority(&self) -> (r: BackendPriority)
        ensures
            r == BackendPriority::Good,
    {
        BackendPriority::Good
    }

    /// Both address families, per process, not per connection.
    pub fn capabilities(&self) -> (r: BackendCapabilities)
        ensures
            r.ipv4_support && r.ipv6_support && r.per_process && !r.per_connection,
    {
        BackendCapabilities { ipv4_support: true, ipv6_support: true, per_process: true, per_connection: false }
    }
}

} // verus!
