//! Bookkeeping of the Linux throttling backends: HTB classes for uploads,
//! an IFB device with HTB classes for downloads, ingress policing, nftables
//! rules and cgroup-attached token buckets.
//!
//! Each backend records which processes it throttles and with what; the
//! commands it runs are built here and executed outside.
use crate::backends::{BackendCapabilities, BackendPriority};
use crate::cgroup::{CgroupBackendType, CgroupHandle};
use crate::common::{CgroupThrottleConfig, ThrottleStats, TokenBucket, TRAFFIC_TYPE_ALL};
use crate::parse::{parse_u32, spec_unsigned};
use crate::pid_table::PidTable;
use crate::process::TrafficType;
use crate::tc::{detect_interface, InterfaceSummary, TcError};
use crate::text::{after_first, push_u64, spec_decimal};
use std::collections::HashMap;
use vstd::prelude::*;

verus! {

broadcast use vstd::std_specs::hash::group_hash_axioms;

/// Counters of a throttled process.
#[derive(Clone, Copy, Debug, Default, PartialEq, Eq, Structural)]
pub struct BackendStats {
    pub packets_total: u64,
    pub bytes_total: u64,
    pub packets_dropped: u64,
    pub bytes_dropped: u64,
}

/// The counters a token-bucket filter keeps, as backend statistics.
pub fn stats_from_filter(s: &ThrottleStats) -> (r: BackendStats)
    ensures
        r == (BackendStats {
            packets_total: s.packets_total,
            bytes_total: s.bytes_total,
            packets_dropped: s.packets_dropped,
            bytes_dropped: s.bytes_dropped,
        }),
{
    BackendStats {
        packets_total: s.packets_total,
        bytes_total: s.bytes_total,
        packets_dropped: s.packets_dropped,
        bytes_dropped: s.bytes_dropped,
    }
}

/// Errors of the throttling backends.
#[derive(Clone, Debug)]
pub enum ThrottleError {
    /// The backend throttles all traffic only.
    UnsupportedTrafficType(TrafficType),
    /// The backend has no cgroup backend yet.
    CgroupBackendNotInitialized,
    /// No cgroup backend can be used.
    NoCgroupBackend,
    /// The backend is not implemented.
    NotImplemented,
    /// The system cannot run the filters.
    EbpfNotSupported,
    /// No interface to shape.
    NoInterface,
}

/// The class id to shape a process with: the minor number of a version 1
/// cgroup's `1:<minor>` identifier when it reads, else `fallback`.
pub open spec fn spec_class_for(h: CgroupHandle, fallback: u32) -> u32 {
    if h.backend_type == CgroupBackendType::V1 {
        match crate::text::spec_after_first(h.identifier@, ":"@) {
            Some(rest) => match spec_unsigned(crate::text::spec_before_first(rest, ':')) {
                Some(v) => if v <= u32::MAX {
                    v as u32
                } else {
                    fallback
                },
                None => fallback,
            },
            None => fallback,
        }
    } else {
        fallback
    }
}

/// Pending classful throttle state shared by the HTB-based backends.
pub struct ClassThrottle {
    pub classid: u32,
    pub cgroup_handle: CgroupHandle,
}

/// HTB classes on the outgoing interface, one per throttled process.
pub struct TcHtbUpload {
    pub interface: String,
    pub active_throttles: PidTable<ClassThrottle>,
    /// Next class id to hand out; starts at 100.
    pub next_classid: u32,
    pub initialized: bool,
    pub cgroup_backend: Option<CgroupBackendType>,
}

/// The class a process is shaped with, from its cgroup handle.
pub fn class_for_handle(handle: &CgroupHandle, fallback: u32) -> (r: u32)
    ensures
        r == spec_class_for(*handle, fallback),
{
    if handle.backend_type == CgroupBackendType::V1 {
        match after_first(handle.identifier.as_str(), ":") {
            Some(rest) => {
                let piece = crate::text::before_first(rest.as_str(), ':');
                match parse_u32(piece.as_str()) {
                    Some(v) => v,
                    None => fallback,
                }
            },
            None => fallback,
        }
    } else {
        fallback
    }
}

impl TcHtbUpload {
    /// A backend on the detected interface, not initialized, class ids from 100.
    pub fn new(interfaces: &Vec<InterfaceSummary>) -> (r: Result<Self, ThrottleError>)
        ensures
            match r {
                Ok(b) => b.next_classid == 100 && !b.initialized && b.cgroup_backend is None
                    && b.active_throttles.entries@.len() == 0 && b.active_throttles.spec_wf(),
                Err(e) => e matches ThrottleError::NoInterface,
            },
    {
        match detect_interface(interfaces) {
            Ok(interface) => Ok(
                TcHtbUpload {
                    interface,
                    active_throttles: PidTable::new(),
                    next_classid: 100,
                    initialized: false,
                    cgroup_backend: None,
                },
            ),
            Err(_) => Err(ThrottleError::NoInterface),
        }
    }

    pub fn name(&self) -> (r: &'static str)
        ensures
            r@ == "tc_htb"@,
    {
        "tc_htb"
    }

    pub fn priority(&self) -> (r: BackendPriority)
        ensures
            r == BackendPriority::Good,
    {
        BackendPriority::Good
    }

    /// The cgroup backend, once initialized.
    pub fn get_cgroup_backend_mut(&self) -> (r: Result<CgroupBackendType, ThrottleError>)
        ensures
            match self.cgroup_backend {
                Some(k) => r matches Ok(x) && x == k,
                None => r matches Err(ThrottleError::CgroupBackendNotInitialized),
            },
    {
        match self.cgroup_backend {
            Some(k) => Ok(k),
            None => Err(ThrottleError::CgroupBackendNotInitialized),
        }
    }

    /// Finish initialization with the chosen cgroup backend; fails without one.
    pub fn finish_init(&mut self, cgroup: Option<CgroupBackendType>) -> (r: Result<(), ThrottleError>)
        ensures
            final(self).cgroup_backend == cgroup,
            final(self).initialized == (cgroup is Some),
            r is Ok <==> cgroup is Some,
            r matches Err(e) ==> e matches ThrottleError::NoCgroupBackend,
            final(self).next_classid == old(self).next_classid,
            final(self).active_throttles == old(self).active_throttles,
            final(self).interface == old(self).interface,
    {
        self.cgroup_backend = cgroup;
        if cgroup.is_none() {
            self.initialized = false;
            return Err(ThrottleError::NoCgroupBackend);
        }
        self.initialized = true;
        Ok(())
    }

    /// Start throttling: only all traffic is supported; hands out the next
    /// class id, used when the cgroup gives none.
    pub fn begin_throttle(&mut self, traffic_type: TrafficType) -> (r: Result<u32, ThrottleError>)
        requires
            old(self).next_classid < u32::MAX,
        ensures
            traffic_type != TrafficType::All ==> (r matches Err(ThrottleError::UnsupportedTrafficType(t))
                && t == traffic_type && final(self).next_classid == old(self).next_classid),
            traffic_type == TrafficType::All ==> r == Ok::<u32, ThrottleError>(old(self).next_classid)
                && final(self).next_classid == old(self).next_classid + 1,
            final(self).active_throttles == old(self).active_throttles,
            final(self).interface == old(self).interface,
            final(self).cgroup_backend == old(self).cgroup_backend,
            final(self).initialized == old(self).initialized,
    {
        if traffic_type != TrafficType::All {
            return Err(ThrottleError::UnsupportedTrafficType(traffic_type));
        }
        let classid = self.next_classid;
        self.next_classid = self.next_classid + 1;
        Ok(classid)
    }

    /// Record a throttle after its class was created.
    pub fn record_throttle(&mut self, pid: i32, classid: u32, cgroup_handle: CgroupHandle, limit: u64)
        requires
            old(self).active_throttles.spec_wf(),
        ensures
            final(self).active_throttles.spec_wf(),
            final(self).active_throttles.spec_limit(pid) == Some(limit),
            final(self).active_throttles.spec_get(pid) == Some((limit, (ClassThrottle { classid, cgroup_handle }))),
            forall|q: i32| q != pid ==> final(self).active_throttles.spec_limit(q) == old(self).active_throttles.spec_limit(q),
            final(self).next_classid == old(self).next_classid,
    {
        self.active_throttles.insert(pid, limit, ClassThrottle { classid, cgroup_handle });
    }

    /// Forget a process's throttle, returning its class and cgroup to remove.
    pub fn remove_upload_throttle(&mut self, pid: i32) -> (r: Option<ClassThrottle>)
        requires
            old(self).active_throttles.spec_wf(),
        ensures
            final(self).active_throttles.spec_wf(),
            final(self).active_throttles.spec_limit(pid) is None,
            r == match old(self).active_throttles.spec_get(pid) {
                Some(e) => Some(e.1),
                None => None::<ClassThrottle>,
            },
            (r is Some) == (old(self).active_throttles.spec_limit(pid) is Some),
            forall|q: i32| q != pid ==> final(self).active_throttles.spec_limit(q) == old(self).active_throttles.spec_limit(q),
    {
        match self.active_throttles.remove(pid) {
            Some((_, info)) => Some(info),
            None => None,
        }
    }

    /// The limit of a process's throttle.
    pub fn get_upload_throttle(&self, pid: i32) -> (r: Option<u64>)
        ensures
            r == self.active_throttles.spec_limit(pid),
    {
        self.active_throttles.limit_of(pid)
    }

    /// Every throttle as (process, limit).
    pub fn get_all_throttles(&self) -> (r: Vec<(i32, u64)>)
        ensures
            r@.len() == self.active_throttles.entries@.len(),
            forall|j: int|
                0 <= j < r@.len() ==> (#[trigger] r@[j]).0 == self.active_throttles.entries@[j].0
                    && r@[j].1 == self.active_throttles.entries@[j].1,
    {
        self.active_throttles.limits()
    }
}


/// How a command ended.
#[derive(Clone, Copy, Debug, PartialEq, Eq, Structural)]
pub enum CommandOutcome {
    /// It could not be started.
    NotRun,
    /// It ran and exited with success or failure.
    Exited(bool),
}

/// Why setting up the IFB device failed.
#[derive(Clone, Copy, Debug, PartialEq, Eq, Structural)]
pub enum IfbSetupError {
    /// The command of this stage could not be started.
    NotRun(u8),
    /// The command of this stage failed.
    Failed(u8),
}

/// Where IFB setup goes after a stage's command.
#[derive(Clone, Copy, Debug, PartialEq, Eq, Structural)]
pub enum IfbTransition {
    /// Run the command of this stage next.
    Next(u8),
    /// All commands ran; the cgroup backend is chosen next.
    CommandsDone,
    /// Setup failed.
    Fail(IfbSetupError),
}

/// Stages of IFB setup, with the command each runs:
/// 0 load the `ifb` module; 1 look for the device; 2 create it;
/// 3 bring it up; 4 add the ingress qdisc; 5 and 6 redirect IPv4 and IPv6
/// ingress traffic to the device; 7 add its HTB root; 8 and 9 add the
/// IPv4 and IPv6 cgroup classifiers.
///
/// Failing to start a command ends setup, except for the device lookup,
/// which then creates the device. A failed module load, ingress qdisc or
/// classifier is tolerated (it may already be there); a failed lookup
/// creates the device, a found one skips creation; any other failure ends
/// setup.
pub open spec fn spec_ifb_transition(stage: u8, outcome: CommandOutcome) -> IfbTransition {
    let ok = outcome == CommandOutcome::Exited(true);
    if stage == 1 {
        if ok { IfbTransition::Next(3) } else { IfbTransition::Next(2) }
    } else if outcome == CommandOutcome::NotRun {
        IfbTransition::Fail(IfbSetupError::NotRun(stage))
    } else if stage == 0 || stage == 4 || stage == 8 {
        IfbTransition::Next((stage + 1) as u8)
    } else if stage == 9 {
        IfbTransition::CommandsDone
    } else if !ok {
        IfbTransition::Fail(IfbSetupError::Failed(stage))
    } else {
        IfbTransition::Next((stage + 1) as u8)
    }
}

/// Where IFB setup goes after the command of `stage` (at most 9) ended so.
pub fn ifb_transition(stage: u8, outcome: CommandOutcome) -> (r: IfbTransition)
    requires
        stage <= 9,
    ensures
        r == spec_ifb_transition(stage, outcome),
{
    let ok = outcome == CommandOutcome::Exited(true);
    if stage == 1 {
        if ok {
            IfbTransition::Next(3)
        } else {
            IfbTransition::Next(2)
        }
    } else if outcome == CommandOutcome::NotRun {
        IfbTransition::Fail(IfbSetupError::NotRun(stage))
    } else if stage == 0 || stage == 4 || stage == 8 {
        IfbTransition::Next(stage + 1)
    } else if stage == 9 {
        IfbTransition::CommandsDone
    } else if !ok {
        IfbTransition::Fail(IfbSetupError::Failed(stage))
    } else {
        IfbTransition::Next(stage + 1)
    }
}

/// IFB setup only moves forward: a next stage is always a later one, and
/// still a stage, so setup ends after at most ten commands.
pub proof fn lemma_ifb_setup_advances(stage: u8, outcome: CommandOutcome)
    requires
        stage <= 9,
    ensures
        spec_ifb_transition(stage, outcome) matches IfbTransition::Next(n) ==> stage < n <= 9,
{
}

/// Once setup finished with a cgroup backend, a later setup runs no
/// command: the backend is initialized, so setup starts at no stage.
pub proof fn lemma_ifb_setup_runs_once(b: IfbTcDownload, cgroup: Option<CgroupBackendType>)
    requires
        b.initialized == (cgroup is Some),
        cgroup is Some,
    ensures
        b.spec_setup_start() is None,
{
}

/// The command (program and arguments) of an IFB setup stage.
pub open spec fn spec_ifb_command(stage: u8, iface: Seq<char>, ifb: Seq<char>) -> Seq<Seq<char>> {
    if stage == 0 {
        seq!["modprobe"@, "ifb"@, "numifbs=1"@]
    } else if stage == 1 {
        seq!["ip"@, "link"@, "show"@, ifb]
    } else if stage == 2 {
        seq!["ip"@, "link"@, "add"@, ifb, "type"@, "ifb"@]
    } else if stage == 3 {
        seq!["ip"@, "link"@, "set"@, "dev"@, ifb, "up"@]
    } else if stage == 4 {
        seq!["tc"@, "qdisc"@, "add"@, "dev"@, iface, "handle"@, "ffff:"@, "ingress"@]
    } else if stage == 5 || stage == 6 {
        seq![
            "tc"@, "filter"@, "add"@, "dev"@, iface, "parent"@, "ffff:"@, "protocol"@,
            if stage == 5 { "ip"@ } else { "ipv6"@ }, "u32"@, "match"@, "u32"@, "0"@, "0"@,
            "action"@, "mirred"@, "egress"@, "redirect"@, "dev"@, ifb,
        ]
    } else if stage == 7 {
        seq!["tc"@, "qdisc"@, "add"@, "dev"@, ifb, "root"@, "handle"@, "2:"@, "htb"@, "default"@, "999"@]
    } else {
        seq![
            "tc"@, "filter"@, "add"@, "dev"@, ifb, "parent"@, "2:"@, "protocol"@,
            if stage == 8 { "ip"@ } else { "ipv6"@ }, "prio"@, "1"@, "handle"@,
            if stage == 8 { "1:"@ } else { "2:"@ }, "cgroup"@,
        ]
    }
}

fn strings(w: &Vec<&str>) -> (r: Vec<String>)
    ensures
        r@.len() == w@.len(),
        forall|j: int| 0 <= j < w@.len() ==> (#[trigger] r@[j])@ == w@[j]@,
{
    crate::tc::words(w)
}

/// The command (program first, then arguments) of an IFB setup stage.
pub fn ifb_command(stage: u8, interface: &str, ifb_device: &str) -> (r: Vec<String>)
    ensures
        r@.len() == spec_ifb_command(stage, interface@, ifb_device@).len(),
        forall|j: int|
            0 <= j < r@.len() ==> (#[trigger] r@[j])@ == spec_ifb_command(stage, interface@, ifb_device@)[j],
{
    let w: Vec<&str> = if stage == 0 {
        vec!["modprobe", "ifb", "numifbs=1"]
    } else if stage == 1 {
        vec!["ip", "link", "show", ifb_device]
    } else if stage == 2 {
        vec!["ip", "link", "add", ifb_device, "type", "ifb"]
    } else if stage == 3 {
        vec!["ip", "link", "set", "dev", ifb_device, "up"]
    } else if stage == 4 {
        vec!["tc", "qdisc", "add", "dev", interface, "handle", "ffff:", "ingress"]
    } else if stage == 5 || stage == 6 {
        vec![
            "tc", "filter", "add", "dev", interface, "parent", "ffff:", "protocol",
            if stage == 5 { "ip" } else { "ipv6" }, "u32", "match", "u32", "0", "0",
            "action", "mirred", "egress", "redirect", "dev", ifb_device,
        ]
    } else if stage == 7 {
        vec!["tc", "qdisc", "add", "dev", ifb_device, "root", "handle", "2:", "htb", "default", "999"]
    } else {
        vec![
            "tc", "filter", "add", "dev", ifb_device, "parent", "2:", "protocol",
            if stage == 8 { "ip" } else { "ipv6" }, "prio", "1", "handle",
            if stage == 8 { "1:" } else { "2:" }, "cgroup",
        ]
    };
    let r = strings(&w);
    proof {
        let spec = spec_ifb_command(stage, interface@, ifb_device@);
        assert(w@.map_values(|x: &str| x@) =~= spec);
        assert forall|j: int| 0 <= j < r@.len() implies (#[trigger] r@[j])@ == spec[j] by {
            assert(r@[j]@ == w@[j]@);
            assert(w@.map_values(|x: &str| x@)[j] == w@[j]@);
        }
    }
    r
}

/// HTB classes on an IFB device that receives the incoming traffic of the
/// shaped interface, one class per throttled process.
pub struct IfbTcDownload {
    pub interface: String,
    /// The IFB device, `ifb0`.
    pub ifb_device: String,
    pub active_throttles: PidTable<ClassThrottle>,
    /// Next class id to hand out; starts at 100.
    pub next_classid: u32,
    pub initialized: bool,
    pub cgroup_backend: Option<CgroupBackendType>,
}

impl IfbTcDownload {
    /// A backend on the detected interface with device `ifb0`, not
    /// initialized, class ids from 100.
    pub fn new(interfaces: &Vec<InterfaceSummary>) -> (r: Result<Self, ThrottleError>)
        ensures
            match r {
                Ok(b) => b.ifb_device@ == "ifb0"@ && b.next_classid == 100 && !b.initialized
                    && b.cgroup_backend is None && b.active_throttles.entries@.len() == 0
                    && b.active_throttles.spec_wf(),
                Err(e) => e matches ThrottleError::NoInterface,
            },
    {
        match detect_interface(interfaces) {
            Ok(interface) => Ok(
                IfbTcDownload {
                    interface,
                    ifb_device: String::from_str("ifb0"),
                    active_throttles: PidTable::new(),
                    next_classid: 100,
                    initialized: false,
                    cgroup_backend: None,
                },
            ),
            Err(_) => Err(ThrottleError::NoInterface),
        }
    }

    pub fn name(&self) -> (r: &'static str)
        ensures
            r@ == "ifb_tc"@,
    {
        "ifb_tc"
    }

    pub fn priority(&self) -> (r: BackendPriority)
        ensures
            r == BackendPriority::Good,
    {
        BackendPriority::Good
    }

    /// The first setup stage to run: none once initialized.
    pub open spec fn spec_setup_start(&self) -> Option<u8> {
        if self.initialized { None } else { Some(0u8) }
    }

    /// The first setup stage to run: none once initialized.
    pub fn setup_start(&self) -> (r: Option<u8>)
        ensures
            r == self.spec_setup_start(),
    {
        if self.initialized {
            None
        } else {
            Some(0)
        }
    }

    /// The cgroup backend, once initialized.
    pub fn get_cgroup_backend_mut(&self) -> (r: Result<CgroupBackendType, ThrottleError>)
        ensures
            match self.cgroup_backend {
                Some(k) => r matches Ok(x) && x == k,
                None => r matches Err(ThrottleError::CgroupBackendNotInitialized),
            },
    {
        match self.cgroup_backend {
            Some(k) => Ok(k),
            None => Err(ThrottleError::CgroupBackendNotInitialized),
        }
    }

    /// Finish setup with the chosen cgroup backend; fails without one.
    pub fn finish_init(&mut self, cgroup: Option<CgroupBackendType>) -> (r: Result<(), ThrottleError>)
        ensures
            final(self).cgroup_backend == cgroup,
            final(self).initialized == (cgroup is Some),
            r is Ok <==> cgroup is Some,
            r matches Err(e) ==> e matches ThrottleError::NoCgroupBackend,
            final(self).next_classid == old(self).next_classid,
            final(self).active_throttles == old(self).active_throttles,
    {
        self.cgroup_backend = cgroup;
        if cgroup.is_none() {
            self.initialized = false;
            return Err(ThrottleError::NoCgroupBackend);
        }
        self.initialized = true;
        Ok(())
    }

    /// Start throttling: only all traffic is supported; hands out the next
    /// class id, used when the cgroup gives none.
    pub fn begin_throttle(&mut self, traffic_type: TrafficType) -> (r: Result<u32, ThrottleError>)
        requires
            old(self).next_classid < u32::MAX,
        ensures
            traffic_type != TrafficType::All ==> (r matches Err(ThrottleError::UnsupportedTrafficType(t))
                && t == traffic_type && final(self).next_classid == old(self).next_classid),
            traffic_type == TrafficType::All ==> r == Ok::<u32, ThrottleError>(old(self).next_classid)
                && final(self).next_classid == old(self).next_classid + 1,
            final(self).active_throttles == old(self).active_throttles,
            final(self).initialized == old(self).initialized,
            final(self).cgroup_backend == old(self).cgroup_backend,
    {
        if traffic_type != TrafficType::All {
            return Err(ThrottleError::UnsupportedTrafficType(traffic_type));
        }
        let classid = self.next_classid;
        self.next_classid = self.next_classid + 1;
        Ok(classid)
    }

    /// Record a throttle after its class was created.
    pub fn record_throttle(&mut self, pid: i32, classid: u32, cgroup_handle: CgroupHandle, limit: u64)
        requires
            old(self).active_throttles.spec_wf(),
        ensures
            final(self).active_throttles.spec_wf(),
            final(self).active_throttles.spec_limit(pid) == Some(limit),
            final(self).active_throttles.spec_get(pid) == Some((limit, (ClassThrottle { classid, cgroup_handle }))),
            forall|q: i32| q != pid ==> final(self).active_throttles.spec_limit(q) == old(self).active_throttles.spec_limit(q),
    {
        self.active_throttles.insert(pid, limit, ClassThrottle { classid, cgroup_handle });
    }

    /// Forget a process's throttle, returning its class and cgroup to remove.
    pub fn remove_download_throttle(&mut self, pid: i32) -> (r: Option<ClassThrottle>)
        requires
            old(self).active_throttles.spec_wf(),
        ensures
            final(self).active_throttles.spec_wf(),
            final(self).active_throttles.spec_limit(pid) is None,
            r == match old(self).active_throttles.spec_get(pid) {
                Some(e) => Some(e.1),
                None => None::<ClassThrottle>,
            },
            (r is Some) == (old(self).active_throttles.spec_limit(pid) is Some),
    {
        match self.active_throttles.remove(pid) {
            Some((_, info)) => Some(info),
            None => None,
        }
    }

    /// The limit of a process's throttle.
    pub fn get_download_throttle(&self, pid: i32) -> (r: Option<u64>)
        ensures
            r == self.active_throttles.spec_limit(pid),
    {
        self.active_throttles.limit_of(pid)
    }

    /// Every throttle as (process, limit).
    pub fn get_all_throttles(&self) -> (r: Vec<(i32, u64)>)
        ensures
            r@.len() == self.active_throttles.entries@.len(),
            forall|j: int|
                0 <= j < r@.len() ==> (#[trigger] r@[j]).0 == self.active_throttles.entries@[j].0
                    && r@[j].1 == self.active_throttles.entries@[j].1,
    {
        self.active_throttles.limits()
    }
}

/// A policing filter of a process.
pub struct PoliceThrottle {
    pub handle: u32,
    pub process_name: String,
}

/// Ingress policing of the whole interface (no per-process matching).
pub struct TcPoliceDownload {
    pub interface: String,
    pub active_throttles: PidTable<PoliceThrottle>,
    /// Next filter handle; starts at 100.
    pub next_handle: u32,
    pub initialized: bool,
}

/// Burst in KiB of a policing rate in bits per second: an eighth of the
/// rate in kbit, at least 32.
pub open spec fn spec_police_burst(rate_bps: u64) -> u64 {
    if rate_bps / 8000 > 32 { rate_bps / 8000 } else { 32 }
}

impl TcPoliceDownload {
    /// A backend on the detected interface, not initialized, handles from 100.
    pub fn new(interfaces: &Vec<InterfaceSummary>) -> (r: Result<Self, ThrottleError>)
        ensures
            match r {
                Ok(b) => b.next_handle == 100 && !b.initialized && b.active_throttles.entries@.len()
                    == 0 && b.active_throttles.spec_wf(),
                Err(e) => e matches ThrottleError::NoInterface,
            },
    {
        match detect_interface(interfaces) {
            Ok(interface) => Ok(
                TcPoliceDownload {
                    interface,
                    active_throttles: PidTable::new(),
                    next_handle: 100,
                    initialized: false,
                },
            ),
            Err(_) => Err(ThrottleError::NoInterface),
        }
    }

    pub fn name(&self) -> (r: &'static str)
        ensures
            r@ == "tc_police"@,
    {
        "tc_police"
    }

    pub fn priority(&self) -> (r: BackendPriority)
        ensures
            r == BackendPriority::Fallback,
    {
        BackendPriority::Fallback
    }

    /// Hand out the next filter handle.
    pub fn begin_throttle(&mut self) -> (r: u32)
        requires
            old(self).next_handle < u32::MAX,
        ensures
            r == old(self).next_handle,
            final(self).next_handle == old(self).next_handle + 1,
            final(self).active_throttles == old(self).active_throttles,
            final(self).initialized == old(self).initialized,
    {
        let handle = self.next_handle;
        self.next_handle = self.next_handle + 1;
        handle
    }

    /// Arguments of `tc` policing all incoming IPv4 traffic at the limit:
    /// rate in bit/s, burst in KiB, exceeding packets dropped.
    pub fn police_filter_args(&self, limit_bytes_per_sec: u64, handle: u32) -> (r: Vec<String>)
        requires
            limit_bytes_per_sec * 8 <= u64::MAX,
        ensures
            r@.len() == 23,
            r@[0]@ == "filter"@ && r@[1]@ == "add"@ && r@[2]@ == "dev"@ && r@[4]@ == "parent"@
                && r@[5]@ == "ffff:"@ && r@[6]@ == "protocol"@ && r@[7]@ == "ip"@ && r@[8]@ == "prio"@
                && r@[9]@ == "1"@ && r@[10]@ == "u32"@ && r@[11]@ == "match"@ && r@[12]@ == "u32"@
                && r@[13]@ == "0"@ && r@[14]@ == "0"@ && r@[15]@ == "police"@ && r@[16]@ == "rate"@,
            r@[18]@ == "burst"@ && r@[20]@ == "drop"@ && r@[21]@ == "flowid"@,
            r@[3]@ == self.interface@,
            r@[17]@ == spec_decimal((limit_bytes_per_sec * 8) as nat) + "bit"@,
            r@[19]@ == spec_decimal(spec_police_burst((limit_bytes_per_sec * 8) as u64) as nat) + "k"@,
            r@[22]@ == ":"@ + spec_decimal(handle as nat),
    {
        let rate_bps = limit_bytes_per_sec * 8;
        let mut rate = String::new();
        push_u64(&mut rate, rate_bps);
        rate.append("bit");
        let burst_k = if rate_bps / 8000 > 32 { rate_bps / 8000 } else { 32 };
        let mut burst = String::new();
        push_u64(&mut burst, burst_k);
        burst.append("k");
        let mut flow = String::from_str(":");
        push_u64(&mut flow, handle as u64);
        proof {
            assert(rate@ =~= spec_decimal(rate_bps as nat) + "bit"@);
            assert(burst@ =~= spec_decimal(burst_k as nat) + "k"@);
        }
        let w = vec![
            "filter", "add", "dev", self.interface.as_str(), "parent", "ffff:", "protocol", "ip",
            "prio", "1", "u32", "match", "u32", "0", "0", "police", "rate",
        ];
        let mut v = strings(&w);
        v.push(rate);
        v.push(String::from_str("burst"));
        v.push(burst);
        v.push(String::from_str("drop"));
        v.push(String::from_str("flowid"));
        v.push(flow);
        v
    }

    /// Record a policing filter after it was added.
    pub fn record_throttle(&mut self, pid: i32, handle: u32, process_name: String, limit: u64)
        requires
            old(self).active_throttles.spec_wf(),
        ensures
            final(self).active_throttles.spec_wf(),
            final(self).active_throttles.spec_limit(pid) == Some(limit),
            final(self).active_throttles.spec_get(pid) == Some((limit, (PoliceThrottle { handle, process_name }))),
            forall|q: i32| q != pid ==> final(self).active_throttles.spec_limit(q) == old(self).active_throttles.spec_limit(q),
    {
        self.active_throttles.insert(pid, limit, PoliceThrottle { handle, process_name });
    }

    /// Forget a process's throttle; true when it had one (its filter is then deleted).
    pub fn remove_download_throttle(&mut self, pid: i32) -> (r: bool)
        requires
            old(self).active_throttles.spec_wf(),
        ensures
            final(self).active_throttles.spec_wf(),
            final(self).active_throttles.spec_limit(pid) is None,
            r == (old(self).active_throttles.spec_limit(pid) is Some),
    {
        self.active_throttles.remove(pid).is_some()
    }

    /// The limit of a process's throttle.
    pub fn get_download_throttle(&self, pid: i32) -> (r: Option<u64>)
        ensures
            r == self.active_throttles.spec_limit(pid),
    {
        self.active_throttles.limit_of(pid)
    }
}

/// nftables rules per throttled process, in one direction.
pub struct NftablesThrottle {
    pub direction: crate::nft::Direction,
    pub active_throttles: PidTable<CgroupHandle>,
    pub initialized: bool,
    pub cgroup_backend: Option<CgroupBackendType>,
}

/// nftables upload throttling.
pub type NftablesUpload = NftablesThrottle;

/// nftables download throttling.
pub type NftablesDownload = NftablesThrottle;

impl NftablesThrottle {
    /// An uninitialized backend with no throttles.
    pub fn new(direction: crate::nft::Direction) -> (r: Result<Self, ThrottleError>)
        ensures
            r matches Ok(b) && b.direction == direction && !b.initialized && b.cgroup_backend is None
                && b.active_throttles.entries@.len() == 0 && b.active_throttles.spec_wf(),
    {
        Ok(
            NftablesThrottle {
                direction,
                active_throttles: PidTable::new(),
                initialized: false,
                cgroup_backend: None,
            },
        )
    }

    /// The name the backend is registered under, `nftables`, in both directions.
    pub fn name(&self) -> (r: &'static str)
        ensures
            r@ == "nftables"@,
    {
        "nftables"
    }

    pub fn priority(&self) -> (r: BackendPriority)
        ensures
            r == BackendPriority::Better,
    {
        BackendPriority::Better
    }

    /// Whether the table and the cgroup backend still have to be set up.
    pub fn ensure_initialized(&self) -> (r: bool)
        ensures
            r == !self.initialized,
    {
        !self.initialized
    }

    /// Finish setup with the chosen cgroup backend; fails without one.
    pub fn finish_init(&mut self, cgroup: Option<CgroupBackendType>) -> (r: Result<(), ThrottleError>)
        ensures
            final(self).cgroup_backend == cgroup,
            final(self).initialized == (cgroup is Some),
            r is Ok <==> cgroup is Some,
            final(self).active_throttles == old(self).active_throttles,
            final(self).direction == old(self).direction,
    {
        self.cgroup_backend = cgroup;
        if cgroup.is_none() {
            self.initialized = false;
            return Err(ThrottleError::NoCgroupBackend);
        }
        self.initialized = true;
        Ok(())
    }

    /// The cgroup backend, once initialized.
    pub fn get_cgroup_backend(&self) -> (r: Result<CgroupBackendType, ThrottleError>)
        ensures
            match self.cgroup_backend {
                Some(k) => r matches Ok(x) && x == k,
                None => r matches Err(ThrottleError::CgroupBackendNotInitialized),
            },
    {
        match self.cgroup_backend {
            Some(k) => Ok(k),
            None => Err(ThrottleError::CgroupBackendNotInitialized),
        }
    }

    /// The cgroup backend, once initialized.
    pub fn get_cgroup_backend_mut(&self) -> (r: Result<CgroupBackendType, ThrottleError>)
        ensures
            match self.cgroup_backend {
                Some(k) => r matches Ok(x) && x == k,
                None => r matches Err(ThrottleError::CgroupBackendNotInitialized),
            },
    {
        self.get_cgroup_backend()
    }

    /// The rule dropping the cgroup's traffic over the limit.
    pub fn rule_for(&self, handle: &CgroupHandle, limit_bytes_per_sec: u64) -> (r: String)
        ensures
            r@ == crate::nft::spec_handle_rule(*handle, Seq::empty(), limit_bytes_per_sec),
    {
        crate::nft::handle_rate_limit_rule(handle, limit_bytes_per_sec, TrafficType::All)
    }

    /// Record a throttle after its rule was added.
    pub fn record_throttle(&mut self, pid: i32, cgroup_handle: CgroupHandle, limit: u64)
        requires
            old(self).active_throttles.spec_wf(),
        ensures
            final(self).active_throttles.spec_wf(),
            final(self).active_throttles.spec_limit(pid) == Some(limit),
            final(self).active_throttles.spec_get(pid) == Some((limit, cgroup_handle)),
            forall|q: i32| q != pid ==> final(self).active_throttles.spec_limit(q) == old(self).active_throttles.spec_limit(q),
    {
        self.active_throttles.insert(pid, limit, cgroup_handle);
    }

    /// Forget a process's throttle, returning its cgroup whose rules and
    /// directory are removed.
    pub fn remove_throttle(&mut self, pid: i32) -> (r: Option<CgroupHandle>)
        requires
            old(self).active_throttles.spec_wf(),
        ensures
            final(self).active_throttles.spec_wf(),
            final(self).active_throttles.spec_limit(pid) is None,
            r == match old(self).active_throttles.spec_get(pid) {
                Some(e) => Some(e.1),
                None => None::<CgroupHandle>,
            },
            (r is Some) == (old(self).active_throttles.spec_limit(pid) is Some),
    {
        match self.active_throttles.remove(pid) {
            Some((_, h)) => Some(h),
            None => None,
        }
    }

    /// The limit of a process's throttle.
    pub fn get_throttle(&self, pid: i32) -> (r: Option<u64>)
        ensures
            r == self.active_throttles.spec_limit(pid),
    {
        self.active_throttles.limit_of(pid)
    }

    /// Per process, both address families, not per connection.
    pub fn capabilities(&self) -> (r: BackendCapabilities)
        ensures
            spec_cgroup_capabilities(r),
    {
        cgroup_capabilities()
    }
}

/// A planned cgroup-attached token bucket backend that does not exist yet.
pub struct EbpfCgroupUpload {
    pub active_throttles: PidTable<()>,
}

impl EbpfCgroupUpload {
    /// Always refused: not implemented.
    pub fn new() -> (r: Result<Self, ThrottleError>)
        ensures
            r matches Err(ThrottleError::NotImplemented),
    {
        Err(ThrottleError::NotImplemented)
    }

    pub fn name(&self) -> (r: &'static str)
        ensures
            r@ == "ebpf_cgroup_upload"@,
    {
        "ebpf_cgroup_upload"
    }
}

/// The filter configuration and initial bucket of a throttle at a limit:
/// burst twice the limit, a full bucket that starts timing on its first packet.
pub open spec fn spec_filter_setup(cgroup_id: u64, pid: i32, limit: u64) -> (CgroupThrottleConfig, TokenBucket) {
    let burst = (limit * 2) as u64;
    (
        CgroupThrottleConfig {
            cgroup_id,
            pid: pid as u32,
            traffic_type: TRAFFIC_TYPE_ALL,
            _padding: [0u8, 0u8, 0u8],
            rate_bps: limit,
            burst_size: burst,
        },
        TokenBucket { capacity: burst, tokens: burst, last_update_ns: 0, rate_bps: limit },
    )
}

/// The filter configuration and initial bucket of a throttle.
pub fn filter_setup(cgroup_id: u64, pid: i32, limit: u64) -> (r: (CgroupThrottleConfig, TokenBucket))
    requires
        limit * 2 <= u64::MAX,
    ensures
        r.0.cgroup_id == cgroup_id && r.0.pid == pid as u32 && r.0.traffic_type == TRAFFIC_TYPE_ALL
            && r.0.rate_bps == limit && r.0.burst_size == limit * 2,
        r.1 == spec_filter_setup(cgroup_id, pid, limit).1,
{
    let burst = limit * 2;
    (
        CgroupThrottleConfig {
            cgroup_id,
            pid: pid as u32,
            traffic_type: TRAFFIC_TYPE_ALL,
            _padding: [0, 0, 0],
            rate_bps: limit,
            burst_size: burst,
        },
        TokenBucket { capacity: burst, tokens: burst, last_update_ns: 0, rate_bps: limit },
    )
}

/// Cgroup-attached token buckets: which cgroup each process is in, how many
/// throttled processes each cgroup holds, where the filter is attached.
pub struct EbpfThrottleState {
    pub pid_to_cgroup: HashMap<i32, u64>,
    pub cgroup_refcount: HashMap<u64, usize>,
    /// Cgroup paths the filter is attached to (uploads).
    pub attached_cgroups: Vec<String>,
    pub active_throttles: HashMap<i32, u64>,
}

/// Upload filter state.
pub type EbpfUpload = EbpfThrottleState;

/// Download filter state.
pub type EbpfDownload = EbpfThrottleState;

impl EbpfThrottleState {
    /// Every cgroup with a count holds at least one throttled process.
    pub open spec fn spec_wf(&self) -> bool {
        forall|c: u64| #[trigger] self.cgroup_refcount@.contains_key(c) ==> self.cgroup_refcount@[c] >= 1
    }

    /// No throttles; refused when the system cannot run the filters.
    pub fn new(supported: bool) -> (r: Result<Self, ThrottleError>)
        ensures
            supported <==> r is Ok,
            r matches Ok(s) ==> s.pid_to_cgroup@ == Map::<i32, u64>::empty()
                && s.cgroup_refcount@ == Map::<u64, usize>::empty() && s.attached_cgroups@.len() == 0
                && s.active_throttles@ == Map::<i32, u64>::empty() && s.spec_wf(),
            r matches Err(e) ==> e matches ThrottleError::EbpfNotSupported,
    {
        if !supported {
            return Err(ThrottleError::EbpfNotSupported);
        }
        Ok(
            EbpfThrottleState {
                pid_to_cgroup: HashMap::new(),
                cgroup_refcount: HashMap::new(),
                attached_cgroups: Vec::new(),
                active_throttles: HashMap::new(),
            },
        )
    }

    /// Note a process's cgroup; true when the upload filter still has to be
    /// attached to the cgroup's path.
    pub fn begin_upload_throttle(&mut self, pid: i32, cgroup_id: u64, cgroup_path: &str) -> (r: bool)
        ensures
            final(self).pid_to_cgroup@ == old(self).pid_to_cgroup@.insert(pid, cgroup_id),
            r == !crate::manager::spec_has_name(old(self).attached_cgroups@, cgroup_path@),
            final(self).cgroup_refcount == old(self).cgroup_refcount,
            final(self).attached_cgroups == old(self).attached_cgroups,
            final(self).active_throttles == old(self).active_throttles,
    {
        let attached = crate::manager::has_name(&self.attached_cgroups, cgroup_path);
        self.pid_to_cgroup.insert(pid, cgroup_id);
        !attached
    }

    /// Note a process's cgroup for downloads; true when the cgroup holds no
    /// throttled process yet, so the download filter is attached.
    pub fn begin_download_throttle(&mut self, pid: i32, cgroup_id: u64) -> (r: bool)
        ensures
            final(self).pid_to_cgroup@ == old(self).pid_to_cgroup@.insert(pid, cgroup_id),
            r == !old(self).cgroup_refcount@.contains_key(cgroup_id),
            final(self).cgroup_refcount == old(self).cgroup_refcount,
            final(self).attached_cgroups == old(self).attached_cgroups,
            final(self).active_throttles == old(self).active_throttles,
    {
        self.pid_to_cgroup.insert(pid, cgroup_id);
        !self.cgroup_refcount.contains_key(&cgroup_id)
    }

    /// Record that the filter is attached to a cgroup path.
    pub fn record_attached(&mut self, cgroup_path: String)
        ensures
            final(self).attached_cgroups@ == old(self).attached_cgroups@.push(cgroup_path),
            final(self).pid_to_cgroup == old(self).pid_to_cgroup,
            final(self).cgroup_refcount == old(self).cgroup_refcount,
            final(self).active_throttles == old(self).active_throttles,
    {
        self.attached_cgroups.push(cgroup_path);
    }

    /// Count one more throttled process in a cgroup.
    pub fn add_reference(&mut self, cgroup_id: u64)
        requires
            old(self).spec_wf(),
            old(self).cgroup_refcount@.contains_key(cgroup_id) ==> old(self).cgroup_refcount@[cgroup_id]
                < usize::MAX,
        ensures
            final(self).spec_wf(),
            final(self).cgroup_refcount@ == old(self).cgroup_refcount@.insert(
                cgroup_id,
                (if old(self).cgroup_refcount@.contains_key(cgroup_id) {
                    old(self).cgroup_refcount@[cgroup_id] + 1
                } else {
                    1
                }) as usize,
            ),
            final(self).pid_to_cgroup == old(self).pid_to_cgroup,
            final(self).attached_cgroups == old(self).attached_cgroups,
            final(self).active_throttles == old(self).active_throttles,
    {
        let count = match self.cgroup_refcount.get(&cgroup_id) {
            Some(c) => *c + 1,
            None => 1,
        };
        self.cgroup_refcount.insert(cgroup_id, count);
    }

    /// Record a process's limit once its filter is configured.
    pub fn record_throttle(&mut self, pid: i32, limit: u64)
        ensures
            final(self).active_throttles@ == old(self).active_throttles@.insert(pid, limit),
            final(self).pid_to_cgroup == old(self).pid_to_cgroup,
            final(self).cgroup_refcount == old(self).cgroup_refcount,
            final(self).attached_cgroups == old(self).attached_cgroups,
    {
        self.active_throttles.insert(pid, limit);
    }

    /// Forget a process's throttle; returns the cgroup whose filter
    /// configuration, bucket and counters are to be cleared, when the
    /// process was the last one throttled in it.
    pub fn remove_throttle(&mut self, pid: i32) -> (r: Option<u64>)
        requires
            old(self).spec_wf(),
        ensures
            final(self).spec_wf(),
            !final(self).pid_to_cgroup@.contains_key(pid),
            final(self).pid_to_cgroup@ == old(self).pid_to_cgroup@.remove(pid),
            !final(self).active_throttles@.contains_key(pid),
            final(self).active_throttles@ == old(self).active_throttles@.remove(pid),
            final(self).attached_cgroups == old(self).attached_cgroups,
            match (if old(self).pid_to_cgroup@.contains_key(pid) { Some(old(self).pid_to_cgroup@[pid]) } else { None }) {
                Some(c) => if old(self).cgroup_refcount@.contains_key(c) {
                    if old(self).cgroup_refcount@[c] == 1 {
                        r == Some(c) && final(self).cgroup_refcount@ == old(self).cgroup_refcount@.remove(c)
                    } else {
                        r is None && final(self).cgroup_refcount@ == old(self).cgroup_refcount@.insert(
                            c,
                            (old(self).cgroup_refcount@[c] - 1) as usize,
                        )
                    }
                } else {
                    r is None && final(self).cgroup_refcount@ == old(self).cgroup_refcount@
                },
                None => r is None && final(self).cgroup_refcount@ == old(self).cgroup_refcount@,
            },
    {
        let mut cleared: Option<u64> = None;
        match self.pid_to_cgroup.remove(&pid) {
            Some(cgroup_id) => {
                match self.cgroup_refcount.get(&cgroup_id) {
                    Some(count) => {
                        let c = *count;
                        if c == 1 {
                            self.cgroup_refcount.remove(&cgroup_id);
                            cleared = Some(cgroup_id);
                        } else {
                            self.cgroup_refcount.insert(cgroup_id, c - 1);
                        }
                    },
                    None => {},
                }
            },
            None => {},
        }
        self.active_throttles.remove(&pid);
        cleared
    }

    /// The limit of a process's throttle.
    pub fn get_throttle(&self, pid: i32) -> (r: Option<u64>)
        ensures
            r == (if self.active_throttles@.contains_key(pid) {
                Some(self.active_throttles@[pid])
            } else {
                None
            }),
    {
        match self.active_throttles.get(&pid) {
            Some(l) => Some(*l),
            None => None,
        }
    }

    /// The backend name, `ebpf`.
    pub fn name(&self) -> (r: &'static str)
        ensures
            r@ == "ebpf"@,
    {
        "ebpf"
    }

    pub fn priority(&self) -> (r: BackendPriority)
        ensures
            r == BackendPriority::Best,
    {
        BackendPriority::Best
    }

    /// Per process, both address families, not per connection.
    pub fn capabilities(&self) -> (r: BackendCapabilities)
        ensures
            spec_cgroup_capabilities(r),
    {
        cgroup_capabilities()
    }
}

/// An upload throttling backend: its identity, what it can do, and the
/// throttles it holds.
pub trait UploadThrottleBackend {
    /// Backend name.
    fn name(&self) -> &'static str;

    /// Rank for automatic selection.
    fn priority(&self) -> BackendPriority;

    /// What the backend can do.
    fn capabilities(&self) -> BackendCapabilities;

    /// The limit of a process's upload throttle.
    fn get_upload_throttle(&self, pid: i32) -> Option<u64>;

    /// Whether the backend can throttle this kind of traffic: all traffic
    /// only.
    fn supports_traffic_type(&self, traffic_type: TrafficType) -> (r: bool)
        ensures
            r == (traffic_type == TrafficType::All),
    ;
}

/// A download throttling backend: its identity, what it can do, and the
/// throttles it holds.
pub trait DownloadThrottleBackend {
    /// Backend name.
    fn name(&self) -> &'static str;

    /// Rank for automatic selection.
    fn priority(&self) -> BackendPriority;

    /// What the backend can do.
    fn capabilities(&self) -> BackendCapabilities;

    /// The limit of a process's download throttle.
    fn get_download_throttle(&self, pid: i32) -> Option<u64>;

    /// Whether the backend can throttle this kind of traffic: all traffic
    /// only.
    fn supports_traffic_type(&self, traffic_type: TrafficType) -> (r: bool)
        ensures
            r == (traffic_type == TrafficType::All),
    ;
}

/// Whether a traffic type is all traffic.
pub fn is_all_traffic(traffic_type: TrafficType) -> (r: bool)
    ensures
        r == (traffic_type == TrafficType::All),
{
    match traffic_type {
        TrafficType::All => true,
        _ => false,
    }
}

/// Per process, both address families, not per connection.
pub open spec fn spec_cgroup_capabilities(c: BackendCapabilities) -> bool {
    c.ipv4_support && c.ipv6_support && c.per_process && !c.per_connection
}

fn cgroup_capabilities() -> (r: BackendCapabilities)
    ensures
        spec_cgroup_capabilities(r),
{
    BackendCapabilities { ipv4_support: true, ipv6_support: true, per_process: true, per_connection: false }
}

impl UploadThrottleBackend for TcHtbUpload {
    fn name(&self) -> (r: &'static str)
        ensures
            r@ == "tc_htb"@,
    {
        TcHtbUpload::name(self)
    }

    fn priority(&self) -> (r: BackendPriority)
        ensures
            r == BackendPriority::Good,
    {
        TcHtbUpload::priority(self)
    }

    fn capabilities(&self) -> (r: BackendCapabilities)
        ensures
            spec_cgroup_capabilities(r),
    {
        cgroup_capabilities()
    }

    fn get_upload_throttle(&self, pid: i32) -> (r: Option<u64>)
        ensures
            r == self.active_throttles.spec_limit(pid),
    {
        TcHtbUpload::get_upload_throttle(self, pid)
    }

    fn supports_traffic_type(&self, traffic_type: TrafficType) -> (r: bool) {
        is_all_traffic(traffic_type)
    }
}

impl DownloadThrottleBackend for IfbTcDownload {
    fn name(&self) -> (r: &'static str)
        ensures
            r@ == "ifb_tc"@,
    {
        IfbTcDownload::name(self)
    }

    fn priority(&self) -> (r: BackendPriority)
        ensures
            r == BackendPriority::Good,
    {
        IfbTcDownload::priority(self)
    }

    fn capabilities(&self) -> (r: BackendCapabilities)
        ensures
            spec_cgroup_capabilities(r),
    {
        cgroup_capabilities()
    }

    fn get_download_throttle(&self, pid: i32) -> (r: Option<u64>)
        ensures
            r == self.active_throttles.spec_limit(pid),
    {
        IfbTcDownload::get_download_throttle(self, pid)
    }

    fn supports_traffic_type(&self, traffic_type: TrafficType) -> (r: bool) {
        is_all_traffic(traffic_type)
    }
}

impl DownloadThrottleBackend for TcPoliceDownload {
    fn name(&self) -> (r: &'static str)
        ensures
            r@ == "tc_police"@,
    {
        TcPoliceDownload::name(self)
    }

    fn priority(&self) -> (r: BackendPriority)
        ensures
            r == BackendPriority::Fallback,
    {
        TcPoliceDownload::priority(self)
    }

    /// IPv4 only, and neither per process nor per connection.
    fn capabilities(&self) -> (r: BackendCapabilities)
        ensures
            r.ipv4_support && !r.ipv6_support && !r.per_process && !r.per_connection,
    {
        BackendCapabilities {
            ipv4_support: true,
            ipv6_support: false,
            per_process: false,
            per_connection: false,
        }
    }

    fn get_download_throttle(&self, pid: i32) -> (r: Option<u64>)
        ensures
            r == self.active_throttles.spec_limit(pid),
    {
        TcPoliceDownload::get_download_throttle(self, pid)
    }

    fn supports_traffic_type(&self, traffic_type: TrafficType) -> (r: bool) {
        is_all_traffic(traffic_type)
    }
}

impl UploadThrottleBackend for NftablesThrottle {
    fn name(&self) -> (r: &'static str)
        ensures
            r@ == "nftables"@,
    {
        NftablesThrottle::name(self)
    }

    fn priority(&self) -> (r: BackendPriority)
        ensures
            r == BackendPriority::Better,
    {
        NftablesThrottle::priority(self)
    }

    fn capabilities(&self) -> (r: BackendCapabilities)
        ensures
            spec_cgroup_capabilities(r),
    {
        NftablesThrottle::capabilities(self)
    }

    fn get_upload_throttle(&self, pid: i32) -> (r: Option<u64>)
        ensures
            r == self.active_throttles.spec_limit(pid),
    {
        self.get_throttle(pid)
    }

    fn supports_traffic_type(&self, traffic_type: TrafficType) -> (r: bool) {
        is_all_traffic(traffic_type)
    }
}

impl DownloadThrottleBackend for NftablesThrottle {
    fn name(&self) -> (r: &'static str)
        ensures
            r@ == "nftables"@,
    {
        NftablesThrottle::name(self)
    }

    fn priority(&self) -> (r: BackendPriority)
        ensures
            r == BackendPriority::Better,
    {
        NftablesThrottle::priority(self)
    }

    fn capabilities(&self) -> (r: BackendCapabilities)
        ensures
            spec_cgroup_capabilities(r),
    {
        NftablesThrottle::capabilities(self)
    }

    fn get_download_throttle(&self, pid: i32) -> (r: Option<u64>)
        ensures
            r == self.active_throttles.spec_limit(pid),
    {
        self.get_throttle(pid)
    }

    fn supports_traffic_type(&self, traffic_type: TrafficType) -> (r: bool) {
        is_all_traffic(traffic_type)
    }
}

impl UploadThrottleBackend for EbpfThrottleState {
    fn name(&self) -> (r: &'static str)
        ensures
            r@ == "ebpf"@,
    {
        EbpfThrottleState::name(self)
    }

    fn priority(&self) -> (r: BackendPriority)
        ensures
            r == BackendPriority::Best,
    {
        EbpfThrottleState::priority(self)
    }

    fn capabilities(&self) -> (r: BackendCapabilities)
        ensures
            spec_cgroup_capabilities(r),
    {
        EbpfThrottleState::capabilities(self)
    }

    fn get_upload_throttle(&self, pid: i32) -> (r: Option<u64>)
        ensures
            r == (if self.active_throttles@.contains_key(pid) {
                Some(self.active_throttles@[pid])
            } else {
                None
            }),
    {
        self.get_throttle(pid)
    }

    fn supports_traffic_type(&self, traffic_type: TrafficType) -> (r: bool) {
        is_all_traffic(traffic_type)
    }
}

impl DownloadThrottleBackend for EbpfThrottleState {
    fn name(&self) -> (r: &'static str)
        ensures
            r@ == "ebpf"@,
    {
        EbpfThrottleState::name(self)
    }

    fn priority(&self) -> (r: BackendPriority)
        ensures
            r == BackendPriority::Best,
    {
        EbpfThrottleState::priority(self)
    }

    fn capabilities(&self) -> (r: BackendCapabilities)
        ensures
            spec_cgroup_capabilities(r),
    {
        EbpfThrottleState::capabilities(self)
    }

    fn get_download_throttle(&self, pid: i32) -> (r: Option<u64>)
        ensures
            r == (if self.active_throttles@.contains_key(pid) {
                Some(self.active_throttles@[pid])
            } else {
                None
            }),
    {
        self.get_throttle(pid)
    }

    fn supports_traffic_type(&self, traffic_type: TrafficType) -> (r: bool) {
        is_all_traffic(traffic_type)
    }
}

} // verus!
