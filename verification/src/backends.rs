//! Backend metadata: priorities, capabilities, the backends each build
//! offers, and the choice among them.
//!
//! Which backends a build offers is a build-time choice; here it is given as
//! an availability per backend, `None` for a backend the build leaves out.
use crate::text::str_eq;
use vstd::prelude::*;

verus! {

/// Priority of a backend for automatic selection, from lowest to highest.
#[derive(Clone, Copy, Debug, PartialEq, Eq, Hash, PartialOrd, Ord, Structural)]
pub enum BackendPriority {
    Fallback,
    Good,
    Better,
    Best,
}

/// Rank of a priority: higher is preferred.
pub open spec fn spec_rank(p: BackendPriority) -> int {
    match p {
        BackendPriority::Fallback => 0,
        BackendPriority::Good => 1,
        BackendPriority::Better => 2,
        BackendPriority::Best => 3,
    }
}

/// Rank of a priority: higher is preferred.
pub fn priority_rank(p: BackendPriority) -> (r: u8)
    ensures
        r == spec_rank(p),
{
    match p {
        BackendPriority::Fallback => 0,
        BackendPriority::Good => 1,
        BackendPriority::Better => 2,
        BackendPriority::Best => 3,
    }
}

/// What a backend can do.
#[derive(Clone, Copy, Debug, PartialEq, Eq, Structural)]
pub struct BackendCapabilities {
    pub ipv4_support: bool,
    pub ipv6_support: bool,
    pub per_process: bool,
    pub per_connection: bool,
}

impl BackendCapabilities {
    /// No capability.
    pub fn none() -> (r: Self)
        ensures
            r == (BackendCapabilities {
                ipv4_support: false,
                ipv6_support: false,
                per_process: false,
                per_connection: false,
            }),
    {
        BackendCapabilities {
            ipv4_support: false,
            ipv6_support: false,
            per_process: false,
            per_connection: false,
        }
    }
}

impl Default for BackendCapabilities {
    fn default() -> (r: Self)
        ensures
            r == (BackendCapabilities {
                ipv4_support: false,
                ipv6_support: false,
                per_process: false,
                per_connection: false,
            }),
    {
        BackendCapabilities::none()
    }
}

/// A throttle in force on a process.
#[derive(Clone, Debug)]
pub struct ActiveThrottle {
    pub pid: i32,
    pub process_name: String,
    pub upload_limit: Option<u64>,
    pub download_limit: Option<u64>,
}

/// An upload backend offered by this build.
#[derive(Clone, Debug)]
pub struct UploadBackendInfo {
    pub name: String,
    pub priority: BackendPriority,
    pub available: bool,
}

/// A download backend offered by this build.
#[derive(Clone, Debug)]
pub struct DownloadBackendInfo {
    pub name: String,
    pub priority: BackendPriority,
    pub available: bool,
}

/// A monitoring backend offered by this build.
#[derive(Clone, Debug)]
pub struct MonitorBackendInfo {
    pub name: String,
    pub priority: BackendPriority,
    pub available: bool,
}

/// Index of the preferred of the first `n` candidates: the available one of
/// highest priority, the last such one on ties.
pub open spec fn spec_best_in(c: Seq<(BackendPriority, bool)>, n: int) -> Option<int>
    decreases n,
{
    if n <= 0 {
        None
    } else {
        let prev = spec_best_in(c, n - 1);
        if c[n - 1].1 && (prev is None || spec_rank(c[n - 1].0) >= spec_rank(c[prev->0].0)) {
            Some(n - 1)
        } else {
            prev
        }
    }
}

/// The preferred candidate is available, no available candidate outranks
/// it, and none after it ties with it; there is none only when no candidate
/// is available.
pub proof fn lemma_best_is_maximal(c: Seq<(BackendPriority, bool)>, n: int)
    requires
        0 <= n <= c.len(),
    ensures
        spec_best_in(c, n) is None <==> forall|j: int| 0 <= j < n ==> !c[j].1,
        spec_best_in(c, n) matches Some(i) ==> 0 <= i < n && c[i].1 && (forall|j: int|
            0 <= j < n && c[j].1 ==> spec_rank(c[j].0) <= spec_rank(c[i].0)) && (forall|j: int|
            i < j < n && c[j].1 ==> spec_rank(c[j].0) < spec_rank(c[i].0)),
    decreases n,
{
    if n > 0 {
        lemma_best_is_maximal(c, n - 1);
    }
}

/// Index of the preferred candidate (priority, available): the available
/// one of highest priority, the last such one on ties.
pub fn best_available(c: &Vec<(BackendPriority, bool)>) -> (r: Option<usize>)
    ensures
        r matches Some(i) ==> spec_best_in(c@, c@.len() as int) == Some(i as int) && i < c@.len(),
        r is None ==> spec_best_in(c@, c@.len() as int) is None,
{
    let mut best: Option<usize> = None;
    let mut best_rank: u8 = 0;
    let mut i: usize = 0;
    while i < c.len()
        invariant
            i <= c@.len(),
            best matches Some(b) ==> spec_best_in(c@, i as int) == Some(b as int) && b < i
                && best_rank == spec_rank(c@[b as int].0),
            best is None ==> spec_best_in(c@, i as int) is None,
        decreases c@.len() - i,
    {
        let (priority, available) = c[i];
        let rank = priority_rank(priority);
        if available && (best.is_none() || rank >= best_rank) {
            best = Some(i);
            best_rank = rank;
        }
        i = i + 1;
    }
    best
}

/// Availability of a backend in a build: `None` when the build leaves it out.
pub type Offered = Option<bool>;

/// Upload backends of a build: eBPF, nftables, HTB and dummynet.
#[derive(Clone, Copy, Debug)]
pub struct UploadOffer {
    pub ebpf: Offered,
    pub nftables: Offered,
    pub tc_htb: Offered,
    pub dnctl: Offered,
}

/// Download backends of a build: eBPF, nftables, IFB, police and dummynet.
#[derive(Clone, Copy, Debug)]
pub struct DownloadOffer {
    pub ebpf: Offered,
    pub nftables: Offered,
    pub ifb_tc: Offered,
    pub tc_police: Offered,
    pub dnctl: Offered,
}

/// `l` with (name, priority, available) appended when the backend is offered.
pub open spec fn spec_push_offered(
    l: Seq<(Seq<char>, BackendPriority, bool)>,
    name: Seq<char>,
    priority: BackendPriority,
    offered: Offered,
) -> Seq<(Seq<char>, BackendPriority, bool)> {
    match offered {
        Some(available) => l.push((name, priority, available)),
        None => l,
    }
}

/// The offered upload backends in order: eBPF (best), nftables (better),
/// HTB (good), dummynet (best).
pub open spec fn spec_upload_list(o: UploadOffer) -> Seq<(Seq<char>, BackendPriority, bool)> {
    let l0 = Seq::empty();
    let l1 = spec_push_offered(l0, "ebpf"@, BackendPriority::Best, o.ebpf);
    let l2 = spec_push_offered(l1, "nftables"@, BackendPriority::Better, o.nftables);
    let l3 = spec_push_offered(l2, "tc_htb"@, BackendPriority::Good, o.tc_htb);
    spec_push_offered(l3, "dnctl"@, BackendPriority::Best, o.dnctl)
}

/// A backend that is built in but never usable: listed, never available.
pub open spec fn spec_disabled(o: Offered) -> Offered {
    match o {
        Some(_) => Some(false),
        None => None,
    }
}

/// The offered download backends in order: eBPF (best), nftables (better;
/// listed but never available, since cgroup v2 socket matching never
/// matches on the input chain), IFB (good), police (fallback), dummynet (best).
pub open spec fn spec_download_list(o: DownloadOffer) -> Seq<(Seq<char>, BackendPriority, bool)> {
    let l0 = Seq::empty();
    let l1 = spec_push_offered(l0, "ebpf"@, BackendPriority::Best, o.ebpf);
    let l2 = spec_push_offered(l1, "nftables"@, BackendPriority::Better, spec_disabled(o.nftables));
    let l3 = spec_push_offered(l2, "ifb_tc"@, BackendPriority::Good, o.ifb_tc);
    let l4 = spec_push_offered(l3, "tc_police"@, BackendPriority::Fallback, o.tc_police);
    spec_push_offered(l4, "dnctl"@, BackendPriority::Best, o.dnctl)
}

/// The upload info list matches the spec list.
pub open spec fn spec_upload_infos_are(
    r: Seq<UploadBackendInfo>,
    l: Seq<(Seq<char>, BackendPriority, bool)>,
) -> bool {
    &&& r.len() == l.len()
    &&& forall|j: int|
        0 <= j < r.len() ==> (#[trigger] r[j]).name@ == l[j].0 && r[j].priority == l[j].1
            && r[j].available == l[j].2
}

/// The download info list matches the spec list.
pub open spec fn spec_download_infos_are(
    r: Seq<DownloadBackendInfo>,
    l: Seq<(Seq<char>, BackendPriority, bool)>,
) -> bool {
    &&& r.len() == l.len()
    &&& forall|j: int|
        0 <= j < r.len() ==> (#[trigger] r[j]).name@ == l[j].0 && r[j].priority == l[j].1
            && r[j].available == l[j].2
}

fn push_upload(
    v: &mut Vec<UploadBackendInfo>,
    Ghost(l): Ghost<Seq<(Seq<char>, BackendPriority, bool)>>,
    name: &str,
    priority: BackendPriority,
    offered: Offered,
)
    requires
        spec_upload_infos_are(old(v)@, l),
    ensures
        spec_upload_infos_are(final(v)@, spec_push_offered(l, name@, priority, offered)),
{
    if let Some(available) = offered {
        v.push(UploadBackendInfo { name: String::from_str(name), priority, available });
    }
}

fn push_download(
    v: &mut Vec<DownloadBackendInfo>,
    Ghost(l): Ghost<Seq<(Seq<char>, BackendPriority, bool)>>,
    name: &str,
    priority: BackendPriority,
    offered: Offered,
)
    requires
        spec_download_infos_are(old(v)@, l),
    ensures
        spec_download_infos_are(final(v)@, spec_push_offered(l, name@, priority, offered)),
{
    if let Some(available) = offered {
        v.push(DownloadBackendInfo { name: String::from_str(name), priority, available });
    }
}

/// The upload backends this build offers, with their priority and availability.
pub fn detect_upload_backends(offer: &UploadOffer) -> (r: Vec<UploadBackendInfo>)
    ensures
        spec_upload_infos_are(r@, spec_upload_list(*offer)),
{
    let mut v: Vec<UploadBackendInfo> = Vec::new();
    let ghost l0 = Seq::<(Seq<char>, BackendPriority, bool)>::empty();
    let ghost l1 = spec_push_offered(l0, "ebpf"@, BackendPriority::Best, offer.ebpf);
    let ghost l2 = spec_push_offered(l1, "nftables"@, BackendPriority::Better, offer.nftables);
    let ghost l3 = spec_push_offered(l2, "tc_htb"@, BackendPriority::Good, offer.tc_htb);
    push_upload(&mut v, Ghost(l0), "ebpf", BackendPriority::Best, offer.ebpf);
    push_upload(&mut v, Ghost(l1), "nftables", BackendPriority::Better, offer.nftables);
    push_upload(&mut v, Ghost(l2), "tc_htb", BackendPriority::Good, offer.tc_htb);
    push_upload(&mut v, Ghost(l3), "dnctl", BackendPriority::Best, offer.dnctl);
    v
}

/// The download backends this build offers, with their priority and availability.
pub fn detect_download_backends(offer: &DownloadOffer) -> (r: Vec<DownloadBackendInfo>)
    ensures
        spec_download_infos_are(r@, spec_download_list(*offer)),
{
    let mut v: Vec<DownloadBackendInfo> = Vec::new();
    let ghost l0 = Seq::<(Seq<char>, BackendPriority, bool)>::empty();
    let ghost l1 = spec_push_offered(l0, "ebpf"@, BackendPriority::Best, offer.ebpf);
    let ghost l2 = spec_push_offered(l1, "nftables"@, BackendPriority::Better, spec_disabled(offer.nftables));
    let ghost l3 = spec_push_offered(l2, "ifb_tc"@, BackendPriority::Good, offer.ifb_tc);
    let ghost l4 = spec_push_offered(l3, "tc_police"@, BackendPriority::Fallback, offer.tc_police);
    push_download(&mut v, Ghost(l0), "ebpf", BackendPriority::Best, offer.ebpf);
    let nftables: Offered = match offer.nftables {
        Some(_) => Some(false),
        None => None,
    };
    push_download(&mut v, Ghost(l1), "nftables", BackendPriority::Better, nftables);
    push_download(&mut v, Ghost(l2), "ifb_tc", BackendPriority::Good, offer.ifb_tc);
    push_download(&mut v, Ghost(l3), "tc_police", BackendPriority::Fallback, offer.tc_police);
    push_download(&mut v, Ghost(l4), "dnctl", BackendPriority::Best, offer.dnctl);
    v
}


/// Errors of backend selection.
#[derive(Clone, Debug)]
pub enum BackendError {
    /// No backend of this name is built in.
    Unknown(String),
    /// No backend is available.
    NoneAvailable,
}

/// The upload backend kinds.
#[derive(Clone, Copy, Debug, PartialEq, Eq, Structural)]
pub enum UploadBackendKind {
    Ebpf,
    Nftables,
    TcHtb,
    Dnctl,
}

/// The download backend kinds.
#[derive(Clone, Copy, Debug, PartialEq, Eq, Structural)]
pub enum DownloadBackendKind {
    Ebpf,
    Nftables,
    IfbTc,
    TcPolice,
    Dnctl,
}

/// The upload backend kind a name refers to, when the build offers it.
pub open spec fn spec_upload_kind(name: Seq<char>, o: UploadOffer) -> Option<UploadBackendKind> {
    if name == "ebpf"@ && o.ebpf is Some {
        Some(UploadBackendKind::Ebpf)
    } else if name == "nftables"@ && o.nftables is Some {
        Some(UploadBackendKind::Nftables)
    } else if name == "tc_htb"@ && o.tc_htb is Some {
        Some(UploadBackendKind::TcHtb)
    } else if name == "dnctl"@ && o.dnctl is Some {
        Some(UploadBackendKind::Dnctl)
    } else {
        None
    }
}

/// The download backend kind a name refers to, when the build offers it.
pub open spec fn spec_download_kind(name: Seq<char>, o: DownloadOffer) -> Option<DownloadBackendKind> {
    if name == "ebpf"@ && o.ebpf is Some {
        Some(DownloadBackendKind::Ebpf)
    } else if name == "nftables"@ && o.nftables is Some {
        Some(DownloadBackendKind::Nftables)
    } else if name == "ifb_tc"@ && o.ifb_tc is Some {
        Some(DownloadBackendKind::IfbTc)
    } else if name == "tc_police"@ && o.tc_police is Some {
        Some(DownloadBackendKind::TcPolice)
    } else if name == "dnctl"@ && o.dnctl is Some {
        Some(DownloadBackendKind::Dnctl)
    } else {
        None
    }
}

/// The name an upload backend kind is registered under.
pub open spec fn spec_upload_kind_name(k: UploadBackendKind) -> Seq<char> {
    match k {
        UploadBackendKind::Ebpf => "ebpf"@,
        UploadBackendKind::Nftables => "nftables"@,
        UploadBackendKind::TcHtb => "tc_htb"@,
        UploadBackendKind::Dnctl => "dnctl"@,
    }
}

/// The name a download backend kind is registered under.
pub open spec fn spec_download_kind_name(k: DownloadBackendKind) -> Seq<char> {
    match k {
        DownloadBackendKind::Ebpf => "ebpf"@,
        DownloadBackendKind::Nftables => "nftables"@,
        DownloadBackendKind::IfbTc => "ifb_tc"@,
        DownloadBackendKind::TcPolice => "tc_police"@,
        DownloadBackendKind::Dnctl => "dnctl"@,
    }
}

/// A backend created for a name is registered under that name.
pub proof fn lemma_created_backend_named(name: Seq<char>, up: UploadOffer, down: DownloadOffer)
    ensures
        spec_upload_kind(name, up) matches Some(k) ==> spec_upload_kind_name(k) == name,
        spec_download_kind(name, down) matches Some(k) ==> spec_download_kind_name(k) == name,
{
}

/// The upload backend to create for a name; unknown names are refused.
pub fn create_upload_backend(name: &str, offer: &UploadOffer) -> (r: Result<
    UploadBackendKind,
    BackendError,
>)
    ensures
        match spec_upload_kind(name@, *offer) {
            Some(k) => r == Ok::<UploadBackendKind, BackendError>(k),
            None => r matches Err(BackendError::Unknown(n)) && n@ == name@,
        },
{
    if str_eq(name, "ebpf") && offer.ebpf.is_some() {
        Ok(UploadBackendKind::Ebpf)
    } else if str_eq(name, "nftables") && offer.nftables.is_some() {
        Ok(UploadBackendKind::Nftables)
    } else if str_eq(name, "tc_htb") && offer.tc_htb.is_some() {
        Ok(UploadBackendKind::TcHtb)
    } else if str_eq(name, "dnctl") && offer.dnctl.is_some() {
        Ok(UploadBackendKind::Dnctl)
    } else {
        Err(BackendError::Unknown(String::from_str(name)))
    }
}

/// The download backend to create for a name; unknown names are refused.
pub fn create_download_backend(name: &str, offer: &DownloadOffer) -> (r: Result<
    DownloadBackendKind,
    BackendError,
>)
    ensures
        match spec_download_kind(name@, *offer) {
            Some(k) => r == Ok::<DownloadBackendKind, BackendError>(k),
            None => r matches Err(BackendError::Unknown(n)) && n@ == name@,
        },
{
    if str_eq(name, "ebpf") && offer.ebpf.is_some() {
        Ok(DownloadBackendKind::Ebpf)
    } else if str_eq(name, "nftables") && offer.nftables.is_some() {
        Ok(DownloadBackendKind::Nftables)
    } else if str_eq(name, "ifb_tc") && offer.ifb_tc.is_some() {
        Ok(DownloadBackendKind::IfbTc)
    } else if str_eq(name, "tc_police") && offer.tc_police.is_some() {
        Ok(DownloadBackendKind::TcPolice)
    } else if str_eq(name, "dnctl") && offer.dnctl.is_some() {
        Ok(DownloadBackendKind::Dnctl)
    } else {
        Err(BackendError::Unknown(String::from_str(name)))
    }
}

/// Priority and availability of each entry of a backend list.
pub open spec fn spec_ranks(l: Seq<(Seq<char>, BackendPriority, bool)>) -> Seq<(BackendPriority, bool)> {
    l.map_values(|e: (Seq<char>, BackendPriority, bool)| (e.1, e.2))
}

/// The backend chosen from a list when none is preferred: the available one
/// of highest priority (the last one on ties).
pub open spec fn spec_auto_choice(l: Seq<(Seq<char>, BackendPriority, bool)>) -> Option<Seq<char>> {
    match spec_best_in(spec_ranks(l), l.len() as int) {
        Some(i) => Some(l[i].0),
        None => None,
    }
}

/// The view of an optional name.
pub open spec fn spec_opt_name(r: Option<String>) -> Option<Seq<char>> {
    match r {
        Some(n) => Some(n@),
        None => None,
    }
}

fn upload_ranks(available: &Vec<UploadBackendInfo>, Ghost(l): Ghost<Seq<(Seq<char>, BackendPriority, bool)>>) -> (r: Vec<(BackendPriority, bool)>)
    requires
        spec_upload_infos_are(available@, l),
    ensures
        r@ == spec_ranks(l),
{
    let mut c: Vec<(BackendPriority, bool)> = Vec::new();
    let mut i: usize = 0;
    while i < available.len()
        invariant
            i <= available@.len(),
            spec_upload_infos_are(available@, l),
            c@ == spec_ranks(l).take(i as int),
        decreases available@.len() - i,
    {
        c.push((available[i].priority, available[i].available));
        i = i + 1;
        assert(c@ =~= spec_ranks(l).take(i as int));
    }
    assert(spec_ranks(l).take(available@.len() as int) =~= spec_ranks(l));
    c
}

fn download_ranks(available: &Vec<DownloadBackendInfo>, Ghost(l): Ghost<Seq<(Seq<char>, BackendPriority, bool)>>) -> (r: Vec<(BackendPriority, bool)>)
    requires
        spec_download_infos_are(available@, l),
    ensures
        r@ == spec_ranks(l),
{
    let mut c: Vec<(BackendPriority, bool)> = Vec::new();
    let mut i: usize = 0;
    while i < available.len()
        invariant
            i <= available@.len(),
            spec_download_infos_are(available@, l),
            c@ == spec_ranks(l).take(i as int),
        decreases available@.len() - i,
    {
        c.push((available[i].priority, available[i].available));
        i = i + 1;
        assert(c@ =~= spec_ranks(l).take(i as int));
    }
    assert(spec_ranks(l).take(available@.len() as int) =~= spec_ranks(l));
    c
}

/// The upload backend to use: a preferred one when it can be created, else
/// none; with no preference, the available backend of highest priority (the
/// last one on ties), else none.
pub fn select_upload_backend(preference: Option<&str>, offer: &UploadOffer) -> (r: Option<String>)
    ensures
        spec_opt_name(r) == match preference {
            Some(p) => if spec_upload_kind(p@, *offer) is Some {
                Some(p@)
            } else {
                None
            },
            None => spec_auto_choice(spec_upload_list(*offer)),
        },
{
    if let Some(name) = preference {
        return match create_upload_backend(name, offer) {
            Ok(_) => Some(String::from_str(name)),
            Err(_) => None,
        };
    }
    let available = detect_upload_backends(offer);
    let ghost l = spec_upload_list(*offer);
    let c = upload_ranks(&available, Ghost(l));
    match best_available(&c) {
        Some(b) => Some(available[b].name.clone()),
        None => None,
    }
}

/// The download backend to use, chosen as for uploads.
pub fn select_download_backend(preference: Option<&str>, offer: &DownloadOffer) -> (r: Option<String>)
    ensures
        spec_opt_name(r) == match preference {
            Some(p) => if spec_download_kind(p@, *offer) is Some {
                Some(p@)
            } else {
                None
            },
            None => spec_auto_choice(spec_download_list(*offer)),
        },
{
    if let Some(name) = preference {
        return match create_download_backend(name, offer) {
            Ok(_) => Some(String::from_str(name)),
            Err(_) => None,
        };
    }
    let available = detect_download_backends(offer);
    let ghost l = spec_download_list(*offer);
    let c = download_ranks(&available, Ghost(l));
    match best_available(&c) {
        Some(b) => Some(available[b].name.clone()),
        None => None,
    }
}

/// The monitoring backends this build offers: packet capture (good).
pub fn detect_available_backends(pnet: Offered) -> (r: Vec<MonitorBackendInfo>)
    ensures
        match pnet {
            Some(a) => r@.len() == 1 && r@[0].name@ == "pnet"@ && r@[0].priority
                == BackendPriority::Good && r@[0].available == a,
            None => r@.len() == 0,
        },
{
    let mut v: Vec<MonitorBackendInfo> = Vec::new();
    if let Some(available) = pnet {
        v.push(
            MonitorBackendInfo {
                name: String::from_str("pnet"),
                priority: BackendPriority::Good,
                available,
            },
        );
    }
    v
}

/// The monitoring backend to create: the preference when the build offers
/// it (unknown names are refused), else the available one of highest
/// priority; an error when none is.
pub fn select_monitor_backend(
    preference: Option<&str>,
    available: &Vec<MonitorBackendInfo>,
    pnet: Offered,
) -> (r: Result<String, BackendError>)
    ensures
        match preference {
            Some(p) => if p@ == "pnet"@ && pnet is Some {
                r matches Ok(n) && n@ == p@
            } else {
                r matches Err(BackendError::Unknown(n)) && n@ == p@
            },
            None => {
                let c = available@.map_values(|b: MonitorBackendInfo| (b.priority, b.available));
                match spec_best_in(c, c.len() as int) {
                    Some(i) => if available@[i].name@ == "pnet"@ && pnet is Some {
                        r matches Ok(n) && n@ == available@[i].name@
                    } else {
                        r matches Err(BackendError::NoneAvailable)
                    },
                    None => r matches Err(BackendError::NoneAvailable),
                }
            },
        },
{
    if let Some(name) = preference {
        if str_eq(name, "pnet") && pnet.is_some() {
            return Ok(String::from_str(name));
        }
        return Err(BackendError::Unknown(String::from_str(name)));
    }
    let mut c: Vec<(BackendPriority, bool)> = Vec::new();
    let mut i: usize = 0;
    while i < available.len()
        invariant
            i <= available@.len(),
            c@ == available@.take(i as int).map_values(|b: MonitorBackendInfo| (b.priority, b.available)),
        decreases available@.len() - i,
    {
        c.push((available[i].priority, available[i].available));
        i = i + 1;
        assert(c@ =~= available@.take(i as int).map_values(|b: MonitorBackendInfo| (b.priority, b.available)));
    }
    assert(available@.take(available@.len() as int) =~= available@);
    match best_available(&c) {
        Some(b) => {
            if str_eq(available[b].name.as_str(), "pnet") && pnet.is_some() {
                Ok(available[b].name.clone())
            } else {
                Err(BackendError::NoneAvailable)
            }
        },
        None => Err(BackendError::NoneAvailable),
    }
}

/// Capabilities of an upload backend: dummynet also limits per connection.
pub fn upload_capabilities(kind: UploadBackendKind) -> (r: BackendCapabilities)
    ensures
        r == (BackendCapabilities {
            ipv4_support: true,
            ipv6_support: true,
            per_process: true,
            per_connection: kind == UploadBackendKind::Dnctl,
        }),
{
    BackendCapabilities {
        ipv4_support: true,
        ipv6_support: true,
        per_process: true,
        per_connection: kind == UploadBackendKind::Dnctl,
    }
}

/// Capabilities of a download backend: police works on IPv4 only and not
/// per process; dummynet also limits per connection.
pub fn download_capabilities(kind: DownloadBackendKind) -> (r: BackendCapabilities)
    ensures
        r == (if kind == DownloadBackendKind::TcPolice {
            BackendCapabilities {
                ipv4_support: true,
                ipv6_support: false,
                per_process: false,
                per_connection: false,
            }
        } else {
            BackendCapabilities {
                ipv4_support: true,
                ipv6_support: true,
                per_process: true,
                per_connection: kind == DownloadBackendKind::Dnctl,
            }
        }),
{
    match kind {
        DownloadBackendKind::TcPolice => BackendCapabilities {
            ipv4_support: true,
            ipv6_support: false,
            per_process: false,
            per_connection: false,
        },
        _ => BackendCapabilities {
            ipv4_support: true,
            ipv6_support: true,
            per_process: true,
            per_connection: kind == DownloadBackendKind::Dnctl,
        },
    }
}

} // verus!
