//! Cgroups that isolate throttled processes: the kinds, their choice, and
//! the bookkeeping and naming of each kind.
//!
//! Version 1 tags a process's packets with a class id through the `net_cls`
//! controller; version 2 places the process in its own group of the unified
//! hierarchy, matched by nftables socket rules. File system work happens
//! outside; this module says what to create, where, and how it is named.
use crate::parse::{parse_i32, parse_u32, spec_signed, spec_trim, spec_unsigned, trim};
use crate::pid_map::spec_index_in;
use crate::text::{concat, push_i64, push_u64, spec_decimal, spec_int_text};
use vstd::prelude::*;

verus! {

/// Mount point of the version 1 `net_cls` controller.
pub const CGROUP_V1_BASE: &'static str = "/sys/fs/cgroup/net_cls";

/// Root of the version 2 unified hierarchy.
pub const CGROUP_V2_BASE: &'static str = "/sys/fs/cgroup";

/// Name of this program's cgroup under either root.
pub const CHADTHROTTLE_CGROUP: &'static str = "chadthrottle";

/// Cgroup kinds.
#[derive(Clone, Copy, Debug, PartialEq, Eq, Structural)]
pub enum CgroupBackendType {
    /// Version 1 with the `net_cls` controller.
    V1,
    /// Version 2 with nftables socket matching.
    V2Nftables,
    /// Version 2 with a traffic-control classifier.
    V2Ebpf,
}

impl CgroupBackendType {
    /// The display name of the kind.
    pub fn name(&self) -> (r: &'static str)
        ensures
            r@ == (match *self {
                CgroupBackendType::V1 => "cgroup-v1"@,
                CgroupBackendType::V2Nftables => "cgroup-v2-nftables"@,
                CgroupBackendType::V2Ebpf => "cgroup-v2-ebpf"@,
            }),
    {
        match self {
            CgroupBackendType::V1 => "cgroup-v1",
            CgroupBackendType::V2Nftables => "cgroup-v2-nftables",
            CgroupBackendType::V2Ebpf => "cgroup-v2-ebpf",
        }
    }
}

/// A cgroup created for a process.
#[derive(Clone, Debug)]
pub struct CgroupHandle {
    /// The process it was created for.
    pub pid: i32,
    /// Class id (version 1) or path relative to the hierarchy root (version 2).
    pub identifier: String,
    pub backend_type: CgroupBackendType,
}

/// Operations every cgroup kind offers without touching the system.
pub trait CgroupBackend {
    /// The kind.
    fn backend_type(&self) -> CgroupBackendType;

    /// The expression that matches the cgroup's traffic in a filter rule.
    fn get_filter_expression(&self, handle: &CgroupHandle) -> String;
}

/// What is known of a cgroup kind on this system.
#[derive(Clone, Debug)]
pub struct CgroupProbe {
    pub available: bool,
    /// Why it is unavailable, when it is.
    pub unavailable_reason: String,
}

/// The cgroup kind to use: the first offered and available of version 2
/// with a classifier, version 2 with nftables, version 1; `None` for a kind
/// the build leaves out.
pub fn select_best_backend(
    v2_ebpf: Option<bool>,
    v2_nftables: Option<bool>,
    v1: Option<bool>,
) -> (r: Option<CgroupBackendType>)
    ensures
        r == (if v2_ebpf == Some(true) {
            Some(CgroupBackendType::V2Ebpf)
        } else if v2_nftables == Some(true) {
            Some(CgroupBackendType::V2Nftables)
        } else if v1 == Some(true) {
            Some(CgroupBackendType::V1)
        } else {
            None
        }),
{
    if v2_ebpf == Some(true) {
        Some(CgroupBackendType::V2Ebpf)
    } else if v2_nftables == Some(true) {
        Some(CgroupBackendType::V2Nftables)
    } else if v1 == Some(true) {
        Some(CgroupBackendType::V1)
    } else {
        None
    }
}

/// Whether version 1 with `net_cls` is offered and available.
pub fn is_cgroup_v1_available(v1: Option<bool>) -> (r: bool)
    ensures
        r == (v1 == Some(true)),
{
    v1 == Some(true)
}

fn push_listing(
    v: &mut Vec<(CgroupBackendType, bool, String)>,
    kind: CgroupBackendType,
    probe: &Option<CgroupProbe>,
)
    ensures
        match probe {
            Some(p) => final(v)@.len() == old(v)@.len() + 1 && final(v)@.take(old(v)@.len() as int)
                == old(v)@ && final(v)@.last().0 == kind && final(v)@.last().1 == p.available
                && final(v)@.last().2@ == (if p.available {
                "Available"@
            } else {
                p.unavailable_reason@
            }),
            None => final(v)@ == old(v)@,
        },
{
    if let Some(p) = probe {
        let reason = if p.available {
            String::from_str("Available")
        } else {
            p.unavailable_reason.clone()
        };
        v.push((kind, p.available, reason));
        assert(v@.take(old(v)@.len() as int) =~= old(v)@);
    }
}

/// The offered cgroup kinds (version 1, version 2 with nftables, version 2
/// with a classifier, in that order) with availability and `Available` or
/// the reason they are not.
pub fn list_all_backends(
    v1: &Option<CgroupProbe>,
    v2_nftables: &Option<CgroupProbe>,
    v2_ebpf: &Option<CgroupProbe>,
) -> (r: Vec<(CgroupBackendType, bool, String)>)
    ensures
        r@.len() == (if v1 is Some { 1int } else { 0 }) + (if v2_nftables is Some { 1int } else { 0 })
            + (if v2_ebpf is Some { 1int } else { 0 }),
        forall|j: int|
            0 <= j < r@.len() ==> {
                let kinds = seq![
                    (CgroupBackendType::V1, *v1),
                    (CgroupBackendType::V2Nftables, *v2_nftables),
                    (CgroupBackendType::V2Ebpf, *v2_ebpf),
                ].filter(|e: (CgroupBackendType, Option<CgroupProbe>)| e.1 is Some);
                &&& (#[trigger] r@[j]).0 == kinds[j].0
                &&& r@[j].1 == kinds[j].1->0.available
                &&& r@[j].2@ == (if kinds[j].1->0.available {
                    "Available"@
                } else {
                    kinds[j].1->0.unavailable_reason@
                })
            },
{
    let mut v: Vec<(CgroupBackendType, bool, String)> = Vec::new();
    push_listing(&mut v, CgroupBackendType::V1, v1);
    let ghost a = v@;
    push_listing(&mut v, CgroupBackendType::V2Nftables, v2_nftables);
    let ghost b = v@;
    push_listing(&mut v, CgroupBackendType::V2Ebpf, v2_ebpf);
    proof {
        let all = seq![
            (CgroupBackendType::V1, *v1),
            (CgroupBackendType::V2Nftables, *v2_nftables),
            (CgroupBackendType::V2Ebpf, *v2_ebpf),
        ];
        let pred = |e: (CgroupBackendType, Option<CgroupProbe>)| e.1 is Some;
        reveal_with_fuel(Seq::filter, 4);
        assert(all.drop_last().drop_last().drop_last() =~= Seq::<(CgroupBackendType, Option<CgroupProbe>)>::empty());
        assert(all.drop_last().drop_last() =~= seq![all[0]]);
        assert(all.drop_last() =~= seq![all[0], all[1]]);
        let f1 = seq![all[0]].filter(pred);
        let f2 = seq![all[0], all[1]].filter(pred);
        assert(seq![all[0]].drop_last() =~= Seq::<(CgroupBackendType, Option<CgroupProbe>)>::empty());
        assert(seq![all[0], all[1]].drop_last() =~= seq![all[0]]);
        assert forall|j: int| 0 <= j < v@.len() implies {
            let kinds = all.filter(pred);
            &&& (#[trigger] v@[j]).0 == kinds[j].0
            &&& v@[j].1 == kinds[j].1->0.available
            &&& v@[j].2@ == (if kinds[j].1->0.available {
                "Available"@
            } else {
                kinds[j].1->0.unavailable_reason@
            })
        } by {
            if j < a.len() {
                assert(v@[j] == a[j]);
            } else if j < b.len() {
                assert(v@[j] == b[j]);
            }
        }
    }
    v
}

/// Why version 1 is unavailable, from what exists at its mount point.
pub fn v1_unavailable_reason(base_exists: bool, base_is_dir: bool) -> (r: String)
    ensures
        r@ == (if !base_exists {
            "Cgroup v1 net_cls controller not found at "@ + CGROUP_V1_BASE@
                + ". Your system may use cgroup v2."@
        } else if !base_is_dir {
            CGROUP_V1_BASE@ + " exists but is not a directory"@
        } else {
            "Cgroup v1 net_cls controller exists but is not accessible (permission denied?)"@
        }),
{
    if !base_exists {
        let mut s = concat("Cgroup v1 net_cls controller not found at ", CGROUP_V1_BASE);
        s.append(". Your system may use cgroup v2.");
        s
    } else if !base_is_dir {
        concat(CGROUP_V1_BASE, " exists but is not a directory")
    } else {
        String::from_str(
            "Cgroup v1 net_cls controller exists but is not accessible (permission denied?)",
        )
    }
}

/// Why version 2 with nftables is unavailable, from what the system has.
pub fn v2_unavailable_reason(base_exists: bool, controllers_exist: bool, nft_found: bool) -> (r:
    String)
    ensures
        r@ == (if !base_exists {
            "Cgroup v2 not found at "@ + CGROUP_V2_BASE@ + ". System may still use cgroup v1."@
        } else if !controllers_exist {
            CGROUP_V2_BASE@ + " exists but cgroup.controllers not found. Not a valid cgroup v2 hierarchy."@
        } else if !nft_found {
            "nftables not found. Install nftables package."@
        } else {
            "Cgroup v2 and nftables available but access denied (need root permissions)"@
        }),
{
    if !base_exists {
        let mut s = concat("Cgroup v2 not found at ", CGROUP_V2_BASE);
        s.append(". System may still use cgroup v1.");
        s
    } else if !controllers_exist {
        concat(
            CGROUP_V2_BASE,
            " exists but cgroup.controllers not found. Not a valid cgroup v2 hierarchy.",
        )
    } else if !nft_found {
        String::from_str("nftables not found. Install nftables package.")
    } else {
        String::from_str("Cgroup v2 and nftables available but access denied (need root permissions)")
    }
}

/// `base/name`.
pub open spec fn spec_join(base: Seq<char>, name: Seq<char>) -> Seq<char> {
    base + "/"@ + name
}

/// `base/name`.
pub fn join_path(base: &str, name: &str) -> (r: String)
    ensures
        r@ == spec_join(base@, name@),
{
    let mut s = String::from_str(base);
    s.append("/");
    s.append(name);
    s
}

/// Class id tag of a minor number: major 1 in the upper half.
pub open spec fn spec_classid_hex(classid: u32) -> u32 {
    0x10000u32 | classid
}

/// Class id in traffic-control notation, `1:<minor>`.
pub open spec fn spec_classid_tc(classid: u32) -> Seq<char> {
    "1:"@ + spec_decimal(classid as nat)
}

/// The first of the first `n` class id allocations of this pid.
pub open spec fn spec_classid_in(s: Seq<(i32, u32)>, pid: i32, n: int) -> Option<u32>
    decreases n,
{
    if n <= 0 {
        None
    } else {
        match spec_classid_in(s, pid, n - 1) {
            Some(c) => Some(c),
            None => if s[n - 1].0 == pid {
                Some(s[n - 1].1)
            } else {
                None
            },
        }
    }
}

proof fn lemma_classid_stable(s: Seq<(i32, u32)>, pid: i32, n: int, m: int)
    requires
        0 <= n <= m,
        spec_classid_in(s, pid, n) is Some,
    ensures
        spec_classid_in(s, pid, m) == spec_classid_in(s, pid, n),
    decreases m - n,
{
    if m > n {
        lemma_classid_stable(s, pid, n, m - 1);
    }
}

proof fn lemma_classid_found(s: Seq<(i32, u32)>, pid: i32, n: int)
    requires
        0 <= n <= s.len(),
    ensures
        spec_classid_in(s, pid, n) matches Some(c) ==> exists|j: int| 0 <= j < n && s[j] == (pid, c),
        spec_classid_in(s, pid, n) is None ==> forall|j: int| 0 <= j < n ==> s[j].0 != pid,
    decreases n,
{
    if n > 0 {
        lemma_classid_found(s, pid, n - 1);
    }
}

/// Version 1 cgroups under the `net_cls` controller, with class ids
/// allocated per process from 1 upward.
pub struct CgroupV1Backend {
    /// This program's cgroup directory.
    pub base_path: String,
    /// Process -> allocated class id minor number.
    pub allocated_classids: Vec<(i32, u32)>,
    /// Next class id minor number to hand out.
    pub next_classid: u32,
}

/// What to create for a version 1 cgroup.
#[derive(Clone, Debug)]
pub struct CgroupV1Setup {
    /// Directory of the process's cgroup.
    pub cgroup_path: String,
    /// Text to write to `net_cls.classid`: the class id tag in decimal.
    pub classid_text: String,
    /// Text to write to `cgroup.procs`: the pid in decimal.
    pub pid_text: String,
    pub handle: CgroupHandle,
}

impl CgroupV1Backend {
    /// Class ids are allocated to distinct processes, each below the next
    /// one to hand out, and no two processes share one.
    pub open spec fn spec_wf(&self) -> bool {
        &&& forall|i: int|
            0 <= i < self.allocated_classids@.len() ==> (#[trigger] self.allocated_classids@[i]).1
                < self.next_classid
        &&& forall|i: int, j: int|
            0 <= i < j < self.allocated_classids@.len() ==> (#[trigger] self.allocated_classids@[i]).1
                != (#[trigger] self.allocated_classids@[j]).1
        &&& self.next_classid >= 1
    }

    /// The class id allocated to a process.
    pub open spec fn spec_classid_of(&self, pid: i32) -> Option<u32> {
        spec_classid_in(self.allocated_classids@, pid, self.allocated_classids@.len() as int)
    }

    /// A backend with no class ids allocated; the first handed out is 1.
    pub fn new() -> (r: Result<Self, ()>)
        ensures
            r matches Ok(b) && b.base_path@ == spec_join(CGROUP_V1_BASE@, CHADTHROTTLE_CGROUP@)
                && b.allocated_classids@.len() == 0 && b.next_classid == 1 && b.spec_wf(),
    {
        Ok(
            CgroupV1Backend {
                base_path: join_path(CGROUP_V1_BASE, CHADTHROTTLE_CGROUP),
                allocated_classids: Vec::new(),
                next_classid: 1,
            },
        )
    }

    /// The class id tag of a minor number (major 1).
    pub fn classid_to_hex(classid: u32) -> (r: u32)
        ensures
            r == spec_classid_hex(classid),
    {
        0x10000 | classid
    }

    /// A class id in traffic-control notation, `1:<minor>`.
    pub fn classid_to_tc_format(classid: u32) -> (r: String)
        ensures
            r@ == spec_classid_tc(classid),
    {
        let mut s = String::from_str("1:");
        push_u64(&mut s, classid as u64);
        s
    }

    /// The class id of a process: the one it has, or the next one, which is
    /// then recorded for it.
    pub fn allocate_classid(&mut self, pid: i32) -> (r: u32)
        requires
            old(self).spec_classid_of(pid) is Some || old(self).next_classid < u32::MAX,
            old(self).spec_wf(),
        ensures
            final(self).spec_wf(),
            final(self).base_path == old(self).base_path,
            match old(self).spec_classid_of(pid) {
                Some(c) => r == c && final(self).allocated_classids@ == old(self).allocated_classids@
                    && final(self).next_classid == old(self).next_classid,
                None => r == old(self).next_classid && final(self).next_classid
                    == old(self).next_classid + 1 && final(self).allocated_classids@
                    == old(self).allocated_classids@.push((pid, r)),
            },
            final(self).spec_classid_of(pid) == Some(r),
    {
        let mut i: usize = 0;
        while i < self.allocated_classids.len()
            invariant
                i <= self.allocated_classids@.len(),
                self.allocated_classids@ == old(self).allocated_classids@,
                self.next_classid == old(self).next_classid,
                self.base_path == old(self).base_path,
                old(self).spec_wf(),
                spec_classid_in(self.allocated_classids@, pid, i as int) is None,
            decreases self.allocated_classids@.len() - i,
        {
            if self.allocated_classids[i].0 == pid {
                proof {
                    lemma_classid_stable(
                        self.allocated_classids@,
                        pid,
                        i + 1,
                        self.allocated_classids@.len() as int,
                    );
                }
                return self.allocated_classids[i].1;
            }
            i = i + 1;
        }
        let classid = self.next_classid;
        self.next_classid = self.next_classid + 1;
        self.allocated_classids.push((pid, classid));
        proof {
            let s = self.allocated_classids@;
            assert(s.drop_last() =~= old(self).allocated_classids@);
            assert(spec_classid_in(s, pid, s.len() - 1) is None) by {
                lemma_classid_found(old(self).allocated_classids@, pid, old(self).allocated_classids@.len() as int);
                lemma_classid_none_prefix(s, pid, s.len() - 1);
            }
        }
        classid
    }

    /// Forget the class id of a process.
    pub fn free_classid(&mut self, pid: i32)
        requires
            old(self).spec_wf(),
        ensures
            final(self).spec_wf(),
            final(self).spec_classid_of(pid) is None,
            final(self).next_classid == old(self).next_classid,
            final(self).base_path == old(self).base_path,
            forall|j: int|
                0 <= j < final(self).allocated_classids@.len() ==> old(self).allocated_classids@.contains(
                    #[trigger] final(self).allocated_classids@[j],
                ),
    {
        let mut kept: Vec<(i32, u32)> = Vec::new();
        let ghost mut src_index: Seq<int> = Seq::empty();
        let mut i: usize = 0;
        while i < self.allocated_classids.len()
            invariant
                i <= self.allocated_classids@.len(),
                self.allocated_classids@ == old(self).allocated_classids@,
                self.next_classid == old(self).next_classid,
                self.base_path == old(self).base_path,
                old(self).spec_wf(),
                src_index.len() == kept@.len(),
                forall|j: int| 0 <= j < kept@.len() ==> 0 <= #[trigger] src_index[j] < i
                    && kept@[j] == self.allocated_classids@[src_index[j]],
                forall|j: int, k: int| 0 <= j < k < kept@.len() ==> #[trigger] src_index[j] < #[trigger] src_index[k],
                forall|j: int| 0 <= j < kept@.len() ==> (#[trigger] kept@[j]).0 != pid,
            decreases self.allocated_classids@.len() - i,
        {
            if self.allocated_classids[i].0 != pid {
                kept.push(self.allocated_classids[i]);
                proof {
                    src_index = src_index.push(i as int);
                }
            }
            i = i + 1;
        }
        proof {
            lemma_classid_none_all(kept@, pid);
            assert forall|j: int| 0 <= j < kept@.len() implies old(self).allocated_classids@.contains(
                #[trigger] kept@[j],
            ) by {
                assert(kept@[j] == old(self).allocated_classids@[src_index[j]]);
            }
            assert forall|a: int, b: int| 0 <= a < b < kept@.len() implies (#[trigger] kept@[a]).1
                != (#[trigger] kept@[b]).1 by {
                assert(src_index[a] < src_index[b]);
                assert(kept@[a] == old(self).allocated_classids@[src_index[a]]);
                assert(kept@[b] == old(self).allocated_classids@[src_index[b]]);
            }
            assert forall|a: int| 0 <= a < kept@.len() implies (#[trigger] kept@[a]).1 < self.next_classid by {
                assert(kept@[a] == old(self).allocated_classids@[src_index[a]]);
            }
        }
        self.allocated_classids = kept;
    }

    /// Directory of a cgroup of this program.
    pub fn get_cgroup_path(&self, name: &str) -> (r: String)
        ensures
            r@ == spec_join(self.base_path@, name@),
    {
        join_path(self.base_path.as_str(), name)
    }

    /// Allocate the process's class id and say what to create: the
    /// directory `<name>_<pid>`, its class id tag and its process.
    pub fn create_cgroup(&mut self, pid: i32, name: &str) -> (r: CgroupV1Setup)
        requires
            old(self).spec_classid_of(pid) is Some || old(self).next_classid < u32::MAX,
            old(self).spec_wf(),
        ensures
            final(self).spec_wf(),
            final(self).spec_classid_of(pid) matches Some(c) && r.handle.identifier@ == spec_classid_tc(c)
                && r.classid_text@ == spec_decimal(spec_classid_hex(c) as nat),
            final(self).base_path == old(self).base_path,
            match old(self).spec_classid_of(pid) {
                Some(c) => final(self).spec_classid_of(pid) == Some(c) && final(self).allocated_classids@
                    == old(self).allocated_classids@ && final(self).next_classid == old(self).next_classid,
                None => final(self).spec_classid_of(pid) == Some(old(self).next_classid)
                    && final(self).next_classid == old(self).next_classid + 1
                    && final(self).allocated_classids@ == old(self).allocated_classids@.push(
                    (pid, old(self).next_classid),
                ),
            },
            r.cgroup_path@ == spec_join(
                old(self).base_path@,
                name@ + "_"@ + spec_int_text(pid as int),
            ),
            r.pid_text@ == spec_int_text(pid as int),
            r.handle.pid == pid,
            r.handle.backend_type == CgroupBackendType::V1,
    {
        let classid = self.allocate_classid(pid);
        let classid_hex = Self::classid_to_hex(classid);
        let mut cgroup_name = String::from_str(name);
        cgroup_name.append("_");
        push_i64(&mut cgroup_name, pid as i64);
        let cgroup_path = self.get_cgroup_path(cgroup_name.as_str());
        let mut classid_text = String::new();
        push_u64(&mut classid_text, classid_hex as u64);
        let mut pid_text = String::new();
        push_i64(&mut pid_text, pid as i64);
        proof {
            assert(classid_text@ =~= spec_decimal(classid_hex as nat));
            assert(pid_text@ =~= spec_int_text(pid as int));
        }
        CgroupV1Setup {
            cgroup_path,
            classid_text,
            pid_text,
            handle: CgroupHandle {
                pid,
                identifier: Self::classid_to_tc_format(classid),
                backend_type: CgroupBackendType::V1,
            },
        }
    }

    /// The directory holding a process's cgroup among the given ones: the
    /// first whose name ends in `_<pid>`; its class id is freed.
    pub fn remove_cgroup(&mut self, handle: &CgroupHandle, dir_names: &Vec<String>) -> (r: Option<usize>)
        requires
            old(self).spec_wf(),
        ensures
            final(self).spec_wf(),
            final(self).spec_classid_of(handle.pid) is None,
            r matches Some(i) ==> i < dir_names@.len() && (dir_names@[i as int]@).len() >= ("_"@
                + spec_int_text(handle.pid as int)).len() && dir_names@[i as int]@.subrange(
                dir_names@[i as int]@.len() - ("_"@ + spec_int_text(handle.pid as int)).len(),
                dir_names@[i as int]@.len() as int,
            ) == "_"@ + spec_int_text(handle.pid as int),
            r matches Some(i) ==> forall|j: int|
                0 <= j < i ==> !spec_name_ends_with(
                    #[trigger] dir_names@[j]@,
                    "_"@ + spec_int_text(handle.pid as int),
                ),
            r is None ==> forall|j: int|
                0 <= j < dir_names@.len() ==> !spec_name_ends_with(
                    #[trigger] dir_names@[j]@,
                    "_"@ + spec_int_text(handle.pid as int),
                ),
    {
        let mut suffix = String::from_str("_");
        push_i64(&mut suffix, handle.pid as i64);
        let found = first_ending_with(dir_names, suffix.as_str());
        self.free_classid(handle.pid);
        found
    }

    /// The handle of a cgroup directory: its pid is read after the last
    /// `_` of its name, its class id from the tag file's trimmed text (the
    /// low 16 bits are the minor number); `None` when either does not read.
    pub fn handle_from_entry(dir_name: &str, classid_file: &str) -> (r: Option<CgroupHandle>)
        ensures
            match (spec_signed(spec_after_last(dir_name@, '_')), spec_unsigned(spec_trim(classid_file@))) {
                (Some(p), Some(c)) => if i32::MIN <= p <= i32::MAX && c <= u32::MAX {
                    r matches Some(h) && h.pid == p && h.backend_type == CgroupBackendType::V1
                        && h.identifier@ == spec_classid_tc(((c as u32) & 0xFFFFu32) as u32)
                } else {
                    r is None
                },
                _ => r is None,
            },
    {
        let tail = after_last(dir_name, '_');
        match parse_i32(tail.as_str()) {
            Some(pid) => match parse_u32(trim(classid_file)) {
                Some(hex) => {
                    let classid = hex & 0xFFFF;
                    Some(
                        CgroupHandle {
                            pid,
                            identifier: Self::classid_to_tc_format(classid),
                            backend_type: CgroupBackendType::V1,
                        },
                    )
                },
                None => None,
            },
            None => None,
        }
    }
}

proof fn lemma_classid_none_prefix(s: Seq<(i32, u32)>, pid: i32, n: int)
    requires
        0 <= n <= s.len(),
        forall|j: int| 0 <= j < n ==> s[j].0 != pid,
    ensures
        spec_classid_in(s, pid, n) is None,
    decreases n,
{
    if n > 0 {
        lemma_classid_none_prefix(s, pid, n - 1);
    }
}

proof fn lemma_classid_none_all(s: Seq<(i32, u32)>, pid: i32)
    requires
        forall|j: int| 0 <= j < s.len() ==> (#[trigger] s[j]).0 != pid,
    ensures
        spec_classid_in(s, pid, s.len() as int) is None,
{
    lemma_classid_none_prefix(s, pid, s.len() as int);
}

impl CgroupBackend for CgroupV1Backend {
    fn backend_type(&self) -> (r: CgroupBackendType)
        ensures
            r == CgroupBackendType::V1,
    {
        CgroupBackendType::V1
    }

    /// `classid <identifier>`.
    fn get_filter_expression(&self, handle: &CgroupHandle) -> (r: String)
        ensures
            r@ == "classid "@ + handle.identifier@,
    {
        concat("classid ", handle.identifier.as_str())
    }
}

/// The part of `s` after its last `c`, or all of `s` without one.
pub open spec fn spec_after_last(s: Seq<char>, c: char) -> Seq<char>
    decreases s.len(),
{
    if s.len() == 0 {
        s
    } else if s.last() == c {
        Seq::empty()
    } else {
        spec_after_last(s.drop_last(), c).push(s.last())
    }
}

/// The part of `s` after its last `c`, or all of `s` without one.
pub fn after_last(s: &str, c: char) -> (r: String)
    ensures
        r@ == spec_after_last(s@, c),
{
    let n = s.unicode_len();
    let mut start: usize = 0;
    let mut i: usize = 0;
    while i < n
        invariant
            n == s@.len(),
            start <= i <= n,
            spec_after_last(s@.subrange(0, i as int), c) == s@.subrange(start as int, i as int),
        decreases n - i,
    {
        let ch = s.get_char(i);
        assert(s@.subrange(0, i + 1).drop_last() =~= s@.subrange(0, i as int));
        if ch == c {
            start = i + 1;
            assert(s@.subrange(start as int, i + 1) =~= Seq::<char>::empty());
        } else {
            assert(s@.subrange(start as int, i + 1) =~= s@.subrange(start as int, i as int).push(ch));
        }
        i = i + 1;
    }
    assert(s@.subrange(0, n as int) =~= s@);
    String::from_str(s.substring_char(start, n))
}

/// Whether `s` ends with `suffix`.
pub open spec fn spec_name_ends_with(s: Seq<char>, suffix: Seq<char>) -> bool {
    s.len() >= suffix.len() && s.subrange(s.len() - suffix.len(), s.len() as int) == suffix
}

/// Index of the first name ending with `suffix`.
fn first_ending_with(names: &Vec<String>, suffix: &str) -> (r: Option<usize>)
    ensures
        r matches Some(i) ==> i < names@.len() && spec_name_ends_with(names@[i as int]@, suffix@)
            && forall|j: int| 0 <= j < i ==> !spec_name_ends_with(#[trigger] names@[j]@, suffix@),
        r is None ==> forall|j: int|
            0 <= j < names@.len() ==> !spec_name_ends_with(#[trigger] names@[j]@, suffix@),
{
    let mut i: usize = 0;
    while i < names.len()
        invariant
            i <= names@.len(),
            forall|j: int| 0 <= j < i ==> !spec_name_ends_with(#[trigger] names@[j]@, suffix@),
        decreases names@.len() - i,
    {
        if ends_with(names[i].as_str(), suffix) {
            return Some(i);
        }
        i = i + 1;
    }
    None
}

/// Whether `s` ends with `suffix`.
pub fn ends_with(s: &str, suffix: &str) -> (r: bool)
    ensures
        r == (s@.len() >= suffix@.len() && s@.subrange(s@.len() - suffix@.len(), s@.len() as int)
            == suffix@),
{
    let n = s.unicode_len();
    let m = suffix.unicode_len();
    if m > n {
        return false;
    }
    let mut i: usize = 0;
    while i < m
        invariant
            n == s@.len(),
            m == suffix@.len(),
            m <= n,
            i <= m,
            forall|j: int| 0 <= j < i ==> s@[n - m + j] == suffix@[j],
        decreases m - i,
    {
        if s.get_char(n - m + i) != suffix.get_char(i) {
            assert(s@.subrange(n - m, n as int)[i as int] != suffix@[i as int]);
            return false;
        }
        i = i + 1;
    }
    assert(s@.subrange(n - m, n as int) =~= suffix@);
    true
}

/// `s` without `prefix`, when it starts with it.
pub fn strip_prefix(s: &str, prefix: &str) -> (r: Option<String>)
    ensures
        r matches Some(t) ==> s@.len() >= prefix@.len() && s@.subrange(0, prefix@.len() as int)
            == prefix@ && t@ == s@.subrange(prefix@.len() as int, s@.len() as int),
        r is None ==> !(s@.len() >= prefix@.len() && s@.subrange(0, prefix@.len() as int)
            == prefix@),
{
    let n = s.unicode_len();
    let m = prefix.unicode_len();
    if m > n {
        return None;
    }
    let mut i: usize = 0;
    while i < m
        invariant
            n == s@.len(),
            m == prefix@.len(),
            m <= n,
            i <= m,
            forall|j: int| 0 <= j < i ==> s@[j] == prefix@[j],
        decreases m - i,
    {
        if s.get_char(i) != prefix.get_char(i) {
            assert(s@.subrange(0, m as int)[i as int] != prefix@[i as int]);
            return None;
        }
        i = i + 1;
    }
    assert(s@.subrange(0, m as int) =~= prefix@);
    Some(String::from_str(s.substring_char(m, n)))
}

/// Version 2 cgroups, one per process, named `pid_<pid>` under this
/// program's group of the unified hierarchy.
pub struct CgroupV2NftablesBackend {
    /// This program's cgroup directory.
    pub base_path: String,
}

/// What to create for a version 2 cgroup.
#[derive(Clone, Debug)]
pub struct CgroupV2Setup {
    /// Directory of the process's cgroup (removed first when present).
    pub cgroup_path: String,
    /// Text to write to `cgroup.procs`: the pid in decimal.
    pub pid_text: String,
    pub handle: CgroupHandle,
}

impl CgroupV2NftablesBackend {
    /// The backend rooted at this program's group.
    pub fn new() -> (r: Result<Self, ()>)
        ensures
            r matches Ok(b) && b.base_path@ == spec_join(CGROUP_V2_BASE@, CHADTHROTTLE_CGROUP@),
    {
        Ok(CgroupV2NftablesBackend { base_path: join_path(CGROUP_V2_BASE, CHADTHROTTLE_CGROUP) })
    }

    /// Directory of a cgroup of this program.
    pub fn get_cgroup_path(&self, name: &str) -> (r: String)
        ensures
            r@ == spec_join(self.base_path@, name@),
    {
        join_path(self.base_path.as_str(), name)
    }

    /// Path of a cgroup relative to the hierarchy root, `chadthrottle/<name>`.
    pub fn get_relative_path(&self, name: &str) -> (r: String)
        ensures
            r@ == spec_join(CHADTHROTTLE_CGROUP@, name@),
    {
        join_path(CHADTHROTTLE_CGROUP, name)
    }

    /// What to create for a process: the directory `pid_<pid>` and its process.
    pub fn create_cgroup(&self, pid: i32, name: &str) -> (r: CgroupV2Setup)
        ensures
            r.cgroup_path@ == spec_join(self.base_path@, "pid_"@ + spec_int_text(pid as int)),
            r.pid_text@ == spec_int_text(pid as int),
            r.handle.pid == pid,
            r.handle.identifier@ == spec_join(CHADTHROTTLE_CGROUP@, "pid_"@ + spec_int_text(pid as int)),
            r.handle.backend_type == CgroupBackendType::V2Nftables,
    {
        let mut cgroup_name = String::from_str("pid_");
        push_i64(&mut cgroup_name, pid as i64);
        let mut pid_text = String::new();
        push_i64(&mut pid_text, pid as i64);
        assert(pid_text@ =~= spec_int_text(pid as int));
        CgroupV2Setup {
            cgroup_path: self.get_cgroup_path(cgroup_name.as_str()),
            pid_text,
            handle: CgroupHandle {
                pid,
                identifier: self.get_relative_path(cgroup_name.as_str()),
                backend_type: CgroupBackendType::V2Nftables,
            },
        }
    }

    /// The directory of a process's cgroup, to be removed.
    pub fn remove_cgroup(&self, handle: &CgroupHandle) -> (r: String)
        ensures
            r@ == spec_join(self.base_path@, "pid_"@ + spec_int_text(handle.pid as int)),
    {
        let mut cgroup_name = String::from_str("pid_");
        push_i64(&mut cgroup_name, handle.pid as i64);
        self.get_cgroup_path(cgroup_name.as_str())
    }

    /// The handle of a cgroup directory named `pid_<pid>`; `None` for other names.
    pub fn handle_from_entry(&self, dir_name: &str) -> (r: Option<CgroupHandle>)
        ensures
            r matches Some(h) ==> dir_name@.len() >= 4 && dir_name@.subrange(0, 4) == "pid_"@
                && spec_signed(dir_name@.subrange(4, dir_name@.len() as int)) == Some(h.pid as int)
                && h.identifier@ == spec_join(CHADTHROTTLE_CGROUP@, dir_name@) && h.backend_type
                == CgroupBackendType::V2Nftables,
            r is None ==> !(dir_name@.len() >= 4 && dir_name@.subrange(0, 4) == "pid_"@ && (
            spec_signed(dir_name@.subrange(4, dir_name@.len() as int)) matches Some(p)
                && i32::MIN <= p <= i32::MAX)),
    {
        proof {
            reveal_strlit("pid_");
        }
        match strip_prefix(dir_name, "pid_") {
            Some(rest) => match parse_i32(rest.as_str()) {
                Some(pid) => Some(
                    CgroupHandle {
                        pid,
                        identifier: self.get_relative_path(dir_name),
                        backend_type: CgroupBackendType::V2Nftables,
                    },
                ),
                None => None,
            },
            None => None,
        }
    }
}

impl CgroupBackend for CgroupV2NftablesBackend {
    fn backend_type(&self) -> (r: CgroupBackendType)
        ensures
            r == CgroupBackendType::V2Nftables,
    {
        CgroupBackendType::V2Nftables
    }

    /// `socket cgroupv2 "<identifier>"`.
    fn get_filter_expression(&self, handle: &CgroupHandle) -> (r: String)
        ensures
            r@ == "socket cgroupv2 \""@ + handle.identifier@ + "\""@,
    {
        let mut s = concat("socket cgroupv2 \"", handle.identifier.as_str());
        s.append("\"");
        s
    }
}

/// A class id allocated to a process that had none is held by no other
/// process.
pub proof fn lemma_classid_unique(b: CgroupV1Backend, pid: i32, other: i32)
    requires
        b.spec_wf(),
        b.spec_classid_of(pid) is None,
        other != pid,
    ensures
        b.spec_classid_of(other) != Some(b.next_classid),
{
    lemma_classid_found(b.allocated_classids@, other, b.allocated_classids@.len() as int);
}

proof fn lemma_classid_prefix(s: Seq<(i32, u32)>, x: (i32, u32), q: i32, n: int)
    requires
        0 <= n <= s.len(),
    ensures
        spec_classid_in(s.push(x), q, n) == spec_classid_in(s, q, n),
    decreases n,
{
    if n > 0 {
        lemma_classid_prefix(s, x, q, n - 1);
        assert(s.push(x)[n - 1] == s[n - 1]);
    }
}

/// Recording a class id for a process that had none gives it that id when
/// asked again, and leaves every other process's class id as it was.
pub proof fn lemma_classid_kept_on_allocation(s: Seq<(i32, u32)>, pid: i32, c: u32, q: i32)
    requires
        spec_classid_in(s, pid, s.len() as int) is None,
    ensures
        spec_classid_in(s.push((pid, c)), pid, s.len() + 1int) == Some(c),
        q != pid ==> spec_classid_in(s.push((pid, c)), q, s.len() + 1int) == spec_classid_in(
            s,
            q,
            s.len() as int,
        ),
{
    lemma_classid_prefix(s, (pid, c), pid, s.len() as int);
    lemma_classid_prefix(s, (pid, c), q, s.len() as int);
    assert(s.push((pid, c))[s.len() as int] == (pid, c));
}

} // verus!
