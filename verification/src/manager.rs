//! Bookkeeping of the throttle manager: which backends are initialized,
//! which backend holds each process's upload and download throttle, the
//! names of throttled processes, and the default backends for new throttles.
//!
//! The backends themselves run outside this module; the manager says which
//! backend to call and records what was applied.
use crate::backends::{
    download_capabilities, spec_download_kind, spec_upload_kind, upload_capabilities,
    ActiveThrottle, BackendCapabilities, BackendPriority, DownloadBackendInfo, DownloadOffer,
    UploadBackendInfo, UploadOffer, create_download_backend, create_upload_backend,
    detect_download_backends, detect_upload_backends, spec_download_list, spec_upload_list,
};
use crate::pid_map::{
    insert, lookup, remove, spec_insert, spec_lookup, spec_remove, lemma_lookup_insert,
    lemma_lookup_remove,
};
use crate::process::{ThrottleLimit, TrafficType};
use crate::text::str_eq;
use vstd::prelude::*;

verus! {

/// Errors of the throttle manager.
#[derive(Clone, Debug)]
pub enum ManagerError {
    /// The named backend is not offered, or not available.
    BackendUnavailable(String),
    /// A limit was requested but no default backend is set for it.
    NoBackendsAvailable,
}

/// Which backends to call for a new throttle, with their limits.
#[derive(Clone, Debug)]
pub struct ThrottlePlan {
    /// Upload backend and limit in bytes per second.
    pub upload: Option<(String, u64)>,
    /// Download backend and limit in bytes per second.
    pub download: Option<(String, u64)>,
}

/// Backend bookkeeping of the throttle manager.
pub struct ThrottleManager {
    /// Initialized upload backends, by name, in order of initialization.
    pub upload_backends: Vec<String>,
    /// Initialized download backends, by name, in order of initialization.
    pub download_backends: Vec<String>,
    /// Process -> upload backend holding its throttle.
    pub upload_backend_map: Vec<(i32, String)>,
    /// Process -> download backend holding its throttle.
    pub download_backend_map: Vec<(i32, String)>,
    /// Process -> name.
    pub process_names: Vec<(i32, String)>,
    /// Upload backend for new throttles.
    pub default_upload: Option<String>,
    /// Download backend for new throttles.
    pub default_download: Option<String>,
}

/// Whether a list of names holds `name`.
pub open spec fn spec_has_name(v: Seq<String>, name: Seq<char>) -> bool {
    exists|j: int| 0 <= j < v.len() && v[j]@ == name
}

pub(crate) fn has_name(v: &Vec<String>, name: &str) -> (r: bool)
    ensures
        r == spec_has_name(v@, name@),
{
    let mut i: usize = 0;
    while i < v.len()
        invariant
            i <= v@.len(),
            forall|j: int| 0 <= j < i ==> v@[j]@ != name@,
        decreases v@.len() - i,
    {
        if str_eq(v[i].as_str(), name) {
            return true;
        }
        i = i + 1;
    }
    false
}

fn clone_option(s: &Option<String>) -> (r: Option<String>)
    ensures
        r == *s,
{
    match s {
        Some(x) => Some(x.clone()),
        None => None,
    }
}

/// A copy of a list of strings.
pub fn copy_names(v: &Vec<String>) -> (r: Vec<String>)
    ensures
        r@ == v@,
{
    let mut r: Vec<String> = Vec::new();
    let mut i: usize = 0;
    while i < v.len()
        invariant
            i <= v@.len(),
            r@ == v@.take(i as int),
        decreases v@.len() - i,
    {
        r.push(v[i].clone());
        i = i + 1;
        assert(r@ =~= v@.take(i as int));
    }
    assert(v@.take(v@.len() as int) =~= v@);
    r
}

/// Names of the backends whose cleanup failed, in order.
pub open spec fn spec_failed_names(names: Seq<String>, ok: Seq<bool>) -> Seq<Seq<char>>
    decreases names.len(),
{
    if names.len() == 0 {
        Seq::empty()
    } else {
        let prev = spec_failed_names(names.drop_last(), ok);
        if ok[names.len() - 1] {
            prev
        } else {
            prev.push(names.last()@)
        }
    }
}

fn collect_failed(out: &mut Vec<String>, names: &Vec<String>, ok: &Vec<bool>)
    requires
        ok@.len() == names@.len(),
    ensures
        final(out)@.map_values(|n: String| n@) == old(out)@.map_values(|n: String| n@)
            + spec_failed_names(names@, ok@),
{
    let ghost start = old(out)@.map_values(|n: String| n@);
    let mut i: usize = 0;
    while i < names.len()
        invariant
            i <= names@.len(),
            ok@.len() == names@.len(),
            out@.map_values(|n: String| n@) == start + spec_failed_names(names@.take(i as int), ok@),
        decreases names@.len() - i,
    {
        let ghost before = out@;
        let ghost t = names@.take(i + 1);
        proof {
            assert(t.drop_last() =~= names@.take(i as int));
            assert(t.len() == i + 1);
            assert(t.last() == names@[i as int]);
        }
        if !ok[i] {
            out.push(names[i].clone());
            assert(out@.map_values(|n: String| n@) =~= before.map_values(|n: String| n@).push(
                names@[i as int]@,
            ));
        }
        i = i + 1;
        assert(out@.map_values(|n: String| n@) =~= start + spec_failed_names(t, ok@));
    }
    assert(names@.take(names@.len() as int) =~= names@);
}

/// Names of a backend list whose entries are available, in order.
pub open spec fn spec_available_names(l: Seq<(Seq<char>, BackendPriority, bool)>) -> Seq<Seq<char>>
    decreases l.len(),
{
    if l.len() == 0 {
        Seq::empty()
    } else {
        let prev = spec_available_names(l.drop_last());
        if l.last().2 {
            prev.push(l.last().0)
        } else {
            prev
        }
    }
}

/// The backend names of a process map, in order.
pub open spec fn spec_values(m: Seq<(i32, String)>) -> Seq<Seq<char>> {
    m.map_values(|e: (i32, String)| e.1@)
}

/// The first `n` names, each once, in order of first appearance.
pub open spec fn spec_distinct_in(s: Seq<Seq<char>>, n: int) -> Seq<Seq<char>>
    decreases n,
{
    if n <= 0 {
        Seq::empty()
    } else {
        let prev = spec_distinct_in(s, n - 1);
        if prev.contains(s[n - 1]) {
            prev
        } else {
            prev.push(s[n - 1])
        }
    }
}

/// Occurrences of `name` among the first `n` names.
pub open spec fn spec_count_in(s: Seq<Seq<char>>, name: Seq<char>, n: int) -> nat
    decreases n,
{
    if n <= 0 {
        0
    } else {
        spec_count_in(s, name, n - 1) + if s[n - 1] == name { 1nat } else { 0nat }
    }
}

/// The processes of the first `n` pairs of `m` held by backend `name`,
/// appended to `start` unless already there.
pub open spec fn spec_pids_in(start: Seq<i32>, m: Seq<(i32, String)>, name: Seq<char>, n: int) -> Seq<
    i32,
>
    decreases n,
{
    if n <= 0 {
        start
    } else {
        let prev = spec_pids_in(start, m, name, n - 1);
        if m[n - 1].1@ == name && !prev.contains(m[n - 1].0) {
            prev.push(m[n - 1].0)
        } else {
            prev
        }
    }
}

/// The processes of the first `n` pairs of `m` held by backend `name`, in
/// order, repeats included.
pub open spec fn spec_pids_all_in(m: Seq<(i32, String)>, name: Seq<char>, n: int) -> Seq<i32>
    decreases n,
{
    if n <= 0 {
        Seq::empty()
    } else {
        let prev = spec_pids_all_in(m, name, n - 1);
        if m[n - 1].1@ == name {
            prev.push(m[n - 1].0)
        } else {
            prev
        }
    }
}

/// Merged throttles (pid, upload limit, download limit) after the first `n`
/// reported limits: a new pid is appended, a known one gets the limit.
pub open spec fn spec_merge_in(
    start: Seq<(i32, Option<u64>, Option<u64>)>,
    limits: Seq<(i32, u64)>,
    upload: bool,
    n: int,
) -> Seq<(i32, Option<u64>, Option<u64>)>
    decreases n,
{
    if n <= 0 {
        start
    } else {
        let prev = spec_merge_in(start, limits, upload, n - 1);
        let (pid, limit) = limits[n - 1];
        match spec_merge_index(prev, pid, prev.len() as int) {
            Some(i) => prev.update(
                i,
                if upload {
                    (pid, Some(limit), prev[i].2)
                } else {
                    (pid, prev[i].1, Some(limit))
                },
            ),
            None => prev.push(
                if upload {
                    (pid, Some(limit), None)
                } else {
                    (pid, None, Some(limit))
                },
            ),
        }
    }
}

/// Index of the first of the first `n` merged throttles of `pid`.
pub open spec fn spec_merge_index(s: Seq<(i32, Option<u64>, Option<u64>)>, pid: i32, n: int) -> Option<
    int,
>
    decreases n,
{
    if n <= 0 {
        None
    } else {
        match spec_merge_index(s, pid, n - 1) {
            Some(i) => Some(i),
            None => if s[n - 1].0 == pid {
                Some(n - 1)
            } else {
                None
            },
        }
    }
}

/// The name recorded for a process, or the empty string.
pub open spec fn spec_name_or_empty(names: Seq<(i32, String)>, pid: i32) -> Seq<char> {
    match spec_lookup(names, pid) {
        Some(n) => n@,
        None => Seq::empty(),
    }
}

/// Merged throttles match the abstract list, with recorded names.
pub open spec fn spec_throttles_are(
    r: Seq<ActiveThrottle>,
    abs: Seq<(i32, Option<u64>, Option<u64>)>,
    names: Seq<(i32, String)>,
) -> bool {
    &&& r.len() == abs.len()
    &&& forall|j: int|
        0 <= j < r.len() ==> (#[trigger] r[j]).pid == abs[j].0 && r[j].upload_limit == abs[j].1
            && r[j].download_limit == abs[j].2 && r[j].process_name@ == spec_name_or_empty(
            names,
            abs[j].0,
        )
}

proof fn lemma_merge_index_stable(s: Seq<(i32, Option<u64>, Option<u64>)>, pid: i32, n: int, m: int)
    requires
        0 <= n <= m,
        spec_merge_index(s, pid, n) is Some,
    ensures
        spec_merge_index(s, pid, m) == spec_merge_index(s, pid, n),
    decreases m - n,
{
    if m > n {
        lemma_merge_index_stable(s, pid, n, m - 1);
    }
}

proof fn lemma_merge_index_bound(s: Seq<(i32, Option<u64>, Option<u64>)>, pid: i32, n: int)
    requires
        0 <= n <= s.len(),
    ensures
        spec_merge_index(s, pid, n) matches Some(i) ==> 0 <= i < n && s[i].0 == pid,
    decreases n,
{
    if n > 0 {
        lemma_merge_index_bound(s, pid, n - 1);
    }
}

fn upload_available(available: &Vec<UploadBackendInfo>, name: &str) -> (r: bool)
    ensures
        r == exists|j: int|
            0 <= j < available@.len() && available@[j].name@ == name@ && available@[j].available,
{
    let mut i: usize = 0;
    while i < available.len()
        invariant
            i <= available@.len(),
            forall|j: int| 0 <= j < i ==> !(available@[j].name@ == name@ && available@[j].available),
        decreases available@.len() - i,
    {
        if str_eq(available[i].name.as_str(), name) && available[i].available {
            return true;
        }
        i = i + 1;
    }
    false
}

fn download_available(available: &Vec<DownloadBackendInfo>, name: &str) -> (r: bool)
    ensures
        r == exists|j: int|
            0 <= j < available@.len() && available@[j].name@ == name@ && available@[j].available,
{
    let mut i: usize = 0;
    while i < available.len()
        invariant
            i <= available@.len(),
            forall|j: int| 0 <= j < i ==> !(available@[j].name@ == name@ && available@[j].available),
        decreases available@.len() - i,
    {
        if str_eq(available[i].name.as_str(), name) && available[i].available {
            return true;
        }
        i = i + 1;
    }
    false
}

proof fn lemma_merge_index_first(s: Seq<(i32, Option<u64>, Option<u64>)>, pid: i32, n: int, i: int)
    requires
        0 <= i < n <= s.len(),
        s[i].0 == pid,
        forall|j: int| 0 <= j < i ==> s[j].0 != pid,
    ensures
        spec_merge_index(s, pid, n) == Some(i),
    decreases n,
{
    if n > i + 1 {
        lemma_merge_index_first(s, pid, n - 1, i);
    } else {
        lemma_merge_index_none(s, pid, i);
    }
}

proof fn lemma_merge_index_none(s: Seq<(i32, Option<u64>, Option<u64>)>, pid: i32, n: int)
    requires
        0 <= n <= s.len(),
        forall|j: int| 0 <= j < n ==> s[j].0 != pid,
    ensures
        spec_merge_index(s, pid, n) is None,
    decreases n,
{
    if n > 0 {
        lemma_merge_index_none(s, pid, n - 1);
    }
}

fn throttle_index(v: &Vec<ActiveThrottle>, pid: i32) -> (r: Option<usize>)
    ensures
        r matches Some(i) ==> i < v@.len() && v@[i as int].pid == pid && forall|j: int|
            0 <= j < i ==> v@[j].pid != pid,
        r is None ==> forall|j: int| 0 <= j < v@.len() ==> v@[j].pid != pid,
{
    let mut i: usize = 0;
    while i < v.len()
        invariant
            i <= v@.len(),
            forall|j: int| 0 <= j < i ==> v@[j].pid != pid,
        decreases v@.len() - i,
    {
        if v[i].pid == pid {
            return Some(i);
        }
        i = i + 1;
    }
    None
}

fn merge_limits(
    out: &mut Vec<ActiveThrottle>,
    Ghost(abs): Ghost<Seq<(i32, Option<u64>, Option<u64>)>>,
    limits: &Vec<(i32, u64)>,
    upload: bool,
    names: &Vec<(i32, String)>,
)
    requires
        spec_throttles_are(old(out)@, abs, names@),
    ensures
        spec_throttles_are(
            final(out)@,
            spec_merge_in(abs, limits@, upload, limits@.len() as int),
            names@,
        ),
{
    let mut k: usize = 0;
    while k < limits.len()
        invariant
            k <= limits@.len(),
            spec_throttles_are(out@, spec_merge_in(abs, limits@, upload, k as int), names@),
        decreases limits@.len() - k,
    {
        let (pid, limit) = limits[k];
        let ghost cur = spec_merge_in(abs, limits@, upload, k as int);
        let found = throttle_index(out, pid);
        proof {
            assert forall|j: int| 0 <= j < out@.len() implies #[trigger] cur[j].0 == out@[j].pid by {
                assert(out@[j].pid == cur[j].0);
            }
            match found {
                Some(i) => lemma_merge_index_first(cur, pid, cur.len() as int, i as int),
                None => lemma_merge_index_none(cur, pid, cur.len() as int),
            }
        }
        match found {
            Some(i) => {
                let t = &out[i];
                let updated = ActiveThrottle {
                    pid: t.pid,
                    process_name: t.process_name.clone(),
                    upload_limit: if upload { Some(limit) } else { t.upload_limit },
                    download_limit: if upload { t.download_limit } else { Some(limit) },
                };
                out.set(i, updated);
            },
            None => {
                let process_name = match lookup(names, pid) {
                    Some(n) => n,
                    None => String::new(),
                };
                out.push(
                    ActiveThrottle {
                        pid,
                        process_name,
                        upload_limit: if upload { Some(limit) } else { None },
                        download_limit: if upload { None } else { Some(limit) },
                    },
                );
            },
        }
        k = k + 1;
    }
}

/// Everything shown about backends.
#[derive(Clone, Debug)]
pub struct BackendInfo {
    pub active_upload: Option<String>,
    pub active_download: Option<String>,
    pub active_monitoring: Option<String>,
    pub active_socket_mapper: Option<String>,
    pub available_upload: Vec<UploadBackendInfo>,
    pub available_download: Vec<DownloadBackendInfo>,
    pub available_socket_mappers: Vec<crate::socket_mapper::SocketMapperInfo>,
    pub preferred_upload: Option<String>,
    pub preferred_download: Option<String>,
    pub preferred_socket_mapper: Option<String>,
    pub upload_capabilities: Option<BackendCapabilities>,
    pub download_capabilities: Option<BackendCapabilities>,
    pub socket_mapper_capabilities: Option<BackendCapabilities>,
    /// Backend name -> number of throttles it holds.
    pub backend_stats: Vec<(String, usize)>,
}

impl ThrottleManager {
    /// A manager whose initial backends (given by name) are initialized and
    /// are the defaults for new throttles.
    pub fn new(upload_backend: Option<String>, download_backend: Option<String>) -> (r: Self)
        ensures
            r.default_upload == upload_backend,
            r.default_download == download_backend,
            r.upload_backends@ == (match upload_backend {
                Some(n) => seq![n],
                None => Seq::empty(),
            }),
            r.download_backends@ == (match download_backend {
                Some(n) => seq![n],
                None => Seq::empty(),
            }),
            r.upload_backend_map@.len() == 0,
            r.download_backend_map@.len() == 0,
            r.process_names@.len() == 0,
    {
        let mut upload_backends: Vec<String> = Vec::new();
        let mut download_backends: Vec<String> = Vec::new();
        let default_upload = match upload_backend {
            Some(name) => {
                upload_backends.push(name.clone());
                Some(name)
            },
            None => None,
        };
        let default_download = match download_backend {
            Some(name) => {
                download_backends.push(name.clone());
                Some(name)
            },
            None => None,
        };
        proof {
            assert(upload_backends@ =~= (match upload_backend {
                Some(n) => seq![n],
                None => Seq::empty(),
            }));
            assert(download_backends@ =~= (match download_backend {
                Some(n) => seq![n],
                None => Seq::empty(),
            }));
        }
        ThrottleManager {
            upload_backends,
            download_backends,
            upload_backend_map: Vec::new(),
            download_backend_map: Vec::new(),
            process_names: Vec::new(),
            default_upload,
            default_download,
        }
    }

    /// The default backends for new throttles (upload, download).
    pub fn backend_names(&self) -> (r: (Option<String>, Option<String>))
        ensures
            r == (self.default_upload, self.default_download),
    {
        (clone_option(&self.default_upload), clone_option(&self.default_download))
    }

    /// The default backends for new throttles (upload, download).
    pub fn get_default_backends(&self) -> (r: (Option<String>, Option<String>))
        ensures
            r == (self.default_upload, self.default_download),
    {
        self.backend_names()
    }

    /// Make an available upload backend the default for new throttles.
    pub fn set_default_upload_backend(&mut self, name: &str, available: &Vec<UploadBackendInfo>) -> (r:
        Result<(), ManagerError>)
        ensures
            r is Ok <==> exists|j: int|
                0 <= j < available@.len() && available@[j].name@ == name@ && available@[j].available,
            r is Ok ==> (final(self).default_upload matches Some(n) && n@ == name@),
            r matches Err(e) ==> e matches ManagerError::BackendUnavailable(n) && n@ == name@
                && final(self).default_upload == old(self).default_upload,
            final(self).default_download == old(self).default_download,
            final(self).upload_backends == old(self).upload_backends,
            final(self).download_backends == old(self).download_backends,
            final(self).upload_backend_map == old(self).upload_backend_map,
            final(self).download_backend_map == old(self).download_backend_map,
            final(self).process_names == old(self).process_names,
    {
        if upload_available(available, name) {
            self.default_upload = Some(String::from_str(name));
            Ok(())
        } else {
            Err(ManagerError::BackendUnavailable(String::from_str(name)))
        }
    }

    /// Make an available download backend the default for new throttles.
    pub fn set_default_download_backend(&mut self, name: &str, available: &Vec<DownloadBackendInfo>) -> (r:
        Result<(), ManagerError>)
        ensures
            r is Ok <==> exists|j: int|
                0 <= j < available@.len() && available@[j].name@ == name@ && available@[j].available,
            r is Ok ==> (final(self).default_download matches Some(n) && n@ == name@),
            r matches Err(e) ==> e matches ManagerError::BackendUnavailable(n) && n@ == name@
                && final(self).default_download == old(self).default_download,
            final(self).default_upload == old(self).default_upload,
            final(self).upload_backends == old(self).upload_backends,
            final(self).download_backends == old(self).download_backends,
            final(self).upload_backend_map == old(self).upload_backend_map,
            final(self).download_backend_map == old(self).download_backend_map,
            final(self).process_names == old(self).process_names,
    {
        if download_available(available, name) {
            self.default_download = Some(String::from_str(name));
            Ok(())
        } else {
            Err(ManagerError::BackendUnavailable(String::from_str(name)))
        }
    }

    /// Whether the named upload backend still has to be created and initialized.
    pub fn needs_upload_backend(&self, name: &str) -> (r: bool)
        ensures
            r == !spec_has_name(self.upload_backends@, name@),
    {
        !has_name(&self.upload_backends, name)
    }

    /// Whether the named download backend still has to be created and initialized.
    pub fn needs_download_backend(&self, name: &str) -> (r: bool)
        ensures
            r == !spec_has_name(self.download_backends@, name@),
    {
        !has_name(&self.download_backends, name)
    }

    /// Record that the named upload backend was created and initialized.
    pub fn add_upload_backend(&mut self, name: String)
        ensures
            final(self).upload_backends@ == (if spec_has_name(old(self).upload_backends@, name@) {
                old(self).upload_backends@
            } else {
                old(self).upload_backends@.push(name)
            }),
            final(self).download_backends == old(self).download_backends,
            final(self).upload_backend_map == old(self).upload_backend_map,
            final(self).download_backend_map == old(self).download_backend_map,
            final(self).process_names == old(self).process_names,
            final(self).default_upload == old(self).default_upload,
            final(self).default_download == old(self).default_download,
    {
        if !has_name(&self.upload_backends, name.as_str()) {
            self.upload_backends.push(name);
        }
    }

    /// Record that the named download backend was created and initialized.
    pub fn add_download_backend(&mut self, name: String)
        ensures
            final(self).download_backends@ == (if spec_has_name(
                old(self).download_backends@,
                name@,
            ) {
                old(self).download_backends@
            } else {
                old(self).download_backends@.push(name)
            }),
            final(self).upload_backends == old(self).upload_backends,
            final(self).upload_backend_map == old(self).upload_backend_map,
            final(self).download_backend_map == old(self).download_backend_map,
            final(self).process_names == old(self).process_names,
            final(self).default_upload == old(self).default_upload,
            final(self).default_download == old(self).default_download,
    {
        if !has_name(&self.download_backends, name.as_str()) {
            self.download_backends.push(name);
        }
    }

    /// The per-backend throttle counts `r` of this manager: each backend
    /// holding throttles once, in order of first appearance (uploads first),
    /// with how many throttles it holds.
    pub open spec fn spec_backend_stats_are(&self, r: Seq<(String, usize)>) -> bool {
        let all = spec_values(self.upload_backend_map@) + spec_values(self.download_backend_map@);
        let d = spec_distinct_in(all, all.len() as int);
        &&& r.len() == d.len()
        &&& forall|j: int|
            0 <= j < r.len() ==> (#[trigger] r[j]).0@ == d[j] && r[j].1 == spec_count_in(
                all,
                d[j],
                all.len() as int,
            )
    }

    /// Backend name -> number of throttles it holds, upload and download
    /// together, names in order of first appearance (uploads first).
    pub fn get_active_backend_stats(&self) -> (r: Vec<(String, usize)>)
        ensures
            self.spec_backend_stats_are(r@),
    {
        let mut all: Vec<String> = Vec::new();
        let ghost up = spec_values(self.upload_backend_map@);
        let ghost down = spec_values(self.download_backend_map@);
        let mut i: usize = 0;
        while i < self.upload_backend_map.len()
            invariant
                i <= self.upload_backend_map@.len(),
                all@.len() == i,
                forall|j: int| 0 <= j < i ==> (#[trigger] all@[j])@ == self.upload_backend_map@[j].1@,
            decreases self.upload_backend_map@.len() - i,
        {
            all.push(self.upload_backend_map[i].1.clone());
            i = i + 1;
        }
        let mut i: usize = 0;
        while i < self.download_backend_map.len()
            invariant
                i <= self.download_backend_map@.len(),
                all@.len() == self.upload_backend_map@.len() + i,
                forall|j: int|
                    0 <= j < self.upload_backend_map@.len() ==> (#[trigger] all@[j])@
                        == self.upload_backend_map@[j].1@,
                forall|j: int|
                    self.upload_backend_map@.len() <= j < all@.len() ==> (#[trigger] all@[j])@
                        == self.download_backend_map@[j - self.upload_backend_map@.len()].1@,
            decreases self.download_backend_map@.len() - i,
        {
            all.push(self.download_backend_map[i].1.clone());
            i = i + 1;
        }
        let ghost views = all@.map_values(|s: String| s@);
        assert forall|j: int| 0 <= j < views.len() implies #[trigger] views[j] == (up + down)[j] by {
            if j < up.len() {
                assert(views[j] == all@[j]@);
            } else {
                assert(views[j] == all@[j]@);
            }
        }
        assert(views =~= up + down);
        let mut names: Vec<String> = Vec::new();
        let mut i: usize = 0;
        while i < all.len()
            invariant
                i <= all@.len(),
                views == all@.map_values(|s: String| s@),
                names@.len() == spec_distinct_in(views, i as int).len(),
                forall|j: int|
                    0 <= j < names@.len() ==> (#[trigger] names@[j])@ == spec_distinct_in(
                        views,
                        i as int,
                    )[j],
            decreases all@.len() - i,
        {
            let seen = has_name(&names, all[i].as_str());
            proof {
                let d = spec_distinct_in(views, i as int);
                if seen {
                    let j = choose|j: int| 0 <= j < names@.len() && names@[j]@ == all@[i as int]@;
                    assert(d[j] == views[i as int]);
                } else {
                    if d.contains(views[i as int]) {
                        let j = choose|j: int| 0 <= j < d.len() && d[j] == views[i as int];
                        assert(names@[j]@ == views[i as int]);
                    }
                }
            }
            if !seen {
                names.push(all[i].clone());
            }
            i = i + 1;
        }
        let mut r: Vec<(String, usize)> = Vec::new();
        let mut k: usize = 0;
        while k < names.len()
            invariant
                k <= names@.len(),
                views == all@.map_values(|s: String| s@),
                r@.len() == k,
                forall|j: int|
                    0 <= j < k ==> (#[trigger] r@[j]).0@ == names@[j]@ && r@[j].1 == spec_count_in(
                        views,
                        names@[j]@,
                        views.len() as int,
                    ),
            decreases names@.len() - k,
        {
            let mut count: usize = 0;
            let mut i: usize = 0;
            while i < all.len()
                invariant
                    i <= all@.len(),
                    k < names@.len(),
                    views == all@.map_values(|s: String| s@),
                    count == spec_count_in(views, names@[k as int]@, i as int),
                    count <= i,
                decreases all@.len() - i,
            {
                if str_eq(all[i].as_str(), names[k].as_str()) {
                    count = count + 1;
                }
                i = i + 1;
            }
            r.push((names[k].clone(), count));
            k = k + 1;
        }
        r
    }

    /// The processes throttled by the named backend: upload throttles in
    /// order, then download throttles not already listed.
    pub fn get_pids_for_backend(&self, backend_name: &str) -> (r: Vec<i32>)
        ensures
            r@ == spec_pids_in(
                spec_pids_all_in(
                    self.upload_backend_map@,
                    backend_name@,
                    self.upload_backend_map@.len() as int,
                ),
                self.download_backend_map@,
                backend_name@,
                self.download_backend_map@.len() as int,
            ),
    {
        let mut pids: Vec<i32> = Vec::new();
        let mut i: usize = 0;
        while i < self.upload_backend_map.len()
            invariant
                i <= self.upload_backend_map@.len(),
                pids@ == spec_pids_all_in(self.upload_backend_map@, backend_name@, i as int),
            decreases self.upload_backend_map@.len() - i,
        {
            if str_eq(self.upload_backend_map[i].1.as_str(), backend_name) {
                pids.push(self.upload_backend_map[i].0);
            }
            i = i + 1;
        }
        let ghost start = pids@;
        let mut i: usize = 0;
        while i < self.download_backend_map.len()
            invariant
                i <= self.download_backend_map@.len(),
                pids@ == spec_pids_in(start, self.download_backend_map@, backend_name@, i as int),
            decreases self.download_backend_map@.len() - i,
        {
            let pid = self.download_backend_map[i].0;
            if str_eq(self.download_backend_map[i].1.as_str(), backend_name) {
                let mut present = false;
                let mut j: usize = 0;
                while j < pids.len()
                    invariant
                        j <= pids@.len(),
                        present == (exists|q: int| 0 <= q < j && pids@[q] == pid),
                    decreases pids@.len() - j,
                {
                    if pids[j] == pid {
                        present = true;
                    }
                    j = j + 1;
                }
                proof {
                    if pids@.contains(pid) {
                        let q = choose|q: int| 0 <= q < pids@.len() && pids@[q] == pid;
                        assert(present);
                    }
                }
                if !present {
                    pids.push(pid);
                }
            }
            i = i + 1;
        }
        pids
    }

    /// The download backend holding a process's throttle, whose diagnostics
    /// are logged for it.
    pub fn log_ebpf_stats(&self, pid: i32) -> (r: Option<String>)
        ensures
            r == spec_lookup(self.download_backend_map@, pid),
    {
        lookup(&self.download_backend_map, pid)
    }

    /// Start throttling a process: record its name and say which default
    /// backends to call with which limits. Fails when a limit is requested
    /// but no requested direction has a default backend.
    pub fn throttle_process(&mut self, pid: i32, process_name: String, limit: &ThrottleLimit) -> (r:
        Result<ThrottlePlan, ManagerError>)
        ensures
            final(self).process_names@ == spec_insert(old(self).process_names@, pid, process_name),
            final(self).upload_backends == old(self).upload_backends,
            final(self).download_backends == old(self).download_backends,
            final(self).upload_backend_map == old(self).upload_backend_map,
            final(self).download_backend_map == old(self).download_backend_map,
            final(self).default_upload == old(self).default_upload,
            final(self).default_download == old(self).default_download,
            ({
                let up = match (limit.upload_limit, old(self).default_upload) {
                    (Some(l), Some(b)) => Some((b, l)),
                    _ => None,
                };
                let down = match (limit.download_limit, old(self).default_download) {
                    (Some(l), Some(b)) => Some((b, l)),
                    _ => None,
                };
                if up is None && down is None && (limit.upload_limit is Some
                    || limit.download_limit is Some) {
                    r matches Err(ManagerError::NoBackendsAvailable)
                } else {
                    r matches Ok(plan) && plan.upload == up && plan.download == down
                }
            }),
    {
        insert(&mut self.process_names, pid, process_name);
        let upload = match (limit.upload_limit, &self.default_upload) {
            (Some(l), Some(b)) => Some((b.clone(), l)),
            _ => None,
        };
        let download = match (limit.download_limit, &self.default_download) {
            (Some(l), Some(b)) => Some((b.clone(), l)),
            _ => None,
        };
        if upload.is_none() && download.is_none() && (limit.upload_limit.is_some()
            || limit.download_limit.is_some()) {
            return Err(ManagerError::NoBackendsAvailable);
        }
        Ok(ThrottlePlan { upload, download })
    }

    /// Record that the named upload backend now holds the process's throttle.
    pub fn record_upload_throttle(&mut self, pid: i32, backend: String)
        ensures
            final(self).upload_backend_map@ == spec_insert(old(self).upload_backend_map@, pid, backend),
            final(self).upload_backends == old(self).upload_backends,
            final(self).download_backends == old(self).download_backends,
            final(self).download_backend_map == old(self).download_backend_map,
            final(self).process_names == old(self).process_names,
            final(self).default_upload == old(self).default_upload,
            final(self).default_download == old(self).default_download,
    {
        insert(&mut self.upload_backend_map, pid, backend);
    }

    /// Record that the named download backend now holds the process's throttle.
    pub fn record_download_throttle(&mut self, pid: i32, backend: String)
        ensures
            final(self).download_backend_map@ == spec_insert(
                old(self).download_backend_map@,
                pid,
                backend,
            ),
            final(self).upload_backends == old(self).upload_backends,
            final(self).download_backends == old(self).download_backends,
            final(self).upload_backend_map == old(self).upload_backend_map,
            final(self).process_names == old(self).process_names,
            final(self).default_upload == old(self).default_upload,
            final(self).default_download == old(self).default_download,
    {
        insert(&mut self.download_backend_map, pid, backend);
    }

    /// Forget every throttle of a process, returning the upload and download
    /// backends whose throttle must be removed.
    pub fn remove_throttle(&mut self, pid: i32) -> (r: (Option<String>, Option<String>))
        ensures
            r.0 == spec_lookup(old(self).upload_backend_map@, pid),
            r.1 == spec_lookup(old(self).download_backend_map@, pid),
            final(self).upload_backend_map@ == spec_remove(old(self).upload_backend_map@, pid),
            final(self).download_backend_map@ == spec_remove(old(self).download_backend_map@, pid),
            final(self).process_names@ == spec_remove(old(self).process_names@, pid),
            final(self).upload_backends == old(self).upload_backends,
            final(self).download_backends == old(self).download_backends,
            final(self).default_upload == old(self).default_upload,
            final(self).default_download == old(self).default_download,
    {
        let up = remove(&mut self.upload_backend_map, pid);
        let down = remove(&mut self.download_backend_map, pid);
        remove(&mut self.process_names, pid);
        (up, down)
    }

    /// The backends to ask for a process's limits (upload, download).
    pub fn throttle_backends(&self, pid: i32) -> (r: (Option<String>, Option<String>))
        ensures
            r.0 == spec_lookup(self.upload_backend_map@, pid),
            r.1 == spec_lookup(self.download_backend_map@, pid),
    {
        (lookup(&self.upload_backend_map, pid), lookup(&self.download_backend_map, pid))
    }

    /// The throttle of a process given the limits its backends report: none
    /// when neither reports one.
    pub fn get_throttle(&self, pid: i32, upload_limit: Option<u64>, download_limit: Option<u64>) -> (r:
        Option<ActiveThrottle>)
        ensures
            upload_limit is None && download_limit is None ==> r is None,
            upload_limit is Some || download_limit is Some ==> (r matches Some(t) && t.pid == pid
                && t.upload_limit == upload_limit && t.download_limit == download_limit
                && t.process_name@ == spec_name_or_empty(self.process_names@, pid)),
    {
        if upload_limit.is_some() || download_limit.is_some() {
            let process_name = match lookup(&self.process_names, pid) {
                Some(n) => n,
                None => String::new(),
            };
            Some(ActiveThrottle { pid, process_name, upload_limit, download_limit })
        } else {
            None
        }
    }

    /// Whether new download throttles have a backend.
    pub fn is_download_throttling_available(&self) -> (r: bool)
        ensures
            r == self.default_download is Some,
    {
        self.default_download.is_some()
    }

    /// All throttles, merged from the limits the backends report: uploads
    /// first, then downloads; one entry per process in order of first report.
    pub fn get_all_throttles(&self, uploads: &Vec<(i32, u64)>, downloads: &Vec<(i32, u64)>) -> (r: Vec<
        ActiveThrottle,
    >)
        ensures
            spec_throttles_are(
                r@,
                spec_merge_in(
                    spec_merge_in(Seq::empty(), uploads@, true, uploads@.len() as int),
                    downloads@,
                    false,
                    downloads@.len() as int,
                ),
                self.process_names@,
            ),
    {
        let mut out: Vec<ActiveThrottle> = Vec::new();
        let ghost a0 = Seq::<(i32, Option<u64>, Option<u64>)>::empty();
        merge_limits(&mut out, Ghost(a0), uploads, true, &self.process_names);
        let ghost a1 = spec_merge_in(a0, uploads@, true, uploads@.len() as int);
        merge_limits(&mut out, Ghost(a1), downloads, false, &self.process_names);
        out
    }

    /// The initialized backends to clean up (upload, download).
    pub fn cleanup(&self) -> (r: (Vec<String>, Vec<String>))
        ensures
            r.0@ == self.upload_backends@,
            r.1@ == self.download_backends@,
    {
        (copy_names(&self.upload_backends), copy_names(&self.download_backends))
    }

    /// How cleanup ended, given whether each initialized backend's own
    /// cleanup succeeded (uploads, then downloads, in the order of `cleanup`):
    /// an error naming every backend that failed, uploads first.
    pub fn cleanup_result(&self, upload_ok: &Vec<bool>, download_ok: &Vec<bool>) -> (r: Result<
        (),
        Vec<String>,
    >)
        requires
            upload_ok@.len() == self.upload_backends@.len(),
            download_ok@.len() == self.download_backends@.len(),
        ensures
            ({
                let f = spec_failed_names(self.upload_backends@, upload_ok@) + spec_failed_names(
                    self.download_backends@,
                    download_ok@,
                );
                if f.len() == 0 {
                    r is Ok
                } else {
                    r matches Err(v) && v@.map_values(|n: String| n@) == f
                }
            }),
    {
        let mut failed: Vec<String> = Vec::new();
        collect_failed(&mut failed, &self.upload_backends, upload_ok);
        collect_failed(&mut failed, &self.download_backends, download_ok);
        if failed.len() == 0 {
            Ok(())
        } else {
            Err(failed)
        }
    }

    /// Whether the default upload backend is initialized and supports the
    /// traffic type; every backend supports all traffic only.
    pub fn current_upload_backend_supports(&self, traffic_type: TrafficType) -> (r: bool)
        ensures
            r == (self.default_upload matches Some(b) && spec_has_name(self.upload_backends@, b@)
                && traffic_type == TrafficType::All),
    {
        match &self.default_upload {
            Some(b) => has_name(&self.upload_backends, b.as_str()) && traffic_type
                == TrafficType::All,
            None => false,
        }
    }

    /// Whether the default download backend is initialized and supports the
    /// traffic type; every backend supports all traffic only.
    pub fn current_download_backend_supports(&self, traffic_type: TrafficType) -> (r: bool)
        ensures
            r == (self.default_download matches Some(b) && spec_has_name(self.download_backends@, b@)
                && traffic_type == TrafficType::All),
    {
        match &self.default_download {
            Some(b) => has_name(&self.download_backends, b.as_str()) && traffic_type
                == TrafficType::All,
            None => false,
        }
    }

    /// Every available detected upload backend supporting the traffic type,
    /// in detection order; every backend supports all traffic only.
    pub fn find_compatible_upload_backends(&self, traffic_type: TrafficType, offer: &UploadOffer) -> (r:
        Vec<String>)
        ensures
            r@.map_values(|n: String| n@) == (if traffic_type == TrafficType::All {
                spec_available_names(spec_upload_list(*offer))
            } else {
                Seq::empty()
            }),
    {
        if traffic_type != TrafficType::All {
            let r: Vec<String> = Vec::new();
            assert(r@.map_values(|n: String| n@) =~= Seq::<Seq<char>>::empty());
            return r;
        }
        let l = detect_upload_backends(offer);
        let ghost sl = spec_upload_list(*offer);
        let mut out: Vec<String> = Vec::new();
        let mut i: usize = 0;
        while i < l.len()
            invariant
                i <= l@.len(),
                crate::backends::spec_upload_infos_are(l@, sl),
                out@.map_values(|n: String| n@) == spec_available_names(sl.take(i as int)),
            decreases l@.len() - i,
        {
            proof {
                assert(sl.take(i + 1).drop_last() =~= sl.take(i as int));
            }
            if l[i].available {
                out.push(l[i].name.clone());
            }
            i = i + 1;
            assert(out@.map_values(|n: String| n@) =~= spec_available_names(sl.take(i as int)));
        }
        assert(sl.take(l@.len() as int) =~= sl);
        out
    }

    /// Every available detected download backend supporting the traffic
    /// type, in detection order; every backend supports all traffic only.
    pub fn find_compatible_download_backends(&self, traffic_type: TrafficType, offer: &DownloadOffer) -> (r:
        Vec<String>)
        ensures
            r@.map_values(|n: String| n@) == (if traffic_type == TrafficType::All {
                spec_available_names(spec_download_list(*offer))
            } else {
                Seq::empty()
            }),
    {
        if traffic_type != TrafficType::All {
            let r: Vec<String> = Vec::new();
            assert(r@.map_values(|n: String| n@) =~= Seq::<Seq<char>>::empty());
            return r;
        }
        let l = detect_download_backends(offer);
        let ghost sl = spec_download_list(*offer);
        let mut out: Vec<String> = Vec::new();
        let mut i: usize = 0;
        while i < l.len()
            invariant
                i <= l@.len(),
                crate::backends::spec_download_infos_are(l@, sl),
                out@.map_values(|n: String| n@) == spec_available_names(sl.take(i as int)),
            decreases l@.len() - i,
        {
            proof {
                assert(sl.take(i + 1).drop_last() =~= sl.take(i as int));
            }
            if l[i].available {
                out.push(l[i].name.clone());
            }
            i = i + 1;
            assert(out@.map_values(|n: String| n@) =~= spec_available_names(sl.take(i as int)));
        }
        assert(sl.take(l@.len() as int) =~= sl);
        out
    }

    /// Backend information for display: defaults, offered backends,
    /// preferences, capabilities of initialized defaults, throttle counts.
    /// Monitoring and socket mapper fields are left for the caller.
    pub fn get_backend_info(
        &self,
        preferred_upload: Option<String>,
        preferred_download: Option<String>,
        upload_offer: &UploadOffer,
        download_offer: &DownloadOffer,
    ) -> (r: BackendInfo)
        ensures
            r.active_upload == self.default_upload,
            r.active_download == self.default_download,
            r.active_monitoring is None,
            r.active_socket_mapper is None,
            crate::backends::spec_upload_infos_are(
                r.available_upload@,
                crate::backends::spec_upload_list(*upload_offer),
            ),
            crate::backends::spec_download_infos_are(
                r.available_download@,
                crate::backends::spec_download_list(*download_offer),
            ),
            r.available_socket_mappers@.len() == 0,
            r.preferred_upload == preferred_upload,
            r.preferred_download == preferred_download,
            r.preferred_socket_mapper is None,
            r.socket_mapper_capabilities is None,
            self.spec_backend_stats_are(r.backend_stats@),
            r.upload_capabilities is Some ==> (self.default_upload matches Some(b) && spec_has_name(
                self.upload_backends@,
                b@,
            )),
            (self.default_upload matches Some(b) && spec_has_name(self.upload_backends@, b@)
                && spec_upload_kind(b@, *upload_offer) is Some) ==> r.upload_capabilities is Some,
            r.download_capabilities is Some ==> (self.default_download matches Some(b)
                && spec_has_name(self.download_backends@, b@)),
            (self.default_download matches Some(b) && spec_has_name(self.download_backends@, b@)
                && spec_download_kind(b@, *download_offer) is Some) ==> r.download_capabilities is Some,
    {
        let upload_capabilities = match &self.default_upload {
            Some(b) => if has_name(&self.upload_backends, b.as_str()) {
                match create_upload_backend(b.as_str(), upload_offer) {
                    Ok(kind) => Some(upload_capabilities(kind)),
                    Err(_) => None,
                }
            } else {
                None
            },
            None => None,
        };
        let download_capabilities = match &self.default_download {
            Some(b) => if has_name(&self.download_backends, b.as_str()) {
                match create_download_backend(b.as_str(), download_offer) {
                    Ok(kind) => Some(download_capabilities(kind)),
                    Err(_) => None,
                }
            } else {
                None
            },
            None => None,
        };
        BackendInfo {
            active_upload: clone_option(&self.default_upload),
            active_download: clone_option(&self.default_download),
            active_monitoring: None,
            active_socket_mapper: None,
            available_upload: detect_upload_backends(upload_offer),
            available_download: detect_download_backends(download_offer),
            available_socket_mappers: Vec::new(),
            preferred_upload,
            preferred_download,
            preferred_socket_mapper: None,
            upload_capabilities,
            download_capabilities,
            socket_mapper_capabilities: None,
            backend_stats: self.get_active_backend_stats(),
        }
    }
}

/// A throttle recorded for a process is found again under its backend, and
/// the recording leaves other processes' backends as they were.
pub proof fn lemma_recorded_throttle_found(m: ThrottleManager, pid: i32, backend: String, other: i32)
    ensures
        spec_lookup(spec_insert(m.upload_backend_map@, pid, backend), pid) == Some(backend),
        spec_lookup(spec_insert(m.download_backend_map@, pid, backend), pid) == Some(backend),
        other != pid ==> spec_lookup(spec_insert(m.upload_backend_map@, pid, backend), other)
            == spec_lookup(m.upload_backend_map@, other),
        other != pid ==> spec_lookup(spec_insert(m.download_backend_map@, pid, backend), other)
            == spec_lookup(m.download_backend_map@, other),
{
    lemma_lookup_insert(m.upload_backend_map@, pid, backend, other);
    lemma_lookup_insert(m.download_backend_map@, pid, backend, other);
}

/// After a process's throttles are removed, no backend holds a throttle for
/// it and its name is forgotten.
pub proof fn lemma_removed_throttle_gone(m: ThrottleManager, pid: i32)
    ensures
        spec_lookup(spec_remove(m.upload_backend_map@, pid), pid) is None,
        spec_lookup(spec_remove(m.download_backend_map@, pid), pid) is None,
        spec_lookup(spec_remove(m.process_names@, pid), pid) is None,
{
    lemma_lookup_remove(m.upload_backend_map@, pid);
    lemma_lookup_remove(m.download_backend_map@, pid);
    lemma_lookup_remove(m.process_names@, pid);
}

} // verus!
