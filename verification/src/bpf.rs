//! Settings and checks of the cgroup packet filters: how programs are
//! attached, which cgroup a process is in, whether the kernel is recent
//! enough, and when a failed attach is retried the legacy way.
use crate::parse::{parse_u32, spec_char_is_whitespace, spec_unsigned};
use crate::text::{
    before_first, contains, lines, spec_before_first, spec_contains, spec_lines, str_eq,
};
use std::time::{Duration, SystemTime, UNIX_EPOCH};
use vstd::prelude::*;

verus! {

/// How filter programs are attached to cgroups.
#[derive(Clone, Copy, Debug, PartialEq, Eq, Structural)]
pub enum BpfAttachMethod {
    /// Links first, the legacy call when links are refused as invalid.
    Auto,
    /// Links only.
    Link,
    /// The legacy attach call only.
    Legacy,
}

/// `s` in lowercase, as `str::to_lowercase` gives it.
pub uninterp spec fn spec_to_lowercase(s: Seq<char>) -> Seq<char>;

/// `s` in lowercase.
///
/// Trusted: calls `str::to_lowercase`, which maps each character to its
/// Unicode lowercase; the result depends on the text alone.
#[verifier::external_body]
fn to_lowercase(s: &str) -> (r: String)
    ensures
        r@ == spec_to_lowercase(s@),
{
    s.to_lowercase()
}

impl BpfAttachMethod {
    /// The method a name gives, case-insensitively: `link`, `legacy`, or
    /// automatic for anything else.
    pub fn from_str(s: &str) -> (r: Self)
        ensures
            r == (if spec_to_lowercase(s@) == "link"@ {
                BpfAttachMethod::Link
            } else if spec_to_lowercase(s@) == "legacy"@ {
                BpfAttachMethod::Legacy
            } else {
                BpfAttachMethod::Auto
            }),
    {
        let lower = to_lowercase(s);
        if str_eq(lower.as_str(), "link") {
            BpfAttachMethod::Link
        } else if str_eq(lower.as_str(), "legacy") {
            BpfAttachMethod::Legacy
        } else {
            BpfAttachMethod::Auto
        }
    }

    /// The method to use: the argument's when given; else legacy when the
    /// legacy-attach variable is set; else the method variable's; else automatic.
    pub fn from_env_and_arg(arg: Option<&str>, legacy_env_set: bool, method_env: Option<&str>) -> (r:
        Self)
        ensures
            match arg {
                Some(a) => r == BpfAttachMethod::from_str_spec(a@),
                None => if legacy_env_set {
                    r == BpfAttachMethod::Legacy
                } else {
                    match method_env {
                        Some(m) => r == BpfAttachMethod::from_str_spec(m@),
                        None => r == BpfAttachMethod::Auto,
                    }
                },
            },
    {
        if let Some(method) = arg {
            return Self::from_str(method);
        }
        if legacy_env_set {
            return BpfAttachMethod::Legacy;
        }
        if let Some(method) = method_env {
            return Self::from_str(method);
        }
        BpfAttachMethod::Auto
    }

    /// The method a name gives.
    pub open spec fn from_str_spec(s: Seq<char>) -> Self {
        if spec_to_lowercase(s) == "link"@ {
            BpfAttachMethod::Link
        } else if spec_to_lowercase(s) == "legacy"@ {
            BpfAttachMethod::Legacy
        } else {
            BpfAttachMethod::Auto
        }
    }
}

/// Filter settings.
#[derive(Clone, Copy, Debug, PartialEq, Eq, Structural)]
pub struct BpfConfig {
    pub attach_method: BpfAttachMethod,
}

impl BpfConfig {
    pub fn new(attach_method: BpfAttachMethod) -> (r: Self)
        ensures
            r.attach_method == attach_method,
    {
        BpfConfig { attach_method }
    }
}

/// Set the filter settings once: a later setting is ignored.
pub fn init_bpf_config(cell: &mut Option<BpfConfig>, config: BpfConfig)
    ensures
        *final(cell) == (match *old(cell) {
            Some(c) => Some(c),
            None => Some(config),
        }),
{
    if cell.is_none() {
        *cell = Some(config);
    }
}

/// The filter settings: those set, else those of the environment.
pub fn get_bpf_config(cell: &Option<BpfConfig>, legacy_env_set: bool, method_env: Option<&str>) -> (r:
    BpfConfig)
    ensures
        match *cell {
            Some(c) => r == c,
            None => r.attach_method == (if legacy_env_set {
                BpfAttachMethod::Legacy
            } else {
                match method_env {
                    Some(m) => BpfAttachMethod::from_str_spec(m@),
                    None => BpfAttachMethod::Auto,
                }
            }),
        },
{
    match cell {
        Some(c) => *c,
        None => BpfConfig::new(BpfAttachMethod::from_env_and_arg(None, legacy_env_set, method_env)),
    }
}

/// Whether an automatic attach falls back to the legacy call: only for the
/// automatic method, and only when the link was refused as invalid.
pub fn falls_back_to_legacy(method: BpfAttachMethod, link_failed_einval: bool) -> (r: bool)
    ensures
        r == (method == BpfAttachMethod::Auto && link_failed_einval),
{
    method == BpfAttachMethod::Auto && link_failed_einval
}

/// A cause of an error is an invalid-argument error: errno 22, or a
/// message mentioning `errno=22`, `Invalid argument` or `os error 22`.
pub open spec fn spec_cause_is_einval(raw_os_error: Option<i32>, message: Seq<char>) -> bool {
    raw_os_error == Some(22i32) || spec_contains(message, "errno=22"@) || spec_contains(
        message,
        "Invalid argument"@,
    ) || spec_contains(message, "os error 22"@)
}

/// Whether any cause of an error chain is an invalid-argument error.
pub fn is_einval(causes: &Vec<(Option<i32>, String)>) -> (r: bool)
    ensures
        r == exists|j: int|
            0 <= j < causes@.len() && spec_cause_is_einval(causes@[j].0, causes@[j].1@),
{
    let mut i: usize = 0;
    while i < causes.len()
        invariant
            i <= causes@.len(),
            forall|j: int| 0 <= j < i ==> !spec_cause_is_einval(causes@[j].0, causes@[j].1@),
        decreases causes@.len() - i,
    {
        let (raw, msg) = (&causes[i].0, &causes[i].1);
        if *raw == Some(22i32) || contains(msg.as_str(), "errno=22") || contains(
            msg.as_str(),
            "Invalid argument",
        ) || contains(msg.as_str(), "os error 22") {
            return true;
        }
        i = i + 1;
    }
    false
}

/// Errors reading a process's cgroup.
#[derive(Clone, Debug)]
pub enum CgroupLookupError {
    /// The process has no cgroup v2 entry.
    NoV2Entry(i32),
}

/// `s` without leading `c` characters.
pub open spec fn spec_trim_start_char(s: Seq<char>, c: char) -> Seq<char>
    decreases s.len(),
{
    if s.len() > 0 && s[0] == c {
        spec_trim_start_char(s.drop_first(), c)
    } else {
        s
    }
}

fn trim_start_char(s: &str, c: char) -> (r: String)
    ensures
        r@ == spec_trim_start_char(s@, c),
{
    let n = s.unicode_len();
    assert(s@.subrange(0, n as int) =~= s@);
    let mut i: usize = 0;
    while i < n && s.get_char(i) == c
        invariant
            n == s@.len(),
            i <= n,
            spec_trim_start_char(s@, c) == spec_trim_start_char(s@.subrange(i as int, n as int), c),
        decreases n - i,
    {
        assert(s@.subrange(i as int, n as int).drop_first() =~= s@.subrange(i + 1, n as int));
        i = i + 1;
    }
    String::from_str(s.substring_char(i, n))
}

/// Index of the first line starting with `0::`.
pub open spec fn spec_v2_line(ls: Seq<Seq<char>>, n: int) -> Option<int>
    decreases n,
{
    if n <= 0 {
        None
    } else {
        match spec_v2_line(ls, n - 1) {
            Some(i) => Some(i),
            None => if ls[n - 1].len() >= 3 && ls[n - 1].subrange(0, 3) == "0::"@ {
                Some(n - 1)
            } else {
                None
            },
        }
    }
}

proof fn lemma_v2_line_stable(ls: Seq<Seq<char>>, n: int, m: int)
    requires
        0 <= n <= m,
        spec_v2_line(ls, n) is Some,
    ensures
        spec_v2_line(ls, m) == spec_v2_line(ls, n),
    decreases m - n,
{
    if m > n {
        lemma_v2_line_stable(ls, n, m - 1);
    }
}

/// The cgroup directory of a process from its `/proc/<pid>/cgroup` text:
/// the path of the first `0::` line under `/sys/fs/cgroup`, the root itself
/// when the path is empty; the root in test mode.
pub open spec fn spec_cgroup_dir(contents: Seq<char>, test_root: bool) -> Option<Seq<char>> {
    if test_root {
        Some("/sys/fs/cgroup"@)
    } else {
        let ls = spec_lines(contents);
        match spec_v2_line(ls, ls.len() as int) {
            Some(i) => {
                let rel = ls[i].subrange(3, ls[i].len() as int);
                if rel.len() == 0 {
                    Some("/sys/fs/cgroup"@)
                } else {
                    Some("/sys/fs/cgroup/"@ + spec_trim_start_char(rel, '/'))
                }
            },
            None => None,
        }
    }
}

/// The cgroup directory of a process from its `/proc/<pid>/cgroup` text;
/// an error when it has no `0::` line.
pub fn get_cgroup_path(pid: i32, contents: &str, test_root: bool) -> (r: Result<String, CgroupLookupError>)
    ensures
        match spec_cgroup_dir(contents@, test_root) {
            Some(p) => r matches Ok(s) && s@ == p,
            None => r matches Err(CgroupLookupError::NoV2Entry(q)) && q == pid,
        },
{
    if test_root {
        return Ok(String::from_str("/sys/fs/cgroup"));
    }
    let ls = lines(contents);
    let ghost views = spec_lines(contents@);
    let mut i: usize = 0;
    while i < ls.len()
        invariant
            !test_root,
            i <= ls@.len(),
            ls@.len() == views.len(),
            views == spec_lines(contents@),
            forall|j: int| 0 <= j < ls@.len() ==> (#[trigger] ls@[j])@ == views[j],
            spec_v2_line(views, i as int) is None,
        decreases ls@.len() - i,
    {
        let line = ls[i].as_str();
        match crate::cgroup::strip_prefix(line, "0::") {
            Some(rel) => {
                proof {
                    reveal_strlit("0::");
                    assert(line@ == views[i as int]);
                    assert(spec_v2_line(views, i + 1) == Some(i as int));
                    lemma_v2_line_stable(views, i + 1, views.len() as int);
                    assert(rel@ == views[i as int].subrange(3, views[i as int].len() as int));
                }
                if rel.unicode_len() == 0 {
                    return Ok(String::from_str("/sys/fs/cgroup"));
                }
                let mut path = String::from_str("/sys/fs/cgroup/");
                let trimmed = trim_start_char(rel.as_str(), '/');
                path.append(trimmed.as_str());
                return Ok(path);
            },
            None => {
                proof {
                    reveal_strlit("0::");
                    assert(line@ == views[i as int]);
                }
            },
        }
        i = i + 1;
    }
    Err(CgroupLookupError::NoV2Entry(pid))
}

/// Words of `s` split at whitespace, with the word still being read.
pub open spec fn spec_words_acc(s: Seq<char>) -> (Seq<Seq<char>>, Seq<char>)
    decreases s.len(),
{
    if s.len() == 0 {
        (Seq::empty(), Seq::empty())
    } else {
        let (done, cur) = spec_words_acc(s.drop_last());
        if spec_char_is_whitespace(s.last()) {
            (if cur.len() > 0 { done.push(cur) } else { done }, Seq::empty())
        } else {
            (done, cur.push(s.last()))
        }
    }
}

/// Words of `s` as `str::split_whitespace` gives them.
pub open spec fn spec_words(s: Seq<char>) -> Seq<Seq<char>> {
    let (done, cur) = spec_words_acc(s);
    if cur.len() > 0 { done.push(cur) } else { done }
}

/// The words of `s`, split at whitespace.
pub fn split_whitespace(s: &str) -> (r: Vec<String>)
    ensures
        r@.len() == spec_words(s@).len(),
        forall|j: int| 0 <= j < r@.len() ==> (#[trigger] r@[j])@ == spec_words(s@)[j],
{
    let n = s.unicode_len();
    let mut done: Vec<String> = Vec::new();
    let mut cur = String::new();
    let mut i: usize = 0;
    while i < n
        invariant
            n == s@.len(),
            i <= n,
            ({
                let (d, c) = spec_words_acc(s@.subrange(0, i as int));
                &&& done@.len() == d.len()
                &&& forall|j: int| 0 <= j < d.len() ==> (#[trigger] done@[j])@ == d[j]
                &&& cur@ == c
            }),
        decreases n - i,
    {
        assert(s@.subrange(0, i + 1).drop_last() =~= s@.subrange(0, i as int));
        let c = s.get_char(i);
        if crate::parse::char_is_whitespace(c) {
            if cur.unicode_len() > 0 {
                let w = cur;
                done.push(w);
                cur = String::new();
            }
        } else {
            crate::text::push_char(&mut cur, c);
        }
        i = i + 1;
    }
    assert(s@.subrange(0, n as int) =~= s@);
    if cur.unicode_len() > 0 {
        done.push(cur);
    }
    done
}

/// The kernel release named in `/proc/version` text is older than 4.10:
/// its third word's first two dot-separated numbers read and are below it.
pub open spec fn spec_kernel_too_old(version: Seq<char>) -> bool {
    let ws = spec_words(version);
    if ws.len() < 3 {
        false
    } else {
        let release = ws[2];
        if !spec_contains(release, "."@) {
            false
        } else {
            let major = spec_unsigned(spec_before_first(release, '.'));
            let rest = crate::text::spec_after_first(release, "."@)->0;
            let minor = spec_unsigned(spec_before_first(rest, '.'));
            match (major, minor) {
                (Some(a), Some(b)) => a <= u32::MAX && b <= u32::MAX && (a < 4 || (a == 4 && b < 10)),
                _ => false,
            }
        }
    }
}

/// Whether the cgroup filters can run: the unified hierarchy is mounted,
/// and the kernel, when its version reads, is 4.10 or newer.
pub fn check_ebpf_support(controllers_exist: bool, proc_version: Option<&str>) -> (r: bool)
    ensures
        r == (controllers_exist && match proc_version {
            Some(v) => !spec_kernel_too_old(v@),
            None => true,
        }),
{
    if !controllers_exist {
        return false;
    }
    match proc_version {
        Some(contents) => {
            let ws = split_whitespace(contents);
            if ws.len() < 3 {
                return true;
            }
            let release = ws[2].as_str();
            match crate::text::after_first(release, ".") {
                Some(rest) => {
                    let major_text = before_first(release, '.');
                    let minor_text = before_first(rest.as_str(), '.');
                    proof {
                        reveal_strlit(".");
                        let i = choose|i: int|
                            crate::text::spec_occurs_at(release@, "."@, i) && (forall|j: int|
                                0 <= j < i ==> !crate::text::spec_occurs_at(release@, "."@, j))
                                && rest@ == release@.subrange(i + "."@.len(), release@.len() as int);
                        assert(crate::text::spec_contains(release@, "."@));
                    }
                    match (parse_u32(major_text.as_str()), parse_u32(minor_text.as_str())) {
                        (Some(major), Some(minor)) => !(major < 4 || (major == 4 && minor < 10)),
                        _ => true,
                    }
                },
                None => true,
            }
        },
        None => true,
    }
}

#[verifier::external_type_specification]
#[verifier::external_body]
pub struct ExSystemTime(SystemTime);

/// The wall-clock time now.
///
/// Trusted: calls `SystemTime::now`; nothing is claimed of the result,
/// which depends on the clock.
#[verifier::external_body]
fn system_now() -> (r: SystemTime) {
    SystemTime::now()
}

/// The time elapsed from the Unix epoch to `t`; `None` when `t` is earlier.
///
/// Trusted: calls `SystemTime::duration_since` with `UNIX_EPOCH`; nothing
/// is claimed of the result, which depends on the clock reading `t`.
#[verifier::external_body]
fn duration_since_epoch(t: &SystemTime) -> (r: Option<Duration>) {
    t.duration_since(UNIX_EPOCH).ok()
}

/// Whole nanoseconds in a duration.
///
/// Trusted: calls `Duration::as_nanos`; a duration is opaque here, so
/// nothing is claimed of the number.
#[verifier::external_body]
fn duration_as_nanos(d: &Duration) -> (r: u128) {
    d.as_nanos()
}

/// The clock reading as nanoseconds since the Unix epoch, truncated to 64
/// bits; zero when the clock reads a time before the epoch (where a
/// timestamp cannot be given, this library answers zero instead of stopping).
pub fn time_ns_from_epoch_nanos(nanos: Option<u128>) -> (r: u64)
    ensures
        r == match nanos {
            Some(n) => n as u64,
            None => 0u64,
        },
{
    match nanos {
        Some(n) => n as u64,
        None => 0,
    }
}

/// Nanoseconds since the Unix epoch by the wall clock, truncated to 64 bits;
/// zero when the clock reads a time before the epoch.
pub fn get_current_time_ns() -> (r: u64) {
    let nanos = match duration_since_epoch(&system_now()) {
        Some(d) => Some(duration_as_nanos(&d)),
        None => None,
    };
    time_ns_from_epoch_nanos(nanos)
}

} // verus!
