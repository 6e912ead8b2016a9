//! Traffic-control helpers: the interface to shape, the HTB classes and
//! filters, and the legacy per-process cgroups under `net_cls`.
use crate::text::{contains, push_i64, push_u64, spec_contains, spec_decimal, spec_int_text};
use vstd::prelude::*;

verus! {

/// Legacy cgroup directory of this program under `net_cls`.
pub const CGROUP_BASE: &'static str = "/sys/fs/cgroup/net_cls/chadthrottle";

/// What the interface list says of one interface.
#[derive(Clone, Debug)]
pub struct InterfaceSummary {
    pub name: String,
    pub is_up: bool,
    pub is_loopback: bool,
    /// Whether it has an IPv4 address.
    pub has_ipv4: bool,
    /// Whether it has any address.
    pub has_ip: bool,
}

/// Errors of the traffic-control helpers.
#[derive(Clone, Debug)]
pub enum TcError {
    /// No up, non-loopback interface with an address.
    NoInterface,
}

/// An interface is a candidate when up, not loopback, and (for the first
/// pass) with an IPv4 address or (for the second) with any address.
pub open spec fn spec_candidate(i: InterfaceSummary, ipv4: bool) -> bool {
    i.is_up && !i.is_loopback && (if ipv4 { i.has_ipv4 } else { i.has_ip })
}

fn first_candidate(interfaces: &Vec<InterfaceSummary>, ipv4: bool) -> (r: Option<usize>)
    ensures
        r matches Some(k) ==> k < interfaces@.len() && spec_candidate(interfaces@[k as int], ipv4)
            && forall|j: int| 0 <= j < k ==> !spec_candidate(interfaces@[j], ipv4),
        r is None ==> forall|j: int| 0 <= j < interfaces@.len() ==> !spec_candidate(interfaces@[j], ipv4),
{
    let mut k: usize = 0;
    while k < interfaces.len()
        invariant
            k <= interfaces@.len(),
            forall|j: int| 0 <= j < k ==> !spec_candidate(interfaces@[j], ipv4),
        decreases interfaces@.len() - k,
    {
        let i = &interfaces[k];
        if i.is_up && !i.is_loopback && (if ipv4 { i.has_ipv4 } else { i.has_ip }) {
            return Some(k);
        }
        k = k + 1;
    }
    None
}

/// The interface to shape: the first up, non-loopback one with an IPv4
/// address, else the first up, non-loopback one with any address.
pub fn detect_interface(interfaces: &Vec<InterfaceSummary>) -> (r: Result<String, TcError>)
    ensures
        r matches Ok(name) ==> exists|k: int|
            0 <= k < interfaces@.len() && interfaces@[k].name@ == name@ && ((spec_candidate(
                interfaces@[k],
                true,
            ) && forall|j: int| 0 <= j < k ==> !spec_candidate(interfaces@[j], true)) || ((forall|
                j: int,
            | 0 <= j < interfaces@.len() ==> !spec_candidate(interfaces@[j], true)) && spec_candidate(
                interfaces@[k],
                false,
            ) && forall|j: int| 0 <= j < k ==> !spec_candidate(interfaces@[j], false))),
        r is Err <==> forall|j: int| 0 <= j < interfaces@.len() ==> !spec_candidate(interfaces@[j], true)
            && !spec_candidate(interfaces@[j], false),
{
    match first_candidate(interfaces, true) {
        Some(k) => Ok(interfaces[k].name.clone()),
        None => match first_candidate(interfaces, false) {
            Some(k) => Ok(interfaces[k].name.clone()),
            None => Err(TcError::NoInterface),
        },
    }
}

/// Legacy cgroups are available when the `net_cls` controller directory exists.
pub fn check_cgroups_available(net_cls_exists: bool) -> (r: bool)
    ensures
        r == net_cls_exists,
{
    net_cls_exists
}

/// Legacy cgroup directory of a process: `<base>/pid_<pid>`.
pub fn legacy_cgroup_path(pid: i32) -> (r: String)
    ensures
        r@ == CGROUP_BASE@ + "/pid_"@ + spec_int_text(pid as int),
{
    let mut s = String::from_str(CGROUP_BASE);
    s.append("/pid_");
    push_i64(&mut s, pid as i64);
    s
}

/// Text written to `net_cls.classid` for a minor class id: `(1 << 16) | classid`.
pub fn classid_text(classid: u32) -> (r: String)
    ensures
        r@ == spec_decimal((0x10000u32 | classid) as nat),
{
    let mut s = String::new();
    push_u64(&mut s, (0x10000u32 | classid) as u64);
    assert(s@ =~= spec_decimal((0x10000u32 | classid) as nat));
    s
}

/// An HTB root is needed unless the qdisc listing already mentions `htb`.
pub fn needs_htb_root(qdisc_listing: &str) -> (r: bool)
    ensures
        r == !spec_contains(qdisc_listing@, "htb"@),
{
    !contains(qdisc_listing, "htb")
}

/// An ingress qdisc is needed unless the listing already mentions `ingress`.
pub fn needs_ingress(qdisc_listing: &str) -> (r: bool)
    ensures
        r == !spec_contains(qdisc_listing@, "ingress"@),
{
    !contains(qdisc_listing, "ingress")
}

/// `s` without trailing `c` characters.
pub open spec fn spec_trim_end_char(s: Seq<char>, c: char) -> Seq<char>
    decreases s.len(),
{
    if s.len() > 0 && s.last() == c {
        spec_trim_end_char(s.drop_last(), c)
    } else {
        s
    }
}

/// `s` without trailing `c` characters.
pub fn trim_end_char(s: &str, c: char) -> (r: String)
    ensures
        r@ == spec_trim_end_char(s@, c),
{
    let n = s.unicode_len();
    let mut j: usize = n;
    assert(s@.subrange(0, n as int) =~= s@);
    while j > 0 && s.get_char(j - 1) == c
        invariant
            n == s@.len(),
            j <= n,
            spec_trim_end_char(s@, c) == spec_trim_end_char(s@.subrange(0, j as int), c),
        decreases j,
    {
        assert(s@.subrange(0, j as int).drop_last() =~= s@.subrange(0, j - 1));
        j = j - 1;
    }
    String::from_str(s.substring_char(0, j))
}

/// Class id of a class under a parent handle: `<parent without ':'>:<classid>`.
pub open spec fn spec_class_id(parent: Seq<char>, classid: u32) -> Seq<char> {
    spec_trim_end_char(parent, ':') + ":"@ + spec_decimal(classid as nat)
}

fn class_id(parent: &str, classid: u32) -> (r: String)
    ensures
        r@ == spec_class_id(parent@, classid),
{
    let mut s = trim_end_char(parent, ':');
    s.append(":");
    push_u64(&mut s, classid as u64);
    s
}

/// Rate in kbit/s of a limit in bytes per second, truncated to 32 bits.
pub open spec fn spec_rate_kbps(limit_bytes_per_sec: u64) -> u32 {
    ((limit_bytes_per_sec * 8 / 1000) % 0x1_0000_0000) as u32
}

/// Rate in kbit/s of a limit in bytes per second, truncated to 32 bits.
pub fn rate_kbps(limit_bytes_per_sec: u64) -> (r: u32)
    requires
        limit_bytes_per_sec * 8 <= u64::MAX,
    ensures
        r == spec_rate_kbps(limit_bytes_per_sec),
{
    let kbps: u64 = limit_bytes_per_sec * 8 / 1000;
    let r = kbps as u32;
    assert(r == kbps % 0x1_0000_0000) by (bit_vector)
        requires
            r == kbps as u32,
    ;
    r
}

/// Arguments of `tc` adding an HTB class at a rate, ceiling equal to the
/// rate; none for a zero rate (no limit).
pub fn create_tc_class(interface: &str, classid: u32, rate_kbps: u32, parent_handle: &str) -> (r:
    Option<Vec<String>>)
    ensures
        rate_kbps == 0 <==> r is None,
        r matches Some(args) ==> args@.len() == 13 && args@[0]@ == "class"@ && args@[1]@ == "add"@
            && args@[2]@ == "dev"@ && args@[3]@ == interface@ && args@[4]@ == "parent"@
            && args@[5]@ == parent_handle@ && args@[6]@ == "classid"@ && args@[7]@
            == spec_class_id(parent_handle@, classid) && args@[8]@ == "htb"@ && args@[9]@
            == "rate"@ && args@[10]@ == spec_decimal(rate_kbps as nat) + "kbit"@ && args@[11]@
            == "ceil"@ && args@[12]@ == spec_decimal(rate_kbps as nat) + "kbit"@,
{
    if rate_kbps == 0 {
        return None;
    }
    let mut rate = String::new();
    push_u64(&mut rate, rate_kbps as u64);
    rate.append("kbit");
    assert(rate@ =~= spec_decimal(rate_kbps as nat) + "kbit"@);
    let mut v: Vec<String> = Vec::new();
    v.push(String::from_str("class"));
    v.push(String::from_str("add"));
    v.push(String::from_str("dev"));
    v.push(String::from_str(interface));
    v.push(String::from_str("parent"));
    v.push(String::from_str(parent_handle));
    v.push(String::from_str("classid"));
    v.push(class_id(parent_handle, classid));
    v.push(String::from_str("htb"));
    v.push(String::from_str("rate"));
    v.push(rate.clone());
    v.push(String::from_str("ceil"));
    v.push(rate);
    Some(v)
}

/// Arguments of `tc` deleting a class.
pub fn remove_tc_class(interface: &str, classid: u32, parent_handle: &str) -> (r: Vec<String>)
    ensures
        r@.len() == 8 && r@[0]@ == "class"@ && r@[1]@ == "del"@ && r@[2]@ == "dev"@ && r@[3]@
            == interface@ && r@[4]@ == "parent"@ && r@[5]@ == parent_handle@ && r@[6]@
            == "classid"@ && r@[7]@ == spec_class_id(parent_handle@, classid),
{
    let mut v: Vec<String> = Vec::new();
    v.push(String::from_str("class"));
    v.push(String::from_str("del"));
    v.push(String::from_str("dev"));
    v.push(String::from_str(interface));
    v.push(String::from_str("parent"));
    v.push(String::from_str(parent_handle));
    v.push(String::from_str("classid"));
    v.push(class_id(parent_handle, classid));
    v
}

/// Arguments of `tc` from a list of words.
pub fn words(w: &Vec<&str>) -> (r: Vec<String>)
    ensures
        r@.len() == w@.len(),
        forall|j: int| 0 <= j < w@.len() ==> (#[trigger] r@[j])@ == w@[j]@,
{
    let mut v: Vec<String> = Vec::new();
    let mut i: usize = 0;
    while i < w.len()
        invariant
            i <= w@.len(),
            v@.len() == i,
            forall|j: int| 0 <= j < i ==> (#[trigger] v@[j])@ == w@[j]@,
        decreases w@.len() - i,
    {
        v.push(String::from_str(w[i]));
        i = i + 1;
    }
    v
}

/// Arguments of `tc` installing the HTB root on an interface, unclassified
/// traffic going to class 999.
pub fn htb_root_args(interface: &str) -> (r: Vec<String>)
    ensures
        r@.len() == 10,
        r@[0]@ == "qdisc"@ && r@[1]@ == "add"@ && r@[2]@ == "dev"@ && r@[3]@ == interface@
            && r@[4]@ == "root"@ && r@[5]@ == "handle"@ && r@[6]@ == "1:"@ && r@[7]@ == "htb"@
            && r@[8]@ == "default"@ && r@[9]@ == "999"@,
{
    let w = vec!["qdisc", "add", "dev", interface, "root", "handle", "1:", "htb", "default", "999"];
    let r = words(&w);
    assert(r@[0]@ == w@[0]@);
    r
}

/// Arguments of `tc` adding the cgroup classifier for IPv4 (handle `1:`)
/// or IPv6 (handle `2:`) under a parent.
pub fn cgroup_filter_args(device: &str, parent: &str, ipv6: bool) -> (r: Vec<String>)
    ensures
        r@.len() == 13,
        r@[0]@ == "filter"@ && r@[1]@ == "add"@ && r@[2]@ == "dev"@ && r@[3]@ == device@
            && r@[4]@ == "parent"@ && r@[5]@ == parent@ && r@[6]@ == "protocol"@,
        r@[7]@ == (if ipv6 { "ipv6"@ } else { "ip"@ }),
        r@[8]@ == "prio"@ && r@[9]@ == "1"@ && r@[10]@ == "handle"@,
        r@[11]@ == (if ipv6 { "2:"@ } else { "1:"@ }),
        r@[12]@ == "cgroup"@,
{
    let protocol = if ipv6 { "ipv6" } else { "ip" };
    let handle = if ipv6 { "2:" } else { "1:" };
    let w = vec![
        "filter",
        "add",
        "dev",
        device,
        "parent",
        parent,
        "protocol",
        protocol,
        "prio",
        "1",
        "handle",
        handle,
        "cgroup",
    ];
    words(&w)
}

} // verus!
