//! nftables rules that rate-limit a cgroup's traffic: the table and chains,
//! the rule text for each cgroup kind and traffic class, and the rule
//! handles to delete, read from a rule listing.
use crate::cgroup::{CgroupBackendType, CgroupHandle};
use crate::parse::{parse_u32, spec_trim, spec_unsigned, trim};
use crate::process::TrafficType;
use crate::text::{
    after_first, concat, contains, lines, push_u64, spec_after_first, spec_contains, spec_decimal,
    spec_lines,
};
use vstd::prelude::*;

verus! {

/// The table holding this program's chains.
pub const NFT_TABLE: &'static str = "chadthrottle";

/// Chain of outgoing traffic.
pub const NFT_CHAIN_OUTPUT: &'static str = "output_limit";

/// Chain of incoming traffic.
pub const NFT_CHAIN_INPUT: &'static str = "input_limit";

/// Direction of throttled traffic.
#[derive(Clone, Copy, Debug, PartialEq, Eq, Structural)]
pub enum Direction {
    Upload,
    Download,
}

/// The chain of a direction.
pub fn chain_for(direction: Direction) -> (r: &'static str)
    ensures
        r@ == (match direction {
            Direction::Upload => NFT_CHAIN_OUTPUT@,
            Direction::Download => NFT_CHAIN_INPUT@,
        }),
{
    match direction {
        Direction::Upload => NFT_CHAIN_OUTPUT,
        Direction::Download => NFT_CHAIN_INPUT,
    }
}

/// Address filter of a traffic class: none for all traffic; for internet
/// traffic, destinations outside private, loopback, link-local, multicast
/// and reserved space; for local traffic, private and link-local IPv4
/// destinations.
pub open spec fn spec_ip_filter(t: TrafficType) -> Seq<char> {
    match t {
        TrafficType::All => Seq::empty(),
        TrafficType::Internet => "ip daddr != { 10.0.0.0/8, 172.16.0.0/12, 192.168.0.0/16, 127.0.0.0/8, 169.254.0.0/16, 224.0.0.0/4, 240.0.0.0/4 } ip6 daddr != { ::1, fe80::/10, fc00::/7, ff00::/8 } "@,
        TrafficType::Local => "ip daddr { 10.0.0.0/8, 172.16.0.0/12, 192.168.0.0/16, 169.254.0.0/16 } "@,
    }
}

/// Address filter of a traffic class.
pub fn ip_filter(t: TrafficType) -> (r: String)
    ensures
        r@ == spec_ip_filter(t),
{
    match t {
        TrafficType::All => String::new(),
        TrafficType::Internet => String::from_str(
            "ip daddr != { 10.0.0.0/8, 172.16.0.0/12, 192.168.0.0/16, 127.0.0.0/8, 169.254.0.0/16, 224.0.0.0/4, 240.0.0.0/4 } ip6 daddr != { ::1, fe80::/10, fc00::/7, ff00::/8 } ",
        ),
        TrafficType::Local => String::from_str(
            "ip daddr { 10.0.0.0/8, 172.16.0.0/12, 192.168.0.0/16, 169.254.0.0/16 } ",
        ),
    }
}

/// Rule limiting a cgroup path to a rate, with an optional address filter.
pub open spec fn spec_path_rule(path: Seq<char>, filter: Seq<char>, rate: u64) -> Seq<char> {
    if filter.len() == 0 {
        "socket cgroupv2 level 1 \""@ + path + "\" limit rate "@ + spec_decimal(rate as nat)
            + " bytes/second"@
    } else {
        "socket cgroupv2 level 1 \""@ + path + "\" "@ + filter + " limit rate "@ + spec_decimal(
            rate as nat,
        ) + " bytes/second"@
    }
}

/// Rule limiting a cgroup path to a rate for a traffic class.
pub fn path_rate_limit_rule(cgroup_path: &str, rate_bytes_per_sec: u64, traffic_type: TrafficType) -> (r:
    String)
    ensures
        r@ == spec_path_rule(cgroup_path@, spec_ip_filter(traffic_type), rate_bytes_per_sec),
{
    let filter = ip_filter(traffic_type);
    let mut rule = concat("socket cgroupv2 level 1 \"", cgroup_path);
    if filter.unicode_len() == 0 {
        rule.append("\" limit rate ");
    } else {
        rule.append("\" ");
        rule.append(filter.as_str());
        rule.append(" limit rate ");
    }
    push_u64(&mut rule, rate_bytes_per_sec);
    rule.append(" bytes/second");
    rule
}

/// How a rule matches a cgroup: by version 2 path, or by version 1 class id.
pub open spec fn spec_cgroup_match(h: CgroupHandle) -> Seq<char> {
    match h.backend_type {
        CgroupBackendType::V1 => "meta cgroup "@ + h.identifier@,
        _ => "socket cgroupv2 level 0 \""@ + h.identifier@ + "\""@,
    }
}

/// Rule dropping a cgroup's traffic over a rate, with an optional address filter.
pub open spec fn spec_handle_rule(h: CgroupHandle, filter: Seq<char>, rate: u64) -> Seq<char> {
    if filter.len() == 0 {
        spec_cgroup_match(h) + " limit rate over "@ + spec_decimal(rate as nat) + " bytes/second drop"@
    } else {
        spec_cgroup_match(h) + " "@ + filter + " limit rate over "@ + spec_decimal(rate as nat)
            + " bytes/second drop"@
    }
}

/// Rule dropping a cgroup's traffic of a class over a rate.
pub fn handle_rate_limit_rule(handle: &CgroupHandle, rate_bytes_per_sec: u64, traffic_type: TrafficType) -> (r:
    String)
    ensures
        r@ == spec_handle_rule(*handle, spec_ip_filter(traffic_type), rate_bytes_per_sec),
{
    let mut rule = match handle.backend_type {
        CgroupBackendType::V1 => concat("meta cgroup ", handle.identifier.as_str()),
        _ => {
            let mut m = concat("socket cgroupv2 level 0 \"", handle.identifier.as_str());
            m.append("\"");
            m
        },
    };
    let filter = ip_filter(traffic_type);
    if filter.unicode_len() == 0 {
        rule.append(" limit rate over ");
    } else {
        rule.append(" ");
        rule.append(filter.as_str());
        rule.append(" limit rate over ");
    }
    push_u64(&mut rule, rate_bytes_per_sec);
    rule.append(" bytes/second drop");
    rule
}

/// Where table setup goes after a stage's `nft` command.
#[derive(Clone, Copy, Debug, PartialEq, Eq, Structural)]
pub enum TableSetupStep {
    /// Run the command of this stage next.
    Next(u8),
    /// The table and both chains are in place.
    Done,
    /// The command of this stage failed.
    Failed(u8),
}

/// Stages of table setup, with the command each runs: 0 list the table;
/// 1 create it; 2 add the output chain; 3 add the input chain.
///
/// A table that lists ends setup at once; otherwise it is created, then its
/// chains; any of these that does not succeed ends setup with a failure.
pub open spec fn spec_table_setup_step(stage: u8, succeeded: bool) -> TableSetupStep {
    if stage == 0 {
        if succeeded { TableSetupStep::Done } else { TableSetupStep::Next(1) }
    } else if !succeeded {
        TableSetupStep::Failed(stage)
    } else if stage == 3 {
        TableSetupStep::Done
    } else {
        TableSetupStep::Next((stage + 1) as u8)
    }
}

/// Table setup only moves forward: a next stage is always a later one, and
/// still a stage, so setup ends after at most four commands.
pub proof fn lemma_table_setup_advances(stage: u8, succeeded: bool)
    requires
        stage <= 3,
    ensures
        spec_table_setup_step(stage, succeeded) matches TableSetupStep::Next(n) ==> stage < n <= 3,
{
}

/// Where table setup goes after the command of `stage` (at most 3) ran,
/// `succeeded` telling whether it ran and exited with success.
pub fn table_setup_step(stage: u8, succeeded: bool) -> (r: TableSetupStep)
    requires
        stage <= 3,
    ensures
        r == spec_table_setup_step(stage, succeeded),
{
    if stage == 0 {
        if succeeded {
            TableSetupStep::Done
        } else {
            TableSetupStep::Next(1)
        }
    } else if !succeeded {
        TableSetupStep::Failed(stage)
    } else if stage == 3 {
        TableSetupStep::Done
    } else {
        TableSetupStep::Next(stage + 1)
    }
}

/// The `nft` arguments of a table setup stage; chains are filter chains at
/// priority 0 on the output (stage 2) or input (stage 3) hook.
pub open spec fn spec_table_setup_args(stage: u8) -> Seq<Seq<char>> {
    if stage == 0 {
        seq!["list"@, "table"@, "inet"@, NFT_TABLE@]
    } else if stage == 1 {
        seq!["add"@, "table"@, "inet"@, NFT_TABLE@]
    } else {
        seq![
            "add"@, "chain"@, "inet"@, NFT_TABLE@,
            if stage == 2 { NFT_CHAIN_OUTPUT@ } else { NFT_CHAIN_INPUT@ },
            "{"@, "type"@, "filter"@, "hook"@,
            if stage == 2 { "output"@ } else { "input"@ },
            "priority"@, "0"@, ";"@, "}"@,
        ]
    }
}

/// The `nft` arguments of a table setup stage.
pub fn table_setup_args(stage: u8) -> (r: Vec<String>)
    ensures
        r@.len() == spec_table_setup_args(stage).len(),
        forall|j: int| 0 <= j < r@.len() ==> (#[trigger] r@[j])@ == spec_table_setup_args(stage)[j],
{
    let w: Vec<&str> = if stage == 0 {
        vec!["list", "table", "inet", NFT_TABLE]
    } else if stage == 1 {
        vec!["add", "table", "inet", NFT_TABLE]
    } else {
        vec![
            "add", "chain", "inet", NFT_TABLE,
            if stage == 2 { NFT_CHAIN_OUTPUT } else { NFT_CHAIN_INPUT },
            "{", "type", "filter", "hook",
            if stage == 2 { "output" } else { "input" },
            "priority", "0", ";", "}",
        ]
    };
    let r = crate::tc::words(&w);
    proof {
        let spec = spec_table_setup_args(stage);
        assert(w@.map_values(|x: &str| x@) =~= spec);
        assert forall|j: int| 0 <= j < r@.len() implies (#[trigger] r@[j])@ == spec[j] by {
            assert(r@[j]@ == w@[j]@);
            assert(w@.map_values(|x: &str| x@)[j] == w@[j]@);
        }
    }
    r
}

/// Arguments of `nft` adding a rule to a chain of the table.
pub fn add_rule_args(chain: &str, rule: &str) -> (r: Vec<String>)
    ensures
        r@.len() == 6,
        r@[0]@ == "add"@ && r@[1]@ == "rule"@ && r@[2]@ == "inet"@ && r@[3]@ == NFT_TABLE@
            && r@[4]@ == chain@ && r@[5]@ == rule@,
{
    let mut v: Vec<String> = Vec::new();
    v.push(String::from_str("add"));
    v.push(String::from_str("rule"));
    v.push(String::from_str("inet"));
    v.push(String::from_str(NFT_TABLE));
    v.push(String::from_str(chain));
    v.push(String::from_str(rule));
    v
}

/// The text identifying a cgroup's rules in a listing.
pub open spec fn spec_rule_marker(h: CgroupHandle) -> Seq<char> {
    match h.backend_type {
        CgroupBackendType::V1 => "cgroup "@ + h.identifier@,
        _ => h.identifier@,
    }
}

/// The text identifying a cgroup's rules in a listing.
pub fn rule_marker(handle: &CgroupHandle) -> (r: String)
    ensures
        r@ == spec_rule_marker(*handle),
{
    match handle.backend_type {
        CgroupBackendType::V1 => concat("cgroup ", handle.identifier.as_str()),
        _ => String::from_str(handle.identifier.as_str()),
    }
}

/// The rule handle of a listing line: for a line mentioning `marker` and
/// `# handle`, the trimmed text after the first `# handle `, when it reads
/// as a number.
pub open spec fn spec_line_handle(line: Seq<char>, marker: Seq<char>) -> Option<u32> {
    if spec_contains(line, marker) && spec_contains(line, "# handle"@) {
        match spec_after_first(line, "# handle "@) {
            Some(rest) => match spec_unsigned(spec_trim(rest)) {
                Some(v) => if v <= u32::MAX {
                    Some(v as u32)
                } else {
                    None
                },
                None => None,
            },
            None => None,
        }
    } else {
        None
    }
}

/// The handles of the first `n` lines, in order.
pub open spec fn spec_handles(ls: Seq<Seq<char>>, marker: Seq<char>, n: int) -> Seq<u32>
    decreases n,
{
    if n <= 0 {
        Seq::empty()
    } else {
        let r = spec_handles(ls, marker, n - 1);
        match spec_line_handle(ls[n - 1], marker) {
            Some(h) => r.push(h),
            None => r,
        }
    }
}

/// The handles of the rules to delete, from a `nft --handle list chain`
/// listing: for each line mentioning `marker` and `# handle`, the number
/// after `# handle ` when it reads; in listing order.
pub fn rule_handles(listing: &str, marker: &str) -> (r: Vec<u32>)
    ensures
        r@ == spec_handles(spec_lines(listing@), marker@, spec_lines(listing@).len() as int),
{
    let all = lines(listing);
    let ghost ls = spec_lines(listing@);
    let mut out: Vec<u32> = Vec::new();
    let mut k: usize = 0;
    while k < all.len()
        invariant
            k <= all@.len(),
            all@.len() == ls.len(),
            forall|j: int| 0 <= j < all@.len() ==> (#[trigger] all@[j])@ == ls[j],
            out@ == spec_handles(ls, marker@, k as int),
        decreases all@.len() - k,
    {
        let line = all[k].as_str();
        assert(all@[k as int]@ == ls[k as int]);
        if contains(line, marker) && contains(line, "# handle") {
            match after_first(line, "# handle ") {
                Some(rest) => match parse_u32(trim(rest.as_str())) {
                    Some(h) => {
                        out.push(h);
                    },
                    None => {},
                },
                None => {},
            }
        }
        k = k + 1;
    }
    out
}

/// Arguments of `nft` deleting a rule by handle.
pub fn delete_rule_args(chain: &str, handle: u32) -> (r: Vec<String>)
    ensures
        r@.len() == 7,
        r@[0]@ == "delete"@ && r@[1]@ == "rule"@ && r@[2]@ == "inet"@ && r@[3]@ == NFT_TABLE@
            && r@[4]@ == chain@ && r@[5]@ == "handle"@ && r@[6]@ == spec_decimal(handle as nat),
{
    let mut v: Vec<String> = Vec::new();
    v.push(String::from_str("delete"));
    v.push(String::from_str("rule"));
    v.push(String::from_str("inet"));
    v.push(String::from_str(NFT_TABLE));
    v.push(String::from_str(chain));
    v.push(String::from_str("handle"));
    let mut h = String::new();
    push_u64(&mut h, handle as u64);
    assert(h@ =~= spec_decimal(handle as nat));
    v.push(h);
    v
}

} // verus!
