use bproc::bpf::{
    check_ebpf_support, falls_back_to_legacy, get_cgroup_path, is_einval, split_whitespace,
    BpfAttachMethod, CgroupLookupError,
};
use bproc::cgroup::{
    after_last, ends_with, join_path, strip_prefix, CgroupBackendType, CgroupHandle,
    CgroupV1Backend, CgroupV2NftablesBackend,
};
use bproc::nft::{
    add_rule_args, chain_for, delete_rule_args, handle_rate_limit_rule, path_rate_limit_rule,
    rule_handles, rule_marker, table_setup_args, table_setup_step, Direction, TableSetupStep,
};
use bproc::process::TrafficType;
use bproc::tc::{
    cgroup_filter_args, classid_text, create_tc_class, htb_root_args, legacy_cgroup_path,
    needs_htb_root, needs_ingress, rate_kbps, remove_tc_class,
};

#[test]
fn nft_rules() {
    assert_eq!(chain_for(Direction::Upload), "output_limit");
    assert_eq!(chain_for(Direction::Download), "input_limit");
    assert_eq!(
        path_rate_limit_rule("chadthrottle/pid_42", 1000, TrafficType::All),
        "socket cgroupv2 level 1 \"chadthrottle/pid_42\" limit rate 1000 bytes/second"
    );
    assert_eq!(
        path_rate_limit_rule("p", 5, TrafficType::Local),
        "socket cgroupv2 level 1 \"p\" ip daddr { 10.0.0.0/8, 172.16.0.0/12, 192.168.0.0/16, 169.254.0.0/16 }  limit rate 5 bytes/second"
    );
    let v1 = CgroupHandle {
        pid: 9,
        identifier: String::from("1:100"),
        backend_type: CgroupBackendType::V1,
    };
    assert_eq!(
        handle_rate_limit_rule(&v1, 2048, TrafficType::All),
        "meta cgroup 1:100 limit rate over 2048 bytes/second drop"
    );
    let v2 = CgroupHandle {
        pid: 9,
        identifier: String::from("chadthrottle/pid_9"),
        backend_type: CgroupBackendType::V2Nftables,
    };
    assert_eq!(
        handle_rate_limit_rule(&v2, 1, TrafficType::All),
        "socket cgroupv2 level 0 \"chadthrottle/pid_9\" limit rate over 1 bytes/second drop"
    );
    assert_eq!(rule_marker(&v1), "cgroup 1:100");
    assert_eq!(rule_marker(&v2), "chadthrottle/pid_9");
    assert_eq!(
        add_rule_args("output_limit", "r"),
        vec!["add", "rule", "inet", "chadthrottle", "output_limit", "r"]
    );
    assert_eq!(
        delete_rule_args("input_limit", 17),
        vec!["delete", "rule", "inet", "chadthrottle", "input_limit", "handle", "17"]
    );
}

#[test]
fn nft_handles_come_from_marked_lines() {
    let listing = "table inet chadthrottle {\n\
        \tchain output_limit {\n\
        \t\tsocket cgroupv2 level 0 \"chadthrottle/pid_9\" limit rate over 1 bytes/second drop # handle 4\n\
        \t\tmeta cgroup 1:100 limit rate over 2 bytes/second drop # handle 5\n\
        \t\tsocket cgroupv2 level 0 \"chadthrottle/pid_9\" drop # handle x\n\
        \t\tsocket cgroupv2 level 0 \"chadthrottle/pid_9\" counter # handle  12 \n\
        \t}\n}\n";
    assert_eq!(rule_handles(listing, "chadthrottle/pid_9"), vec![4, 12]);
    assert_eq!(rule_handles(listing, "cgroup 1:100"), vec![5]);
    assert!(rule_handles(listing, "nothing").is_empty());
}

#[test]
fn tc_arguments() {
    assert_eq!(rate_kbps(125_000), 1000);
    assert_eq!(classid_text(5), "65541");
    assert_eq!(legacy_cgroup_path(77), "/sys/fs/cgroup/net_cls/chadthrottle/pid_77");
    assert!(needs_htb_root("qdisc noqueue 0: root refcnt 2"));
    assert!(!needs_htb_root("qdisc htb 1: root refcnt 2"));
    assert!(needs_ingress("qdisc htb 1: root"));
    assert!(!needs_ingress("qdisc ingress ffff: parent ffff:fff1"));
    assert_eq!(
        htb_root_args("eth0"),
        vec!["qdisc", "add", "dev", "eth0", "root", "handle", "1:", "htb", "default", "999"]
    );
    assert_eq!(
        cgroup_filter_args("ifb0", "1:", true),
        vec!["filter", "add", "dev", "ifb0", "parent", "1:", "protocol", "ipv6", "prio", "1", "handle", "2:", "cgroup"]
    );
    assert!(create_tc_class("eth0", 100, 0, "1:").is_none());
    let args = create_tc_class("eth0", 100, 800, "1:").unwrap();
    assert_eq!(args[0], "class");
    assert_eq!(args[3], "eth0");
    let del = remove_tc_class("eth0", 100, "1:");
    assert_eq!(del.len(), 8);
    assert_eq!(del[1], "del");
}

#[test]
fn cgroup_paths_and_handles() {
    assert_eq!(join_path("/a", "b"), "/a/b");
    assert_eq!(after_last("chadthrottle_1234", '_'), "1234");
    assert!(ends_with("abc", "bc"));
    assert_eq!(strip_prefix("0::/user", "0::"), Some(String::from("/user")));
    assert_eq!(strip_prefix("1::/user", "0::"), None);

    let mut v1 = CgroupV1Backend::new().unwrap();
    assert_eq!(CgroupV1Backend::classid_to_hex(5), 0x10005);
    assert_eq!(CgroupV1Backend::classid_to_tc_format(5), "1:5");
    let setup = v1.create_cgroup(1234, "chadthrottle");
    assert_eq!(setup.cgroup_path, "/sys/fs/cgroup/net_cls/chadthrottle/chadthrottle_1234");
    assert_eq!(setup.pid_text, "1234");
    assert_eq!(setup.handle.identifier, "1:1");
    assert_eq!(setup.classid_text, "65537");
    let again = v1.create_cgroup(1234, "chadthrottle");
    assert_eq!(again.handle.identifier, "1:1");
    let other = v1.create_cgroup(99, "chadthrottle");
    assert_eq!(other.handle.identifier, "1:2");
    let h = CgroupV1Backend::handle_from_entry("chadthrottle_1234", " 65537\n").unwrap();
    assert_eq!(h.pid, 1234);
    assert_eq!(h.identifier, "1:1");
    assert!(CgroupV1Backend::handle_from_entry("chadthrottle_x", "65537").is_none());

    let v2 = CgroupV2NftablesBackend::new().unwrap();
    let s2 = v2.create_cgroup(55, "ignored");
    assert_eq!(s2.cgroup_path, "/sys/fs/cgroup/chadthrottle/pid_55");
    assert_eq!(s2.handle.identifier, "chadthrottle/pid_55");
    assert_eq!(v2.get_relative_path("pid_55"), "chadthrottle/pid_55");
    let h2 = v2.handle_from_entry("pid_56").unwrap();
    assert_eq!(h2.pid, 56);
    assert!(v2.handle_from_entry("other").is_none());
}

#[test]
fn bpf_attach_method_and_paths() {
    assert_eq!(BpfAttachMethod::from_str("LINK"), BpfAttachMethod::Link);
    assert_eq!(BpfAttachMethod::from_str("Legacy"), BpfAttachMethod::Legacy);
    assert_eq!(BpfAttachMethod::from_str("whatever"), BpfAttachMethod::Auto);
    assert!(falls_back_to_legacy(BpfAttachMethod::Auto, true));
    assert!(!falls_back_to_legacy(BpfAttachMethod::Link, true));
    assert!(is_einval(&vec![(None, String::from("failed: Invalid argument"))]));
    assert!(is_einval(&vec![(Some(22), String::new())]));
    assert!(!is_einval(&vec![(Some(1), String::from("Operation not permitted"))]));
    assert_eq!(
        get_cgroup_path(5, "12:cpu:/x\n0::/user.slice/app.scope\n", false).ok(),
        Some(String::from("/sys/fs/cgroup/user.slice/app.scope"))
    );
    assert_eq!(get_cgroup_path(5, "0::/\n", false).ok(), Some(String::from("/sys/fs/cgroup/")));
    assert_eq!(get_cgroup_path(5, "0::\n", false).ok(), Some(String::from("/sys/fs/cgroup")));
    assert!(matches!(
        get_cgroup_path(5, "1:name=x:/\n", false),
        Err(CgroupLookupError::NoV2Entry(5))
    ));
    assert_eq!(get_cgroup_path(5, "", true).ok(), Some(String::from("/sys/fs/cgroup")));
    assert_eq!(split_whitespace("  a b\t c \n"), vec!["a", "b", "c"]);
    assert!(check_ebpf_support(true, Some("Linux version 5.15.0-91-generic (x)")));
    assert!(!check_ebpf_support(true, Some("Linux version 4.9.0 (x)")));
    assert!(check_ebpf_support(true, None));
    assert!(!check_ebpf_support(false, None));
}

#[test]
fn nft_table_setup_sequence() {
    // An existing table ends setup at once.
    assert_eq!(table_setup_step(0, true), TableSetupStep::Done);
    // Otherwise: create the table, then the output and input chains.
    assert_eq!(table_setup_step(0, false), TableSetupStep::Next(1));
    assert_eq!(table_setup_step(1, true), TableSetupStep::Next(2));
    assert_eq!(table_setup_step(2, true), TableSetupStep::Next(3));
    assert_eq!(table_setup_step(3, true), TableSetupStep::Done);
    assert_eq!(table_setup_step(2, false), TableSetupStep::Failed(2));
    assert_eq!(table_setup_args(0), vec!["list", "table", "inet", "chadthrottle"]);
    assert_eq!(table_setup_args(1), vec!["add", "table", "inet", "chadthrottle"]);
    assert_eq!(
        table_setup_args(2).join(" "),
        "add chain inet chadthrottle output_limit { type filter hook output priority 0 ; }"
    );
    assert_eq!(
        table_setup_args(3).join(" "),
        "add chain inet chadthrottle input_limit { type filter hook input priority 0 ; }"
    );
}

#[test]
fn wall_clock_is_after_2020() {
    // 2020-01-01 in nanoseconds since the epoch.
    assert!(bproc::bpf::get_current_time_ns() > 1_577_836_800_000_000_000);
}

#[test]
fn v1_cgroup_removal_finds_the_first_matching_directory() {
    let mut v1 = CgroupV1Backend::new().unwrap();
    let setup = v1.create_cgroup(77, "curl");
    let names = vec!["other_1".to_string(), "curl_77".to_string(), "x_77".to_string()];
    assert_eq!(v1.remove_cgroup(&setup.handle, &names), Some(1));
    let none = vec!["curl_770".to_string(), "a".to_string()];
    assert_eq!(v1.remove_cgroup(&setup.handle, &none), None);
}

#[test]
fn download_backends_use_their_registered_names() {
    let d = bproc::throttle::NftablesThrottle::new(Direction::Download).ok().unwrap();
    assert_eq!(d.name(), "nftables");
    let ifaces = vec![bproc::tc::InterfaceSummary {
        name: "eth0".to_string(),
        is_up: true,
        is_loopback: false,
        has_ipv4: true,
        has_ip: true,
    }];
    let p = bproc::throttle::TcPoliceDownload::new(&ifaces).ok().unwrap();
    assert_eq!(p.name(), "tc_police");
    assert_eq!(bproc::parse::trim(" \u{2003}5\t\n"), "5");
}
