use bproc::backends::BackendPriority;
use bproc::dnctl::{
    detect_interface, generate_pf_rule, get_connections_for_pid_from_map, pipe_config_args,
    pipe_delete_args, rules_text, ConnectionInfo, DnctlError, DnctlUpload, PfProtocol, FIRST_PIPE,
};
use bproc::monitor::{ConnectionEntry, ConnectionMap, SocketOwner};
use bproc::process::TrafficType;
use bproc::throttle::UploadThrottleBackend;
use bproc::traffic_classifier::IpAddress;

fn conn(local: IpAddress, lport: u16, remote: IpAddress, rport: u16) -> ConnectionInfo {
    ConnectionInfo {
        local_addr: local,
        local_port: lport,
        remote_addr: remote,
        remote_port: rport,
        protocol: PfProtocol::Tcp,
    }
}

fn map_with(pid: i32, inode: u64) -> ConnectionMap {
    let mut map = ConnectionMap::new();
    map.socket_to_pid.push(SocketOwner { inode, pid, name: String::from("curl") });
    map.socket_to_pid.push(SocketOwner { inode: 99, pid: 7, name: String::from("other") });
    map.tcp_connections.push(ConnectionEntry {
        local_addr: IpAddress::v4(192, 168, 1, 10),
        local_port: 5000,
        remote_addr: IpAddress::v4(93, 184, 216, 34),
        remote_port: 443,
        inode,
        state: String::from("Established"),
    });
    map.tcp_connections.push(ConnectionEntry {
        local_addr: IpAddress::v4(192, 168, 1, 10),
        local_port: 5001,
        remote_addr: IpAddress::v4(1, 1, 1, 1),
        remote_port: 443,
        inode: 99,
        state: String::from("Established"),
    });
    map
}

#[test]
fn rule_names_interface_addresses_ports_and_pipe() {
    let c = conn(IpAddress::v4(192, 168, 1, 10), 5000, IpAddress::v4(8, 8, 8, 8), 443);
    assert_eq!(
        generate_pf_rule(&c, 100, "en0"),
        "dummynet out on en0 proto tcp from 192.168.1.10 port 5000 to 8.8.8.8 port 443 pipe 100"
    );
    let c6 = conn(
        IpAddress::v6([0x2001, 0xdb8, 0, 0, 0, 0, 0, 1]),
        40000,
        IpAddress::v6([0x2606, 0x4700, 0, 0, 0, 0, 0, 0x1111]),
        443,
    );
    assert_eq!(
        generate_pf_rule(&c6, 101, "en1"),
        "dummynet out on en1 proto tcp from 2001:db8::1 port 40000 to 2606:4700::1111 port 443 pipe 101"
    );
}

#[test]
fn rules_text_ends_every_rule_with_newline() {
    let rules = vec![String::from("a"), String::from("b c")];
    assert_eq!(rules_text(&rules), "a\nb c\n");
    assert_eq!(rules_text(&Vec::new()), "");
}

#[test]
fn pipe_arguments() {
    assert_eq!(pipe_config_args(100, 125_000), vec!["pipe", "100", "config", "bw", "1000Kbit/s"]);
    assert_eq!(pipe_config_args(7, 100), vec!["pipe", "7", "config", "bw", "0Kbit/s"]);
    assert_eq!(pipe_delete_args(105), vec!["pipe", "105", "delete"]);
    assert_eq!(detect_interface(), "en0");
}

#[test]
fn connections_of_a_process_are_those_on_its_sockets() {
    let map = map_with(1234, 5);
    let conns = get_connections_for_pid_from_map(&map, 1234);
    assert_eq!(conns.len(), 1);
    assert_eq!(conns[0].local_port, 5000);
    assert_eq!(conns[0].remote_addr, IpAddress::v4(93, 184, 216, 34));
    assert!(get_connections_for_pid_from_map(&map, 4321).is_empty());
}

#[test]
fn throttle_lifecycle() {
    let mut backend = DnctlUpload::new(String::from("en0"));
    assert_eq!(backend.begin_throttle(1234, false), Err(DnctlError::Unavailable));
    let pipe = backend.begin_throttle(1234, true).unwrap();
    assert_eq!(pipe, FIRST_PIPE);
    let map = map_with(1234, 5);
    let conns = get_connections_for_pid_from_map(&map, 1234);
    let rules = backend.throttle_rules(pipe, &conns);
    assert_eq!(
        rules,
        vec!["dummynet out on en0 proto tcp from 192.168.1.10 port 5000 to 93.184.216.34 port 443 pipe 100"]
    );
    backend.record_throttle(1234, String::from("curl"), 50_000, pipe, rules, conns);
    assert_eq!(backend.get_upload_throttle(1234), Some(50_000));
    assert_eq!(backend.get_all_throttles(), vec![(1234, 50_000)]);
    assert_eq!(backend.begin_throttle(1234, true), Err(DnctlError::AlreadyThrottled(1234)));
    assert_eq!(backend.begin_throttle(77, true), Ok(101));
    assert_eq!(backend.remove_upload_throttle(1234), Ok(100));
    assert_eq!(backend.get_upload_throttle(1234), None);
    assert_eq!(backend.remove_upload_throttle(1234), Err(DnctlError::NotThrottled(1234)));
}

#[test]
fn new_connections_get_rules_once() {
    let mut backend = DnctlUpload::new(String::from("en0"));
    let pipe = backend.begin_throttle(1234, true).unwrap();
    backend.record_throttle(1234, String::from("curl"), 1000, pipe, Vec::new(), Vec::new());
    let mut map = map_with(1234, 5);
    let pending = backend.pending_rules(&map);
    assert_eq!(pending.len(), 1);
    assert_eq!(pending[0].pid, 1234);
    assert_eq!(pending[0].connections.len(), 1);
    assert_eq!(pending[0].rules.len(), 1);
    let p = pending.into_iter().next().unwrap();
    backend.apply_new_connections(p.pid, p.connections, p.rules);
    assert_eq!(backend.active_throttles[0].connections.len(), 1);
    assert_eq!(backend.active_throttles[0].pf_rules.len(), 1);
    assert!(backend.pending_rules(&map).is_empty());
    map.tcp6_connections.push(ConnectionEntry {
        local_addr: IpAddress::v6([0xfe80, 0, 0, 0, 0, 0, 0, 2]),
        local_port: 6000,
        remote_addr: IpAddress::v6([0xfe80, 0, 0, 0, 0, 0, 0, 3]),
        remote_port: 22,
        inode: 5,
        state: String::from("Established"),
    });
    let pending = backend.pending_rules(&map);
    assert_eq!(pending.len(), 1);
    assert_eq!(
        pending[0].rules,
        vec!["dummynet out on en0 proto tcp from fe80::2 port 6000 to fe80::3 port 22 pipe 100"]
    );
}

#[test]
fn cleanup_returns_every_pipe() {
    let mut backend = DnctlUpload::new(String::from("en0"));
    let a = backend.begin_throttle(1, true).unwrap();
    backend.record_throttle(1, String::from("a"), 10, a, Vec::new(), Vec::new());
    let b = backend.begin_throttle(2, true).unwrap();
    backend.record_throttle(2, String::from("b"), 20, b, Vec::new(), Vec::new());
    assert_eq!(backend.cleanup(), vec![(1, 100), (2, 101)]);
    assert!(backend.get_all_throttles().is_empty());
}

#[test]
fn backend_identity() {
    let backend = DnctlUpload::new(String::from("en0"));
    assert_eq!(UploadThrottleBackend::name(&backend), "dnctl");
    assert_eq!(UploadThrottleBackend::priority(&backend), BackendPriority::Best);
    assert!(UploadThrottleBackend::capabilities(&backend).per_connection);
    assert!(backend.supports_traffic_type(TrafficType::All));
    assert!(!backend.supports_traffic_type(TrafficType::Internet));
}
